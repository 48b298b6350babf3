use dist_space::document::{DocError, Document};
use dist_space::operation::{DeleteOp, InsertOp, NoopOp, OperationKind, ReplaceOp};
use dist_space::transform::transform;

fn make_insert(index: u32, text: &str, client_id: &str, version: u64) -> OperationKind {
    OperationKind::Insert(InsertOp {
        index,
        text: text.to_string(),
        client_id: client_id.to_string(),
        client_version: version,
    })
}

fn make_delete(start: u32, end: u32, client_id: &str, version: u64) -> OperationKind {
    OperationKind::Delete(DeleteOp {
        start,
        end,
        client_id: client_id.to_string(),
        client_version: version,
    })
}

fn make_replace(start: u32, end: u32, text: &str, client_id: &str, version: u64) -> OperationKind {
    OperationKind::Replace(ReplaceOp {
        start,
        end,
        text: text.to_string(),
        client_id: client_id.to_string(),
        client_version: version,
    })
}

fn make_noop(client_id: &str, version: u64) -> OperationKind {
    OperationKind::Noop(NoopOp {
        client_id: client_id.to_string(),
        client_version: version,
    })
}

fn apply_op(doc: &mut String, op: &OperationKind) -> Result<(), DocError> {
    let mut d = Document::new(uuid::Uuid::nil());
    d.content = doc.clone();
    d.apply_op(op)?;
    *doc = d.content;
    Ok(())
}

fn test_convergence(initial: &str, op_a: OperationKind, op_b: OperationKind) {
    let mut doc1 = initial.to_string();
    apply_op(&mut doc1, &op_a).expect("Apply A failed");
    let transformed_b = transform(op_b.clone(), op_a.clone());
    apply_op(&mut doc1, &transformed_b).expect("Apply transformed B failed");

    let mut doc2 = initial.to_string();
    apply_op(&mut doc2, &op_b).expect("Apply B failed");
    let transformed_a = transform(op_a.clone(), op_b.clone());
    apply_op(&mut doc2, &transformed_a).expect("Apply transformed A failed");

    assert_eq!(doc1, doc2, "Convergence failed for {:?} and {:?}", op_a, op_b);
}

#[test]
fn test_noop_vs_noop() {
    let op = make_noop("A", 1);
    let prev = make_noop("B", 1);
    let result = transform(op.clone(), prev);
    assert!(matches!(result, OperationKind::Noop(_)));
}

#[test]
fn test_noop_vs_insert() {
    let op = make_noop("A", 1);
    let prev = make_insert(0, "hello", "B", 1);
    let result = transform(op.clone(), prev);
    assert!(matches!(result, OperationKind::Noop(_)));
}

#[test]
fn test_noop_vs_delete() {
    let op = make_noop("A", 1);
    let prev = make_delete(0, 5, "B", 1);
    let result = transform(op.clone(), prev);
    assert!(matches!(result, OperationKind::Noop(_)));
}

#[test]
fn test_insert_insert_before() {
    let op = make_insert(5, "X", "A", 1);
    let prev = make_insert(2, "YY", "B", 1);
    let result = transform(op, prev);
    if let OperationKind::Insert(insert) = result {
        assert_eq!(insert.index, 7);
        assert_eq!(insert.text, "X");
    } else {
        panic!("Expected Insert, got {:?}", result);
    }
}

#[test]
fn test_insert_insert_after() {
    let op = make_insert(2, "X", "A", 1);
    let prev = make_insert(5, "YY", "B", 1);
    let result = transform(op, prev);
    if let OperationKind::Insert(insert) = result {
        assert_eq!(insert.index, 2);
    } else {
        panic!("Expected Insert");
    }
}

#[test]
fn test_insert_insert_same_position_tie_break() {
    let op = make_insert(3, "X", "B", 1);
    let prev = make_insert(3, "YY", "A", 1);
    let result = transform(op, prev);
    if let OperationKind::Insert(insert) = result {
        assert_eq!(insert.index, 5);
    } else {
        panic!("Expected Insert");
    }
}

#[test]
fn test_insert_insert_same_position_tie_break_reverse() {
    let op = make_insert(3, "X", "A", 1);
    let prev = make_insert(3, "YY", "B", 1);
    let result = transform(op, prev);
    if let OperationKind::Insert(insert) = result {
        assert_eq!(insert.index, 3);
    } else {
        panic!("Expected Insert");
    }
}

#[test]
fn test_insert_delete_before_range() {
    let op = make_insert(2, "X", "A", 1);
    let prev = make_delete(5, 8, "B", 1);
    let result = transform(op, prev);
    if let OperationKind::Insert(insert) = result {
        assert_eq!(insert.index, 2);
    } else {
        panic!("Expected Insert");
    }
}

#[test]
fn test_insert_delete_after_range() {
    let op = make_insert(10, "X", "A", 1);
    let prev = make_delete(5, 8, "B", 1);
    let result = transform(op, prev);
    if let OperationKind::Insert(insert) = result {
        assert_eq!(insert.index, 7);
    } else {
        panic!("Expected Insert");
    }
}

#[test]
fn test_insert_delete_inside_range() {
    let op = make_insert(6, "X", "A", 1);
    let prev = make_delete(5, 8, "B", 1);
    let result = transform(op, prev);
    if let OperationKind::Insert(insert) = result {
        assert_eq!(insert.index, 5);
    } else {
        panic!("Expected Insert");
    }
}

#[test]
fn test_delete_insert_before() {
    let op = make_delete(5, 8, "A", 1);
    let prev = make_insert(2, "XX", "B", 1);
    let result = transform(op, prev);
    if let OperationKind::Delete(delete) = result {
        assert_eq!(delete.start, 7);
        assert_eq!(delete.end, 10);
    } else {
        panic!("Expected Delete");
    }
}

#[test]
fn test_delete_insert_after() {
    let op = make_delete(2, 4, "A", 1);
    let prev = make_insert(10, "XX", "B", 1);
    let result = transform(op, prev);
    if let OperationKind::Delete(delete) = result {
        assert_eq!(delete.start, 2);
        assert_eq!(delete.end, 4);
    } else {
        panic!("Expected Delete");
    }
}

#[test]
fn test_delete_insert_inside_range() {
    let op = make_delete(2, 8, "A", 1);
    let prev = make_insert(5, "XXX", "B", 1);
    let result = transform(op, prev);
    if let OperationKind::Delete(delete) = result {
        assert_eq!(delete.start, 2);
        assert_eq!(delete.end, 11);
    } else {
        panic!("Expected Delete");
    }
}

#[test]
fn test_delete_delete_non_overlapping_before() {
    let op = make_delete(10, 15, "A", 1);
    let prev = make_delete(2, 5, "B", 1);
    let result = transform(op, prev);
    if let OperationKind::Delete(delete) = result {
        assert_eq!(delete.start, 7);
        assert_eq!(delete.end, 12);
    } else {
        panic!("Expected Delete");
    }
}

#[test]
fn test_delete_delete_non_overlapping_after() {
    let op = make_delete(2, 5, "A", 1);
    let prev = make_delete(10, 15, "B", 1);
    let result = transform(op, prev);
    if let OperationKind::Delete(delete) = result {
        assert_eq!(delete.start, 2);
        assert_eq!(delete.end, 5);
    } else {
        panic!("Expected Delete");
    }
}

#[test]
fn test_delete_delete_fully_covered() {
    let op = make_delete(5, 8, "A", 1);
    let prev = make_delete(2, 12, "B", 1);
    let result = transform(op, prev);
    assert!(matches!(result, OperationKind::Noop(_)), "Expected Noop when delete is fully covered");
}

#[test]
fn test_delete_delete_partial_overlap_left() {
    let op = make_delete(5, 10, "A", 1);
    let prev = make_delete(3, 7, "B", 1);
    let result = transform(op, prev);
    if let OperationKind::Delete(delete) = result {
        assert_eq!(delete.start, 3);
        assert_eq!(delete.end, 6);
    } else {
        panic!("Expected Delete, got {:?}", result);
    }
}

#[test]
fn test_insert_replace_before() {
    let op = make_insert(2, "A", "A", 1);
    let prev = make_replace(5, 8, "XYZ", "B", 1);
    let result = transform(op, prev);
    if let OperationKind::Insert(insert) = result {
        assert_eq!(insert.index, 2);
    } else {
        panic!("Expected Insert");
    }
}

#[test]
fn test_insert_replace_after() {
    let op = make_insert(12, "A", "A", 1);
    let prev = make_replace(5, 8, "X", "B", 1);
    let result = transform(op, prev);
    if let OperationKind::Insert(insert) = result {
        assert_eq!(insert.index, 10);
    } else {
        panic!("Expected Insert");
    }
}

#[test]
fn test_delete_replace_non_overlapping() {
    let op = make_delete(10, 15, "A", 1);
    let prev = make_replace(2, 5, "XX", "B", 1);
    let result = transform(op, prev);
    if let OperationKind::Delete(delete) = result {
        assert_eq!(delete.start, 9);
        assert_eq!(delete.end, 14);
    } else {
        panic!("Expected Delete, got {:?}", result);
    }
}

#[test]
fn test_replace_replace_non_overlapping() {
    let op = make_replace(10, 15, "AA", "A", 1);
    let prev = make_replace(2, 5, "BB", "B", 1);
    let result = transform(op, prev);
    if let OperationKind::Replace(replace) = result {
        assert_eq!(replace.start, 9);
        assert_eq!(replace.end, 14);
        assert_eq!(replace.text, "AA");
    } else {
        panic!("Expected Replace, got {:?}", result);
    }
}

#[test]
fn test_replace_replace_fully_covered() {
    let op = make_replace(5, 8, "X", "A", 1);
    let prev = make_replace(2, 12, "Y", "B", 1);
    let result = transform(op, prev);
    assert!(matches!(result, OperationKind::Insert(_)), "Expected Insert when replace range is fully covered");
}

#[test]
fn test_replace_delete_range_collapsed() {
    let op = make_replace(5, 8, "NEW", "A", 1);
    let prev = make_delete(3, 10, "B", 1);
    let result = transform(op, prev);
    if let OperationKind::Insert(insert) = result {
        assert_eq!(insert.index, 3);
        assert_eq!(insert.text, "NEW");
    } else {
        panic!("Expected Insert when replace range collapses, got {:?}", result);
    }
}

#[test]
fn test_convergence_insert_insert() {
    test_convergence("hello world", make_insert(5, "X", "A", 1), make_insert(8, "Y", "B", 1));
}

#[test]
fn test_convergence_insert_insert_same_position() {
    test_convergence("hello world", make_insert(5, "X", "A", 1), make_insert(5, "Y", "B", 1));
}

#[test]
fn test_convergence_insert_delete() {
    test_convergence("hello world", make_insert(2, "XX", "A", 1), make_delete(3, 7, "B", 1));
}

#[test]
fn test_convergence_delete_delete_overlapping() {
    test_convergence("hello world", make_delete(2, 7, "A", 1), make_delete(5, 9, "B", 1));
}
