//! Operational transformation: rebasing one operation past another that was
//! applied first.

use vstd::prelude::*;
use crate::operation::{DeleteOp, InsertOp, NoopOp, OpModel, OperationKind, ReplaceOp};
use crate::text::{char_len, seq_lt, str_lt};

verus! {

/// Where position `i` lands once `[ds, de)` is deleted: positions inside the
/// range collapse to its left edge.
pub open spec fn map_after_deletion(i: int, ds: int, de: int) -> int {
    if i <= ds {
        i
    } else if i >= de {
        i - (de - ds)
    } else {
        ds
    }
}

/// Where position `i` lands once `il` characters are inserted at `ip`: an
/// insertion goes strictly before the positions at or after it.
pub open spec fn map_after_insertion(i: int, ip: int, il: int) -> int {
    if i < ip {
        i
    } else {
        i + il
    }
}

/// Start of the range `[s, e)` once `n` characters are inserted at `j`.
pub open spec fn range_start_after_insert(s: int, e: int, j: int, n: int) -> int {
    if j <= s {
        s + n
    } else {
        s
    }
}

/// End of the range `[s, e)` once `n` characters are inserted at `j`: an
/// insertion strictly inside the range widens it.
pub open spec fn range_end_after_insert(s: int, e: int, j: int, n: int) -> int {
    if j <= s || j < e {
        e + n
    } else {
        e
    }
}

/// `a` rebased past `b`, which was applied to the state `a` was authored against.
pub open spec fn transform_model(a: OpModel, b: OpModel) -> OpModel {
    match a {
        OpModel::Noop { .. } => a,
        OpModel::Insert { index, text, client_id, client_version } => match b {
            OpModel::Noop { .. } => a,
            OpModel::Insert { index: j, text: t2, client_id: c2, .. } => if j < index || (j
                == index && seq_lt(c2, client_id)) {
                OpModel::Insert { index: index + t2.len(), text, client_id, client_version }
            } else {
                a
            },
            OpModel::Delete { start: s2, end: e2, .. } => OpModel::Insert {
                index: map_after_deletion(index, s2, e2),
                text,
                client_id,
                client_version,
            },
            OpModel::Replace { start: s2, end: e2, text: t2, .. } => OpModel::Insert {
                index: map_after_insertion(map_after_deletion(index, s2, e2), s2, t2.len() as int),
                text,
                client_id,
                client_version,
            },
        },
        OpModel::Delete { start, end, client_id, client_version } => match b {
            OpModel::Noop { .. } => a,
            OpModel::Insert { index: j, text: t2, .. } => OpModel::Delete {
                start: range_start_after_insert(start, end, j, t2.len() as int),
                end: range_end_after_insert(start, end, j, t2.len() as int),
                client_id,
                client_version,
            },
            OpModel::Delete { start: s2, end: e2, .. } => {
                let x = map_after_deletion(start, s2, e2);
                let y = map_after_deletion(end, s2, e2);
                if x == y {
                    a.to_noop()
                } else {
                    OpModel::Delete { start: x, end: y, client_id, client_version }
                }
            },
            OpModel::Replace { start: s2, end: e2, text: t2, .. } => {
                let x = map_after_deletion(start, s2, e2);
                let y = map_after_deletion(end, s2, e2);
                if x == y {
                    a.to_noop()
                } else {
                    OpModel::Delete {
                        start: range_start_after_insert(x, y, s2, t2.len() as int),
                        end: range_end_after_insert(x, y, s2, t2.len() as int),
                        client_id,
                        client_version,
                    }
                }
            },
        },
        OpModel::Replace { start, end, text, client_id, client_version } => match b {
            OpModel::Noop { .. } => a,
            OpModel::Insert { index: j, text: t2, .. } => OpModel::Replace {
                start: range_start_after_insert(start, end, j, t2.len() as int),
                end: range_end_after_insert(start, end, j, t2.len() as int),
                text,
                client_id,
                client_version,
            },
            OpModel::Delete { start: s2, end: e2, .. } => {
                let x = map_after_deletion(start, s2, e2);
                let y = map_after_deletion(end, s2, e2);
                if x == y {
                    OpModel::Insert { index: x, text, client_id, client_version }
                } else {
                    OpModel::Replace { start: x, end: y, text, client_id, client_version }
                }
            },
            OpModel::Replace { start: s2, end: e2, text: t2, .. } => {
                let x = map_after_insertion(map_after_deletion(start, s2, e2), s2, t2.len() as int);
                let y = map_after_insertion(map_after_deletion(end, s2, e2), s2, t2.len() as int);
                if x == y {
                    OpModel::Insert { index: x, text, client_id, client_version }
                } else {
                    OpModel::Replace { start: x, end: y, text, client_id, client_version }
                }
            },
        },
    }
}

/// The positions of `a` stay representable once shifted by what `b` inserts.
pub open spec fn transform_fits(a: OpModel, b: OpModel) -> bool {
    a.max_index() + b.inserted_len() <= u32::MAX
}

pub fn map_index_after_deletion(i: usize, del_start: usize, del_end: usize) -> (r: usize)
    requires
        del_start <= del_end,
    ensures
        r == map_after_deletion(i as int, del_start as int, del_end as int),
        r <= i,
{
    if i <= del_start {
        i
    } else if i >= del_end {
        i - (del_end - del_start)
    } else {
        del_start
    }
}

pub fn map_index_after_insertion(i: usize, ins_pos: usize, ins_len: usize) -> (r: usize)
    requires
        i + ins_len <= usize::MAX,
    ensures
        r == map_after_insertion(i as int, ins_pos as int, ins_len as int),
{
    if i < ins_pos {
        i
    } else {
        i + ins_len
    }
}

/// `op` rebased past each of `past` in turn, or `None` where a rebased position
/// would not fit in 32 bits.
pub open spec fn rebase_model(op: OpModel, past: Seq<OpModel>) -> Option<OpModel>
    decreases past.len(),
{
    if past.len() == 0 {
        Some(op)
    } else if !transform_fits(op, past[0]) {
        None
    } else {
        rebase_model(transform_model(op, past[0]), past.drop_first())
    }
}

/// The models of a sequence of operations.
pub open spec fn models(ops: Seq<OperationKind>) -> Seq<OpModel> {
    ops.map_values(|o: OperationKind| o@)
}

/// Rebases `op` past every operation of `past`, oldest first; `None` where a
/// rebased position would not fit in 32 bits.
pub fn rebase(op: OperationKind, past: &Vec<OperationKind>) -> (r: Option<OperationKind>)
    requires
        forall|k: int| 0 <= k < past@.len() ==> (#[trigger] past@[k])@.well_formed(),
    ensures
        match r {
            Some(o) => rebase_model(op@, models(past@)) == Some(o@),
            None => rebase_model(op@, models(past@)) is None,
        },
{
    let ghost all = models(past@);
    let mut cur = op;
    let mut i: usize = 0;
    assert(all.skip(0) =~= all);
    while i < past.len()
        invariant
            all == models(past@),
            i <= past@.len(),
            forall|k: int| 0 <= k < past@.len() ==> (#[trigger] past@[k])@.well_formed(),
            rebase_model(op@, all) == rebase_model(cur@, all.skip(i as int)),
        decreases past@.len() - i,
    {
        let prev = past[i].duplicate();
        assert(all.skip(i as int)[0] == all[i as int]);
        assert(all.skip(i as int).drop_first() =~= all.skip(i + 1));
        if prev.inserted_len() > (u32::MAX - cur.max_index()) as usize {
            return None;
        }
        cur = transform(cur, prev);
        i = i + 1;
    }
    Some(cur)
}

/// The range `[start, end)` once `ins_len` characters are inserted at `ins_index`.
fn shift_range(start: u32, end: u32, ins_index: u32, ins_len: usize) -> (r: (u32, u32))
    requires
        start + ins_len <= u32::MAX,
        end + ins_len <= u32::MAX,
    ensures
        r.0 == range_start_after_insert(start as int, end as int, ins_index as int, ins_len as int),
        r.1 == range_end_after_insert(start as int, end as int, ins_index as int, ins_len as int),
{
    let n = ins_len as u32;
    if ins_index <= start {
        (start + n, end + n)
    } else if ins_index < end {
        (start, end + n)
    } else {
        (start, end)
    }
}

/// Rebases `op_in` past `op_prev`, which was applied to the document state
/// `op_in` was authored against.
pub fn transform(op_in: OperationKind, op_prev: OperationKind) -> (r: OperationKind)
    requires
        op_prev@.well_formed(),
        transform_fits(op_in@, op_prev@),
    ensures
        r@ == transform_model(op_in@, op_prev@),
{
    match op_in {
        OperationKind::Noop(_) => op_in,
        OperationKind::Insert(op) => match op_prev {
            OperationKind::Noop(_) => OperationKind::Insert(op),
            OperationKind::Insert(prev) => {
                let shift = prev.index < op.index || (prev.index == op.index && str_lt(
                    prev.client_id.as_str(),
                    op.client_id.as_str(),
                ));
                let index = if shift {
                    op.index + char_len(prev.text.as_str()) as u32
                } else {
                    op.index
                };
                OperationKind::Insert(InsertOp { index, ..op })
            },
            OperationKind::Delete(prev) => {
                let index = map_index_after_deletion(
                    op.index as usize,
                    prev.start as usize,
                    prev.end as usize,
                ) as u32;
                OperationKind::Insert(InsertOp { index, ..op })
            },
            OperationKind::Replace(prev) => {
                let after_del = map_index_after_deletion(
                    op.index as usize,
                    prev.start as usize,
                    prev.end as usize,
                );
                let index = map_index_after_insertion(
                    after_del,
                    prev.start as usize,
                    char_len(prev.text.as_str()),
                ) as u32;
                OperationKind::Insert(InsertOp { index, ..op })
            },
        },
        OperationKind::Delete(op) => match op_prev {
            OperationKind::Noop(_) => OperationKind::Delete(op),
            OperationKind::Insert(prev) => {
                let (start, end) = shift_range(
                    op.start,
                    op.end,
                    prev.index,
                    char_len(prev.text.as_str()),
                );
                OperationKind::Delete(DeleteOp { start, end, ..op })
            },
            OperationKind::Delete(prev) => {
                let start = map_index_after_deletion(
                    op.start as usize,
                    prev.start as usize,
                    prev.end as usize,
                );
                let end = map_index_after_deletion(
                    op.end as usize,
                    prev.start as usize,
                    prev.end as usize,
                );
                if start == end {
                    OperationKind::Noop(
                        NoopOp { client_id: op.client_id, client_version: op.client_version },
                    )
                } else {
                    OperationKind::Delete(DeleteOp { start: start as u32, end: end as u32, ..op })
                }
            },
            OperationKind::Replace(prev) => {
                let start = map_index_after_deletion(
                    op.start as usize,
                    prev.start as usize,
                    prev.end as usize,
                );
                let end = map_index_after_deletion(
                    op.end as usize,
                    prev.start as usize,
                    prev.end as usize,
                );
                if start == end {
                    OperationKind::Noop(
                        NoopOp { client_id: op.client_id, client_version: op.client_version },
                    )
                } else {
                    let (start, end) = shift_range(
                        start as u32,
                        end as u32,
                        prev.start,
                        char_len(prev.text.as_str()),
                    );
                    OperationKind::Delete(DeleteOp { start, end, ..op })
                }
            },
        },
        OperationKind::Replace(op) => match op_prev {
            OperationKind::Noop(_) => OperationKind::Replace(op),
            OperationKind::Insert(prev) => {
                let (start, end) = shift_range(
                    op.start,
                    op.end,
                    prev.index,
                    char_len(prev.text.as_str()),
                );
                OperationKind::Replace(ReplaceOp { start, end, ..op })
            },
            OperationKind::Delete(prev) => {
                let start = map_index_after_deletion(
                    op.start as usize,
                    prev.start as usize,
                    prev.end as usize,
                );
                let end = map_index_after_deletion(
                    op.end as usize,
                    prev.start as usize,
                    prev.end as usize,
                );
                if start == end {
                    OperationKind::Insert(
                        InsertOp {
                            index: start as u32,
                            text: op.text,
                            client_id: op.client_id,
                            client_version: op.client_version,
                        },
                    )
                } else {
                    OperationKind::Replace(
                        ReplaceOp { start: start as u32, end: end as u32, ..op },
                    )
                }
            },
            OperationKind::Replace(prev) => {
                let ins_len = char_len(prev.text.as_str());
                let start_after_del = map_index_after_deletion(
                    op.start as usize,
                    prev.start as usize,
                    prev.end as usize,
                );
                let end_after_del = map_index_after_deletion(
                    op.end as usize,
                    prev.start as usize,
                    prev.end as usize,
                );
                let start = map_index_after_insertion(
                    start_after_del,
                    prev.start as usize,
                    ins_len,
                );
                let end = map_index_after_insertion(end_after_del, prev.start as usize, ins_len);
                if start == end {
                    OperationKind::Insert(
                        InsertOp {
                            index: start as u32,
                            text: op.text,
                            client_id: op.client_id,
                            client_version: op.client_version,
                        },
                    )
                } else {
                    OperationKind::Replace(
                        ReplaceOp { start: start as u32, end: end as u32, ..op },
                    )
                }
            },
        },
    }
}

} // verus!
