use std::sync::Arc;

use crossbeam::channel::bounded;
use dist_space::client::ClientState;
use dist_space::client_entry::{ClientEntry, SendOutcome};
use dist_space::document::{DocError, Document};
use dist_space::frame::{Frame, FrameError, Reader, Writer, MAX_PAYLOAD_BYTES};
use dist_space::operation::{DeleteOp, InsertOp, NoopOp, OperationKind, ReplaceOp};
use dist_space::protocol::{Envelope, OperationProto, ServerMessage, SyncDocumentProto};
use dist_space::state::{ApplyError, ServerState};
use dist_space::text::{char_len, splice_str, str_lt};
use dist_space::transform::{map_index_after_deletion, map_index_after_insertion, rebase, transform};

const CLIENT_A: &str = "550e8400-e29b-41d4-a716-446655440000";

fn ins(index: u32, text: &str, id: &str) -> OperationKind {
    OperationKind::Insert(InsertOp { index, text: text.to_string(), client_id: id.to_string(), client_version: 0 })
}

fn del(start: u32, end: u32, id: &str) -> OperationKind {
    OperationKind::Delete(DeleteOp { start, end, client_id: id.to_string(), client_version: 0 })
}

fn rep(start: u32, end: u32, text: &str, id: &str) -> OperationKind {
    OperationKind::Replace(ReplaceOp { start, end, text: text.to_string(), client_id: id.to_string(), client_version: 0 })
}

fn noop(id: &str) -> OperationKind {
    OperationKind::Noop(NoopOp { client_id: id.to_string(), client_version: 0 })
}

fn proto(kind: Option<OperationKind>, doc_id: &str, client_id: &str, v: u64) -> OperationProto {
    OperationProto {
        op_id: 1,
        kind,
        doc_id: doc_id.to_string(),
        client_id: client_id.to_string(),
        client_version: v,
        server_version: 0,
        new_content: String::new(),
    }
}

#[test]
fn index_maps() {
    assert_eq!(map_index_after_deletion(2, 3, 6), 2);
    assert_eq!(map_index_after_deletion(3, 3, 6), 3);
    assert_eq!(map_index_after_deletion(4, 3, 6), 3);
    assert_eq!(map_index_after_deletion(6, 3, 6), 3);
    assert_eq!(map_index_after_deletion(9, 3, 6), 6);
    assert_eq!(map_index_after_insertion(2, 3, 4), 2);
    assert_eq!(map_index_after_insertion(3, 3, 4), 7);
}

#[test]
fn noop_identity() {
    match transform(rep(1, 4, "ab", "A"), noop("B")) {
        OperationKind::Replace(r) => {
            assert_eq!((r.start, r.end), (1, 4));
            assert_eq!(r.text, "ab");
            assert_eq!(r.client_id, "A");
        }
        other => panic!("unexpected {:?}", other),
    }
    match transform(noop("N"), del(0, 3, "B")) {
        OperationKind::Noop(n) => assert_eq!(n.client_id, "N"),
        other => panic!("unexpected {:?}", other),
    }
}

#[test]
fn same_delete_becomes_noop() {
    match transform(del(2, 6, "B"), del(2, 6, "A")) {
        OperationKind::Noop(n) => assert_eq!(n.client_id, "B"),
        other => panic!("unexpected {:?}", other),
    }
}

#[test]
fn delete_past_replace_collapses_to_noop() {
    assert!(matches!(transform(del(3, 5, "A"), rep(2, 6, "Q", "B")), OperationKind::Noop(_)));
}

#[test]
fn replace_past_replace_keeps_text() {
    match transform(rep(3, 5, "text", "A"), rep(2, 6, "QQ", "B")) {
        OperationKind::Insert(i) => {
            assert_eq!(i.index, 4);
            assert_eq!(i.text, "text");
        }
        other => panic!("unexpected {:?}", other),
    }
}

#[test]
fn tie_break_uses_client_order_on_characters() {
    assert!(str_lt("A", "B"));
    assert!(str_lt("ab", "abc"));
    assert!(!str_lt("abc", "abc"));
    assert!(!str_lt("b", "abc"));
    match transform(ins(3, "X", "ab"), ins(3, "YY", "a")) {
        OperationKind::Insert(i) => assert_eq!(i.index, 5),
        other => panic!("unexpected {:?}", other),
    }
}

#[test]
fn positions_count_characters() {
    assert_eq!(char_len("héllo"), 5);
    assert_eq!(splice_str("héllo", 1, 2, "EE"), "hEEllo");
    let mut d = Document::new(uuid::Uuid::nil());
    d.content = "héllo".to_string();
    d.apply_op(&ins(5, "!", "A")).unwrap();
    assert_eq!(d.content, "héllo!");
    assert_eq!(d.version, 1);
}

#[test]
fn document_errors() {
    let mut d = Document::new(uuid::Uuid::nil());
    d.content = "abc".to_string();
    assert_eq!(d.apply_op(&ins(4, "x", "A")), Err(DocError::OutOfBounds));
    assert_eq!(d.apply_op(&del(1, 4, "A")), Err(DocError::OutOfBounds));
    assert_eq!(d.apply_op(&rep(2, 1, "x", "A")), Err(DocError::InvalidRange));
    assert_eq!(d.content, "abc");
    assert_eq!(d.version, 0);
    assert_eq!(d.apply_op(&noop("A")), Ok(()));
    assert_eq!(d.version, 1);
    assert_eq!(d.apply_op(&rep(0, 3, "xy", "A")), Ok(()));
    assert_eq!(d.content, "xy");
}

#[test]
fn rebase_folds_in_order() {
    let past = vec![ins(0, "ab", "B"), del(0, 1, "C")];
    match rebase(ins(1, "X", "A"), &past) {
        Some(OperationKind::Insert(i)) => assert_eq!(i.index, 2),
        other => panic!("unexpected {:?}", other),
    }
    let big = vec![ins(0, "ab", "B")];
    assert!(rebase(ins(u32::MAX, "X", "A"), &big).is_none());
}

#[test]
fn pipeline_rebases_and_logs() {
    let mut s = ServerState::new(uuid::Uuid::nil());
    let snap = s.send_applied_op(proto(Some(ins(0, "hello world", "A")), "doc", CLIENT_A, 0)).unwrap().unwrap();
    assert_eq!(snap.version, 1);
    assert_eq!(snap.content, "hello world");
    assert_eq!(snap.doc_id, "doc");
    s.send_applied_op(proto(Some(ins(5, "X", "A")), "doc", CLIENT_A, 1)).unwrap();
    let snap = s.send_applied_op(proto(Some(ins(5, "Y", "B")), "doc", CLIENT_A, 1)).unwrap().unwrap();
    assert_eq!(snap.content, "helloXY world");
    assert_eq!(snap.version, 3);
    let log = s.get_op_log();
    assert_eq!(log.len(), 3);
    assert_eq!(s.get_document().version, 3);
    let kinds = log.get_ops_in_range(2, 3);
    match &kinds[0] {
        OperationKind::Insert(i) => assert_eq!(i.index, 6),
        other => panic!("unexpected {:?}", other),
    }
}

#[test]
fn pipeline_errors() {
    let mut s = ServerState::new(uuid::Uuid::nil());
    assert_eq!(s.send_applied_op(proto(Some(ins(0, "x", "A")), "", CLIENT_A, 0)), Err(ApplyError::MissingDocId));
    assert_eq!(s.send_applied_op(proto(Some(ins(0, "x", "A")), "doc", "not-a-uuid", 0)), Err(ApplyError::InvalidClientId));
    assert_eq!(s.send_applied_op(proto(None, "doc", CLIENT_A, 0)), Err(ApplyError::MissingKind));
    assert_eq!(s.send_applied_op(proto(Some(ins(3, "x", "A")), "doc", CLIENT_A, 0)), Err(ApplyError::Apply(DocError::OutOfBounds)));
    assert!(!ApplyError::Apply(DocError::OutOfBounds).is_invalid_data());
    assert!(ApplyError::MissingKind.is_invalid_data());
    assert_eq!(s.get_document().version, 0);
    assert_eq!(s.get_op_log().len(), 0);
}

#[test]
fn pipeline_accepts_simple_uuid_form() {
    let mut s = ServerState::new(uuid::Uuid::nil());
    let r = s.send_applied_op(proto(Some(ins(0, "x", "A")), "doc", "550e8400e29b41d4a716446655440000", 0));
    assert!(matches!(r, Ok(Some(_))));
    let entry_client = s.get_op_log().get_ops_in_range(0, 1);
    assert_eq!(entry_client.len(), 1);
}

#[test]
fn pipeline_absorbs_noop() {
    let mut s = ServerState::new(uuid::Uuid::nil());
    s.send_applied_op(proto(Some(ins(0, "hello", "A")), "doc", CLIENT_A, 0)).unwrap();
    s.send_applied_op(proto(Some(del(1, 3, "A")), "doc", CLIENT_A, 1)).unwrap();
    let r = s.send_applied_op(proto(Some(del(1, 3, "B")), "doc", CLIENT_A, 1));
    assert_eq!(r, Ok(None));
    assert_eq!(s.get_document().version, 2);
    assert_eq!(s.get_document().content, "hlo");
    assert_eq!(s.get_op_log().len(), 2);
}

#[test]
fn registry_remove_and_touch() {
    let mut s = ServerState::new(uuid::Uuid::nil());
    let (tx, _rx) = bounded::<Arc<Frame>>(4);
    s.add_client(ClientEntry::new(1, tx.clone(), 10)).unwrap();
    s.add_client(ClientEntry::new(2, tx.clone(), 10)).unwrap();
    s.touch_client(2, 50_000);
    assert_eq!(s.get_clients()[1].last_activity_ms, 50_000);
    assert_eq!(s.get_clients()[0].last_activity_ms, 10);
    assert_eq!(s.remove_timed_out_clients(50_000), 1);
    assert_eq!(s.client_count(), 1);
    assert!(s.remove_client(7).is_none());
    let removed = s.remove_client(2).unwrap();
    assert_eq!(removed.client_id, 2);
    assert_eq!(s.client_count(), 0);
}

#[test]
fn client_idle_time() {
    let (tx, _rx) = bounded::<Arc<Frame>>(1);
    let mut c = ClientEntry::new(1, tx, 1_000);
    assert_eq!(c.ms_since_last_activity(500), 0);
    assert_eq!(c.ms_since_last_activity(31_000), 30_000);
    assert!(!c.is_timed_out(30_000, 31_000));
    assert!(c.is_timed_out(30_000, 31_001));
    c.touch(31_001);
    assert!(!c.is_timed_out(30_000, 31_001));
}

#[test]
fn broadcast_skips_origin_and_evicts_closed() {
    let mut s = ServerState::new(uuid::Uuid::nil());
    let (tx1, rx1) = bounded::<Arc<Frame>>(4);
    let (tx2, rx2) = bounded::<Arc<Frame>>(4);
    s.add_client(ClientEntry::new(1, tx1, 0)).unwrap();
    s.add_client(ClientEntry::new(2, tx2, 0)).unwrap();
    drop(rx2);
    let deliveries = s.broadcast(1, Frame::new_arc(vec![9, 9]));
    assert_eq!(deliveries.len(), 1);
    assert_eq!(deliveries[0].client_id, 2);
    assert_eq!(deliveries[0].outcome, SendOutcome::Disconnected);
    assert!(rx1.try_recv().is_err());
    assert_eq!(s.client_count(), 1);
    assert_eq!(s.get_clients()[0].client_id, 1);
}

#[test]
fn ping_reaches_each_open_queue() {
    let mut s = ServerState::new(uuid::Uuid::nil());
    let (tx1, rx1) = bounded::<Arc<Frame>>(4);
    let (tx2, _rx2) = bounded::<Arc<Frame>>(0);
    s.add_client(ClientEntry::new(1, tx1, 0)).unwrap();
    s.add_client(ClientEntry::new(2, tx2, 0)).unwrap();
    let (pinged, attempts) = s.send_ping_to_all(258);
    assert_eq!(pinged, 1);
    assert_eq!(attempts.len(), 2);
    assert_eq!((attempts[0].client_id, attempts[0].outcome), (1, SendOutcome::Sent));
    assert_eq!((attempts[1].client_id, attempts[1].outcome), (2, SendOutcome::Full));
    assert_eq!(s.client_count(), 2);
    let f = rx1.try_recv().unwrap();
    assert_eq!(f.payload, vec![3, 0, 0, 0, 0, 0, 0, 1, 2]);
}

#[test]
fn envelope_encoding() {
    assert_eq!(Envelope::Pong(1).encode(), vec![4, 0, 0, 0, 0, 0, 0, 0, 1]);
    assert_eq!(Envelope::SyncDocument(vec![7, 8]).encode(), vec![2, 7, 8]);
    assert_eq!(Envelope::Operation(vec![]).encode(), vec![1]);
    for e in [Envelope::Ping(u64::MAX), Envelope::Operation(vec![1, 2, 3]), Envelope::SyncDocument(vec![])] {
        assert_eq!(Envelope::decode(&e.encode()).unwrap(), e);
    }
}

#[test]
fn envelope_decode_errors() {
    assert!(matches!(Envelope::decode(&[]), Err(FrameError::Protocol(_))));
    assert!(matches!(Envelope::decode(&[9]), Err(FrameError::Protocol(_))));
    assert!(matches!(Envelope::decode(&[3, 1, 2, 3, 4]), Err(FrameError::Protocol(_))));
    let long_ping = [3, 0, 0, 0, 0, 0, 0, 0, 5, 99];
    assert_eq!(Envelope::decode(&long_ping).unwrap(), Envelope::Ping(5));
}

#[test]
fn message_type_ids() {
    let sync = SyncDocumentProto { doc_id: "d".to_string(), content: String::new(), version: 0 };
    assert_eq!(ServerMessage::Operation(proto(None, "d", CLIENT_A, 0)).get_message_type_id(), 1);
    assert_eq!(ServerMessage::SyncDocument(sync).get_message_type_id(), 2);
    assert_eq!(ServerMessage::Ping(0).get_message_type_id(), 3);
    assert_eq!(ServerMessage::Pong(0).get_message_type_id(), 4);
}

#[test]
fn frame_lengths() {
    assert_eq!(Reader::payload_length([0, 0, 0, 0]).unwrap(), 0);
    assert_eq!(Reader::payload_length([0, 16, 0, 0]).unwrap(), MAX_PAYLOAD_BYTES);
    match Reader::payload_length([0, 16, 0, 1]) {
        Err(FrameError::PayloadTooLarge(n, m)) => {
            assert_eq!(n, MAX_PAYLOAD_BYTES + 1);
            assert_eq!(m, MAX_PAYLOAD_BYTES);
        }
        other => panic!("unexpected {:?}", other),
    }
    let f = Frame { payload: vec![1, 2, 3] };
    assert_eq!(f.total_len(), 7);
    assert_eq!(Writer::wire_bytes(&f), vec![0, 0, 0, 3, 1, 2, 3]);
    assert_eq!(Frame::new_arc(vec![5]).payload, vec![5]);
}

#[test]
fn client_takes_newer_snapshots() {
    let mut c = ClientState::new("me".to_string());
    let first = SyncDocumentProto { doc_id: "d".to_string(), content: "abc".to_string(), version: 0 };
    assert!(c.apply_sync(first));
    let stale = SyncDocumentProto { doc_id: "d".to_string(), content: "zzz".to_string(), version: 0 };
    assert!(!c.apply_sync(stale));
    assert_eq!(c.buffer, "abc");
    let newer = SyncDocumentProto { doc_id: "d".to_string(), content: "abcd".to_string(), version: 2 };
    assert!(c.apply_sync(newer));
    assert_eq!(c.version, 2);
    let op = c.full_replace("new".to_string(), 9);
    assert_eq!(op.client_version, 2);
    match op.kind {
        Some(OperationKind::Replace(r)) => {
            assert_eq!((r.start, r.end), (0, 4));
            assert_eq!(r.text, "new");
        }
        other => panic!("unexpected {:?}", other),
    }
}

fn converged(initial: &str, a: OperationKind, b: OperationKind) -> (String, String) {
    let mut d1 = Document::new(uuid::Uuid::nil());
    d1.content = initial.to_string();
    d1.apply_op(&a).unwrap();
    d1.apply_op(&transform(b.clone(), a.clone())).unwrap();
    let mut d2 = Document::new(uuid::Uuid::nil());
    d2.content = initial.to_string();
    d2.apply_op(&b).unwrap();
    d2.apply_op(&transform(a, b)).unwrap();
    (d1.content, d2.content)
}

#[test]
fn replace_pairs_converge() {
    let (p, q) = converged("abcdefgh", rep(1, 3, "XY", "A"), rep(5, 7, "Z", "B"));
    assert_eq!(p, "aXYdeZh");
    assert_eq!(p, q);
    let (p, q) = converged("abcdefgh", rep(1, 5, "XY", "A"), rep(3, 7, "", "B"));
    assert_eq!(p, "aXYh");
    assert_eq!(p, q);
    let (p, q) = converged("abcdefgh", rep(2, 4, "Q", "A"), rep(2, 6, "Q", "B"));
    assert_eq!(p, "abQQgh");
    assert_eq!(p, q);
}

#[test]
fn touching_replaces_diverge() {
    let (p, q) = converged("abcd", rep(0, 2, "X", "A"), rep(2, 4, "Y", "B"));
    assert_eq!(p, "XY");
    assert_eq!(q, "X");
}

#[test]
fn insert_and_replace_converge() {
    let (p, q) = converged("abcdef", ins(1, "T", "A"), rep(2, 4, "U", "B"));
    assert_eq!(p, "aTbUef");
    assert_eq!(p, q);
    let (p, q) = converged("abcdef", ins(5, "T", "A"), rep(2, 4, "U", "B"));
    assert_eq!(p, "abUeTf");
    assert_eq!(p, q);
}

#[test]
fn delete_and_replace_converge() {
    let (p, q) = converged("abcdefgh", del(1, 4, "A"), rep(3, 6, "Z", "B"));
    assert_eq!(p, "aZgh");
    assert_eq!(p, q);
    let (p, q) = converged("abcdefgh", del(2, 4, "A"), rep(1, 6, "Z", "B"));
    assert_eq!(p, "aZgh");
    assert_eq!(p, q);
}

#[test]
fn heartbeat_tick_drops_then_pings() {
    let mut s = ServerState::new(uuid::Uuid::nil());
    let (tx1, rx1) = bounded::<Arc<Frame>>(4);
    let (tx2, rx2) = bounded::<Arc<Frame>>(4);
    s.add_client(ClientEntry::new(1, tx1, 0)).unwrap();
    s.add_client(ClientEntry::new(2, tx2, 20_000)).unwrap();
    let (removed, pinged, attempts) = s.heartbeat_tick(40_000, 7);
    assert_eq!((removed, pinged), (1, 1));
    assert_eq!(attempts.len(), 1);
    assert_eq!(attempts[0].client_id, 2);
    assert!(rx1.try_recv().is_err());
    assert_eq!(rx2.try_recv().unwrap().payload, dist_space::state::ping_frame(7).payload);
    assert_eq!(dist_space::state::ping_frame(7).payload, vec![3, 0, 0, 0, 0, 0, 0, 0, 7]);
    let wire = Writer::wire_bytes(&dist_space::state::ping_frame(7));
    assert_eq!(wire, vec![0, 0, 0, 9, 3, 0, 0, 0, 0, 0, 0, 0, 7]);
}
