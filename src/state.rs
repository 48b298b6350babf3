//! The server's shared state: the document, its log and the client registry,
//! with the apply pipeline and the registry's admission, eviction and
//! heartbeat rules.

use vstd::prelude::*;
use std::sync::Arc;
use crate::broadcaster::{self, Delivery};
use crate::client_entry::{share_frame, timed_out, try_send_frame, ClientEntry};
use crate::document::{DocError, Document};
use crate::frame::{be64, Frame};
use crate::ids::{parse_uuid, parsed_uuid};
use crate::operation::{apply_model, copy_string, OpModel};
use crate::oplog::{Operation, OperationLog};
use crate::protocol::{envelope_bytes, Envelope, OperationProto, SyncDocumentProto, MSG_TYPE_PING};
use crate::transform::{models, rebase, rebase_model};

verus! {

/// Most clients connected at once.
pub const MAX_CLIENTS: usize = 100;

/// A client silent for longer than this, in milliseconds, is dropped.
pub const CLIENT_TIMEOUT_MS: u64 = 30000;

/// Time between two heartbeat ticks, in milliseconds.
pub const HEARTBEAT_INTERVAL_MS: u64 = 10000;

/// Capacity of each client's outbound queue, in frames.
pub const OUTBOUND_QUEUE: usize = 32;

/// Why an incoming operation was not applied.
#[derive(Debug, PartialEq, Eq, Structural)]
pub enum ApplyError {
    /// The message names no document.
    MissingDocId,
    /// The client identity is not a valid UUID.
    InvalidClientId,
    /// The message carries no edit.
    MissingKind,
    /// The edit was authored against a version the server has not reached.
    FutureVersion { client_version: u64, server_version: u64 },
    /// Rebasing would move a position past the 32-bit range.
    IndexOverflow,
    /// The version counter is at its largest value.
    VersionExhausted,
    /// The rebased edit does not fit the document.
    Apply(DocError),
}

impl ApplyError {
    /// Whether the message itself was malformed or premature, as opposed to
    /// an internal failure.
    pub fn is_invalid_data(&self) -> (r: bool)
        ensures
            r == (self is MissingDocId || self is InvalidClientId || self is MissingKind
                || self is FutureVersion),
    {
        matches!(
            self,
            ApplyError::MissingDocId | ApplyError::InvalidClientId | ApplyError::MissingKind
                | ApplyError::FutureVersion { .. }
        )
    }
}

/// The content obtained by applying `ops` in turn to an empty document.
pub open spec fn replay(ops: Seq<OpModel>) -> Option<Seq<char>>
    decreases ops.len(),
{
    if ops.len() == 0 {
        Some(Seq::empty())
    } else {
        match replay(ops.drop_last()) {
            Some(d) => apply_model(d, ops.last()),
            None => None,
        }
    }
}

/// The document, its log and the connected clients. A value built by `new`
/// and changed only through these methods always satisfies `wf`.
pub struct ServerState {
    clients: Vec<ClientEntry>,
    document: Document,
    op_log: OperationLog,
}

impl ServerState {
    pub closed spec fn doc(&self) -> Document {
        self.document
    }

    pub closed spec fn log(&self) -> Seq<Operation> {
        self.op_log@
    }

    pub closed spec fn registry(&self) -> Seq<ClientEntry> {
        self.clients@
    }

    /// The models of the edits of the log entries `[lo, hi)`.
    pub open spec fn log_models(&self, lo: int, hi: int) -> Seq<OpModel> {
        self.log().subrange(lo, hi).map_values(|e: Operation| e.kind@)
    }

    /// The version counts the log entries, entry `k` is stamped with version
    /// `k`, and replaying the log from an empty document gives the content.
    pub open spec fn wf(&self) -> bool {
        &&& self.doc().version == self.log().len()
        &&& forall|k: int|
            0 <= k < self.log().len() ==> (#[trigger] self.log()[k]).server_version == k
        &&& forall|k: int| 0 <= k < self.log().len() ==> (#[trigger] self.log()[k]).kind@.well_formed()
        &&& replay(self.log_models(0, self.log().len() as int)) == Some(self.doc().content@)
    }

    proof fn lemma_log_kinds(&self, lo: int, hi: int)
        requires
            0 <= lo <= hi <= self.op_log@.len(),
        ensures
            models(self.op_log.kinds(lo, hi)) == self.log_models(lo, hi),
    {
        assert(models(self.op_log.kinds(lo, hi)) =~= self.log_models(lo, hi));
    }

    /// An empty document at version 0, an empty log and no clients.
    pub fn new(doc_id: uuid::Uuid) -> (r: ServerState)
        ensures
            r.wf(),
            r.doc().uuid == doc_id,
            r.doc().content@.len() == 0,
            r.doc().version == 0,
            r.log().len() == 0,
            r.registry().len() == 0,
    {
        let r = ServerState {
            clients: Vec::new(),
            document: Document::new(doc_id),
            op_log: OperationLog::new(),
        };
        assert(r.doc().content@ =~= Seq::<char>::empty());
        r
    }

    pub fn get_document(&self) -> (r: &Document)
        ensures
            *r == self.doc(),
    {
        &self.document
    }

    pub fn get_op_log(&self) -> (r: &OperationLog)
        ensures
            r@ == self.log(),
    {
        &self.op_log
    }

    pub fn get_clients(&self) -> (r: &Vec<ClientEntry>)
        ensures
            r@ == self.registry(),
    {
        &self.clients
    }

    pub fn client_count(&self) -> (r: usize)
        ensures
            r == self.registry().len(),
    {
        self.clients.len()
    }

    /// Registers `client` unless `MAX_CLIENTS` are already connected.
    pub fn add_client(&mut self, client: ClientEntry) -> (r: Result<(), String>)
        ensures
            final(self).doc() == old(self).doc(),
            final(self).log() == old(self).log(),
            old(self).registry().len() >= MAX_CLIENTS ==> r is Err && final(self).registry()
                == old(self).registry(),
            old(self).registry().len() < MAX_CLIENTS ==> r is Ok && final(self).registry()
                == old(self).registry().push(client),
    {
        if self.clients.len() >= MAX_CLIENTS {
            return Err(String::from_str("connection limit reached"));
        }
        self.clients.push(client);
        Ok(())
    }
}

/// In a well-formed state the version counts the successful applies: it
/// equals the number of log entries, and those are stamped `0..version`.
pub proof fn lemma_version_counts_applies(s: &ServerState)
    requires
        s.wf(),
    ensures
        s.doc().version == s.log().len(),
        forall|k: int| 0 <= k < s.log().len() ==> (#[trigger] s.log()[k]).server_version == k,
{
}

/// The frame that pings a client with `sequence`.
pub fn ping_frame(sequence: u64) -> (r: Arc<Frame>)
    ensures
        r.payload@ == envelope_bytes(MSG_TYPE_PING, be64(sequence)),
{
    Frame::new_arc(Envelope::Ping(sequence).encode())
}

/// Holds of the clients that have not timed out at `now_ms`.
pub open spec fn alive_at(now_ms: u64) -> spec_fn(ClientEntry) -> bool {
    |c: ClientEntry| !timed_out(c, CLIENT_TIMEOUT_MS, now_ms)
}

/// The first position of client `id` in `cs`, if any.
pub open spec fn first_position(cs: Seq<ClientEntry>, id: u128, p: int) -> bool {
    &&& 0 <= p < cs.len()
    &&& cs[p].client_id == id
    &&& forall|k: int| 0 <= k < p ==> (#[trigger] cs[k]).client_id != id
}

impl ServerState {
    /// Unregisters the first client with identity `client_id` and hands it back.
    pub fn remove_client(&mut self, client_id: u128) -> (r: Option<ClientEntry>)
        ensures
            final(self).doc() == old(self).doc(),
            final(self).log() == old(self).log(),
            match r {
                Some(c) => exists|p: int|
                    first_position(old(self).registry(), client_id, p) && c == old(
                        self,
                    ).registry()[p] && final(self).registry() == old(self).registry().remove(p),
                None => final(self).registry() == old(self).registry() && forall|k: int|
                    0 <= k < old(self).registry().len() ==> (#[trigger] old(
                        self,
                    ).registry()[k]).client_id != client_id,
            },
    {
        let mut i: usize = 0;
        while i < self.clients.len()
            invariant
                i <= self.clients@.len(),
                self.clients@ == old(self).clients@,
                self.document == old(self).document,
                self.op_log == old(self).op_log,
                forall|k: int| 0 <= k < i ==> (#[trigger] self.clients@[k]).client_id != client_id,
            decreases self.clients@.len() - i,
        {
            if self.clients[i].client_id == client_id {
                let c = self.clients.remove(i);
                assert(first_position(old(self).registry(), client_id, i as int) && c == old(
                    self,
                ).registry()[i as int] && self.registry() == old(self).registry().remove(
                    i as int,
                ));
                return Some(c);
            }
            i = i + 1;
        }
        None
    }

    /// Drops every client silent for longer than `CLIENT_TIMEOUT_MS` at
    /// `now_ms`, keeping the others in order. Returns how many were dropped.
    pub fn remove_timed_out_clients(&mut self, now_ms: u64) -> (r: usize)
        ensures
            final(self).doc() == old(self).doc(),
            final(self).log() == old(self).log(),
            final(self).registry() == old(self).registry().filter(alive_at(now_ms)),
            r == old(self).registry().len() - final(self).registry().len(),
    {
        let ghost s = self.clients@;
        let ghost p = alive_at(now_ms);
        let before_len = self.clients.len();
        let mut i: usize = 0;
        let ghost mut j: int = 0;
        assert(s.subrange(0, 0).filter(p) =~= Seq::<ClientEntry>::empty()) by {
            reveal(Seq::filter);
        }
        assert(s.subrange(0, s.len() as int) =~= s);
        while i < self.clients.len()
            invariant
                p == alive_at(now_ms),
                before_len == s.len(),
                0 <= j <= s.len(),
                i <= j,
                self.clients@.len() == i + (s.len() - j),
                self.clients@.subrange(0, i as int) == s.subrange(0, j).filter(p),
                self.clients@.subrange(i as int, self.clients@.len() as int) == s.subrange(
                    j,
                    s.len() as int,
                ),
                self.document == old(self).document,
                self.op_log == old(self).op_log,
            decreases self.clients@.len() - i,
        {
            let ghost before = self.clients@;
            assert(before[i as int] == s[j]) by {
                assert(before.subrange(i as int, before.len() as int)[0] == s.subrange(
                    j,
                    s.len() as int,
                )[0]);
            }
            proof {
                broadcaster::lemma_filter_step(s, p, j);
            }
            if self.clients[i].is_timed_out(CLIENT_TIMEOUT_MS, now_ms) {
                assert(!p(s[j]));
                self.clients.remove(i);
                assert(self.clients@.subrange(0, i as int) =~= before.subrange(0, i as int));
                assert(self.clients@.subrange(i as int, self.clients@.len() as int)
                    =~= before.subrange(i as int, before.len() as int).drop_first());
            } else {
                assert(p(s[j]));
                i = i + 1;
                assert(self.clients@.subrange(0, i as int) =~= before.subrange(0, i - 1).push(
                    before[i - 1],
                ));
                assert(self.clients@.subrange(i as int, self.clients@.len() as int)
                    =~= before.subrange(i as int - 1, before.len() as int).drop_first());
            }
            proof {
                j = j + 1;
            }
        }
        assert(s.subrange(0, j) =~= s);
        assert(self.clients@ =~= self.clients@.subrange(0, i as int));
        proof {
            s.lemma_filter_len(p);
        }
        before_len - self.clients.len()
    }

    /// Records activity at `now_ms` for every client with identity `client_id`.
    pub fn touch_client(&mut self, client_id: u128, now_ms: u64)
        ensures
            final(self).doc() == old(self).doc(),
            final(self).log() == old(self).log(),
            final(self).registry().len() == old(self).registry().len(),
            forall|k: int|
                0 <= k < old(self).registry().len() ==> (#[trigger] final(self).registry()[k])
                    == if old(self).registry()[k].client_id == client_id {
                    ClientEntry { last_activity_ms: now_ms, ..old(self).registry()[k] }
                } else {
                    old(self).registry()[k]
                },
    {
        let mut i: usize = 0;
        while i < self.clients.len()
            invariant
                i <= self.clients@.len(),
                self.clients@.len() == old(self).clients@.len(),
                forall|k: int|
                    0 <= k < self.clients@.len() ==> (#[trigger] self.clients@[k]) == if k < i
                        && old(self).clients@[k].client_id == client_id {
                        ClientEntry { last_activity_ms: now_ms, ..old(self).clients@[k] }
                    } else {
                        old(self).clients@[k]
                    },
                self.document == old(self).document,
                self.op_log == old(self).op_log,
            decreases self.clients@.len() - i,
        {
            if self.clients[i].client_id == client_id {
                let mut c = self.clients.remove(i);
                c.touch(now_ms);
                self.clients.insert(i, c);
            }
            i = i + 1;
        }
    }

    /// Offers the ping frame of `sequence` (see `ping_frame`) to every
    /// client without blocking, and evicts no one. Returns how many accepted
    /// it, and the attempts made: one per client, in registry order.
    pub fn send_ping_to_all(&self, sequence: u64) -> (r: (usize, Vec<Delivery>))
        ensures
            r.1@.map_values(|d: Delivery| d.client_id) == broadcaster::client_ids(
                self.registry(),
            ),
            r.0 == broadcaster::sent_count(r.1@),
    {
        let ping = ping_frame(sequence);
        let mut attempts: Vec<Delivery> = Vec::new();
        let mut i: usize = 0;
        while i < self.clients.len()
            invariant
                i <= self.clients@.len(),
                attempts@.map_values(|d: Delivery| d.client_id) == broadcaster::client_ids(
                    self.clients@.subrange(0, i as int),
                ),
            decreases self.clients@.len() - i,
        {
            let ghost before = attempts@;
            let entry = &self.clients[i];
            let outcome = try_send_frame(&entry.writer_sender, share_frame(&ping));
            attempts.push(Delivery { client_id: entry.client_id, outcome });
            assert(attempts@.map_values(|d: Delivery| d.client_id) =~= before.map_values(
                |d: Delivery| d.client_id,
            ).push(entry.client_id));
            assert(broadcaster::client_ids(self.clients@.subrange(0, i + 1)) =~= broadcaster::client_ids(
                self.clients@.subrange(0, i as int),
            ).push(entry.client_id));
            i = i + 1;
        }
        assert(self.clients@.subrange(0, i as int) =~= self.clients@);
        let pinged = broadcaster::count_sent(&attempts);
        (pinged, attempts)
    }

    /// One heartbeat tick at `now_ms`: drops every client silent for longer
    /// than `CLIENT_TIMEOUT_MS`, then offers the ping of `sequence` to each
    /// client left. Returns how many were dropped, how many accepted the
    /// ping, and the ping attempts, one per client left, in registry order.
    pub fn heartbeat_tick(&mut self, now_ms: u64, sequence: u64) -> (r: (usize, usize, Vec<Delivery>))
        ensures
            final(self).doc() == old(self).doc(),
            final(self).log() == old(self).log(),
            final(self).registry() == old(self).registry().filter(alive_at(now_ms)),
            r.0 == old(self).registry().len() - final(self).registry().len(),
            r.2@.map_values(|d: Delivery| d.client_id) == broadcaster::client_ids(
                final(self).registry(),
            ),
            r.1 == broadcaster::sent_count(r.2@),
    {
        let removed = self.remove_timed_out_clients(now_ms);
        let (pinged, attempts) = self.send_ping_to_all(sequence);
        (removed, pinged, attempts)
    }

    /// Broadcasts `frame` to every client but `origin_id`, dropping those whose
    /// queue was full or closed; see [`broadcaster::broadcast`].
    pub fn broadcast(&mut self, origin_id: u128, frame: Arc<Frame>) -> (r: Vec<Delivery>)
        ensures
            final(self).doc() == old(self).doc(),
            final(self).log() == old(self).log(),
            r@.map_values(|d: Delivery| d.client_id) == broadcaster::client_ids(
                broadcaster::recipients(old(self).registry(), origin_id),
            ),
            forall|k: int| 0 <= k < r@.len() ==> (#[trigger] r@[k]).client_id != origin_id,
            final(self).registry() == broadcaster::survivors(old(self).registry(), r@),
    {
        broadcaster::broadcast(origin_id, frame, &mut self.clients)
    }
}

impl ServerState {
    /// The message names a document, its client identity is a valid UUID, it
    /// carries an edit, and that edit was authored against a version the
    /// server has reached.
    pub open spec fn header_valid(&self, m: OperationProto) -> bool {
        &&& m.doc_id@.len() > 0
        &&& parsed_uuid(m.client_id@) is Some
        &&& m.kind is Some
        &&& m.client_version <= self.doc().version
    }

    /// The edit of `m` rebased past every entry logged since the version it
    /// was authored against.
    pub open spec fn rebased(&self, m: OperationProto) -> Option<OpModel> {
        rebase_model(
            m.kind->Some_0@,
            self.log_models(m.client_version as int, self.doc().version as int),
        )
    }

    /// The apply pipeline. Checks the message, rebases its edit past the
    /// entries the client had not seen, applies it, logs it stamped with the
    /// version it was applied to, and returns the snapshot to broadcast.
    /// An edit that rebases to a noop is absorbed: nothing changes and there
    /// is no snapshot.
    pub fn send_applied_op(&mut self, operation_proto: OperationProto) -> (r: Result<
        Option<SyncDocumentProto>,
        ApplyError,
    >)
        requires
            old(self).wf(),
        ensures
            final(self).wf(),
            final(self).registry() == old(self).registry(),
            final(self).doc().uuid == old(self).doc().uuid,
            operation_proto.doc_id@.len() == 0 ==> r == Err::<Option<SyncDocumentProto>, ApplyError>(
                ApplyError::MissingDocId,
            ),
            operation_proto.doc_id@.len() > 0 && parsed_uuid(operation_proto.client_id@) is None
                ==> r == Err::<Option<SyncDocumentProto>, ApplyError>(ApplyError::InvalidClientId),
            operation_proto.doc_id@.len() > 0 && parsed_uuid(operation_proto.client_id@) is Some
                && operation_proto.kind is None ==> r == Err::<Option<SyncDocumentProto>, ApplyError>(
                ApplyError::MissingKind,
            ),
            operation_proto.doc_id@.len() > 0 && parsed_uuid(operation_proto.client_id@) is Some
                && operation_proto.kind is Some && operation_proto.client_version > old(self).doc().version ==> r == Err::<Option<SyncDocumentProto>, ApplyError>(
                ApplyError::FutureVersion {
                    client_version: operation_proto.client_version,
                    server_version: old(self).doc().version,
                },
            ),
            !(r is Ok && r->Ok_0 is Some) ==> final(self).doc() == old(self).doc(),
            !(r is Ok && r->Ok_0 is Some) ==> final(self).log() == old(self).log(),
            old(self).header_valid(operation_proto) ==> match old(self).rebased(operation_proto) {
                None => r == Err::<Option<SyncDocumentProto>, ApplyError>(
                    ApplyError::IndexOverflow,
                ),
                Some(o) => if o is Noop {
                    r == Ok::<Option<SyncDocumentProto>, ApplyError>(None)
                } else if old(self).doc().version == u64::MAX {
                    r == Err::<Option<SyncDocumentProto>, ApplyError>(
                        ApplyError::VersionExhausted,
                    )
                } else {
                    match apply_model(old(self).doc().content@, o) {
                        None => r is Err && r->Err_0 is Apply,
                        Some(c) => {
                            let n = old(self).log().len();
                            let entry = final(self).log()[n as int];
                            let snap = r->Ok_0->Some_0;
                            &&& r is Ok && r->Ok_0 is Some
                            &&& snap.doc_id@ == operation_proto.doc_id@
                            &&& snap.content@ == c
                            &&& snap.version == old(self).doc().version + 1
                            &&& final(self).doc().content@ == c
                            &&& final(self).doc().version == old(self).doc().version + 1
                            &&& final(self).log().len() == n + 1
                            &&& final(self).log().subrange(0, n as int) == old(self).log()
                            &&& entry.kind@ == o
                            &&& entry.server_version == old(self).doc().version
                            &&& entry.client_id == parsed_uuid(operation_proto.client_id@)->0
                            &&& entry.client_version == operation_proto.client_version
                            &&& entry.op_id == operation_proto.op_id
                            &&& entry.doc_id@ == operation_proto.doc_id@
                        },
                    }
                },
            },
    {
        if operation_proto.doc_id.as_str().is_empty() {
            return Err(ApplyError::MissingDocId);
        }
        let client_id = match parse_uuid(operation_proto.client_id.as_str()) {
            Ok(id) => id,
            Err(_) => {
                return Err(ApplyError::InvalidClientId);
            },
        };
        let op_id = operation_proto.op_id;
        let client_version = operation_proto.client_version;
        let doc_id = operation_proto.doc_id;
        let op = match operation_proto.kind {
            Some(k) => k,
            None => {
                return Err(ApplyError::MissingKind);
            },
        };
        let server_version = self.document.version;
        if client_version > server_version {
            return Err(
                ApplyError::FutureVersion { client_version, server_version },
            );
        }
        let past = self.op_log.get_ops_in_range(client_version, server_version);
        proof {
            self.lemma_log_kinds(client_version as int, server_version as int);
            assert forall|k: int| 0 <= k < past@.len() implies (#[trigger] past@[k])@.well_formed() by {
                assert(models(past@)[k] == past@[k]@);
                assert(self.log_models(client_version as int, server_version as int)[k]
                    == self.log()[client_version + k].kind@);
            }
        }
        let rebased = match rebase(op, &past) {
            Some(o) => o,
            None => {
                return Err(ApplyError::IndexOverflow);
            },
        };
        if rebased.is_noop() {
            return Ok(None);
        }
        if server_version == u64::MAX {
            return Err(ApplyError::VersionExhausted);
        }
        let ghost old_models = self.log_models(0, self.log().len() as int);
        match self.document.apply_op(&rebased) {
            Ok(()) => {},
            Err(e) => {
                return Err(ApplyError::Apply(e));
            },
        }
        let entry = Operation {
            op_id,
            kind: rebased,
            doc_id: copy_string(&doc_id),
            new_content: String::new(),
            client_id,
            client_version,
            server_version,
        };
        self.op_log.append_log(entry);
        proof {
            let new_models = self.log_models(0, self.log().len() as int);
            assert(new_models.drop_last() =~= old_models);
            assert(new_models.last() == entry.kind@);
            assert(self.log().subrange(0, server_version as int) =~= old(self).log());
        }
        let content = copy_string(&self.document.content);
        Ok(Some(SyncDocumentProto { doc_id, content, version: server_version + 1 }))
    }
}

} // verus!
