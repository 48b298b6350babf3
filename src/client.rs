//! What a client keeps of the shared document.

use vstd::prelude::*;
use crate::operation::{copy_string, OpModel, OperationKind, ReplaceOp};
use crate::protocol::{OperationProto, SyncDocumentProto};
use crate::text::char_len;

verus! {

pub struct ClientState {
    pub client_id: String,
    pub doc_id: String,
    pub version: u64,
    pub buffer: String,
}

impl ClientState {
    /// A client that has not seen the document yet.
    pub fn new(client_id: String) -> (r: ClientState)
        ensures
            r.client_id == client_id,
            r.doc_id@.len() == 0,
            r.version == 0,
            r.buffer@.len() == 0,
    {
        ClientState { client_id, doc_id: String::new(), version: 0, buffer: String::new() }
    }

    /// Takes `sync` if it is the first snapshot seen or newer than the last
    /// one taken, and ignores it otherwise. Returns whether it was taken.
    pub fn apply_sync(&mut self, sync: SyncDocumentProto) -> (r: bool)
        ensures
            r == (old(self).doc_id@.len() == 0 || sync.version > old(self).version),
            r ==> final(self).doc_id == sync.doc_id && final(self).buffer == sync.content
                && final(self).version == sync.version && final(self).client_id == old(
                self,
            ).client_id,
            !r ==> *final(self) == *old(self),
    {
        if self.doc_id.as_str().is_empty() || sync.version > self.version {
            self.doc_id = sync.doc_id;
            self.buffer = sync.content;
            self.version = sync.version;
            true
        } else {
            false
        }
    }

    /// An edit that replaces the whole buffer with `text`, authored against
    /// the last version taken.
    pub fn full_replace(&self, text: String, op_id: u64) -> (r: OperationProto)
        requires
            self.buffer@.len() <= u32::MAX,
        ensures
            r.op_id == op_id,
            r.doc_id@ == self.doc_id@,
            r.client_id@ == self.client_id@,
            r.client_version == self.version,
            r.server_version == 0,
            r.new_content@ == text@,
            r.kind is Some,
            r.kind->Some_0@ == (OpModel::Replace {
                start: 0,
                end: self.buffer@.len() as int,
                text: text@,
                client_id: self.client_id@,
                client_version: self.version,
            }),
    {
        let end = char_len(self.buffer.as_str()) as u32;
        let kind = OperationKind::Replace(
            ReplaceOp {
                start: 0,
                end,
                text: copy_string(&text),
                client_id: copy_string(&self.client_id),
                client_version: self.version,
            },
        );
        OperationProto {
            op_id,
            kind: Some(kind),
            doc_id: copy_string(&self.doc_id),
            client_id: copy_string(&self.client_id),
            client_version: self.version,
            server_version: 0,
            new_content: text,
        }
    }
}

} // verus!
