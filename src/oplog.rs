//! The append-only history of applied operations.

use vstd::prelude::*;
use crate::operation::OperationKind;
use crate::protocol::OperationProto;
use crate::transform::models;

verus! {

/// An applied operation, stamped with the document version it was applied to.
#[derive(Clone, Debug)]
pub struct Operation {
    pub op_id: u64,
    pub kind: OperationKind,
    pub doc_id: String,
    pub new_content: String,
    pub client_id: u128,
    pub client_version: u64,
    pub server_version: u64,
}

impl Operation {
    /// The edit that a client message carries, if it carries one.
    pub fn convert_operation(proto_op: OperationProto) -> (r: Option<OperationKind>)
        ensures
            r == proto_op.kind,
    {
        proto_op.kind
    }
}

/// Entries in the order they were applied.
pub struct OperationLog {
    logs: Vec<Operation>,
}

impl View for OperationLog {
    type V = Seq<Operation>;

    closed spec fn view(&self) -> Seq<Operation> {
        self.logs@
    }
}

impl OperationLog {
    /// The edits of the entries `[lo, hi)`.
    pub open spec fn kinds(self, lo: int, hi: int) -> Seq<OperationKind> {
        self@.subrange(lo, hi).map_values(|e: Operation| e.kind)
    }

    pub fn new() -> (r: OperationLog)
        ensures
            r@ == Seq::<Operation>::empty(),
    {
        OperationLog { logs: Vec::new() }
    }

    /// Records `op` after every earlier entry.
    pub fn append_log(&mut self, op: Operation)
        ensures
            final(self)@ == old(self)@.push(op),
    {
        self.logs.push(op);
    }

    pub fn len(&self) -> (r: usize)
        ensures
            r == self@.len(),
    {
        self.logs.len()
    }

    /// The edits of the entries `[lo, hi)`, oldest first.
    pub fn get_ops_in_range(&self, lo: u64, hi: u64) -> (r: Vec<OperationKind>)
        requires
            lo <= hi <= self@.len(),
        ensures
            models(r@) == models(self.kinds(lo as int, hi as int)),
    {
        let mut out: Vec<OperationKind> = Vec::new();
        let len = self.logs.len();
        assert(lo as usize == lo && hi as usize == hi && hi <= len);
        let mut k = lo as usize;
        while k < hi as usize
            invariant
                lo <= k <= hi <= self@.len(),
                out@.len() == k - lo,
                forall|j: int| 0 <= j < out@.len() ==> (#[trigger] out@[j])@ == self@[lo + j].kind@,
            decreases hi - k,
        {
            out.push(self.logs[k].kind.duplicate());
            k = k + 1;
        }
        assert(models(out@) =~= models(self.kinds(lo as int, hi as int)));
        out
    }
}

} // verus!
