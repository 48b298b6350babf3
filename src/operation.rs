//! Edit operations and their mathematical model.

use vstd::prelude::*;
use crate::text::{char_len, splice};

verus! {

/// Insert `text` at character position `index`.
#[derive(Clone, Debug)]
pub struct InsertOp {
    pub index: u32,
    pub text: String,
    pub client_id: String,
    pub client_version: u64,
}

/// Delete the half-open character range `[start, end)`.
#[derive(Clone, Debug)]
pub struct DeleteOp {
    pub start: u32,
    pub end: u32,
    pub client_id: String,
    pub client_version: u64,
}

/// Replace the half-open character range `[start, end)` with `text`.
#[derive(Clone, Debug)]
pub struct ReplaceOp {
    pub start: u32,
    pub end: u32,
    pub text: String,
    pub client_id: String,
    pub client_version: u64,
}

/// An operation without effect.
#[derive(Clone, Debug)]
pub struct NoopOp {
    pub client_id: String,
    pub client_version: u64,
}

#[derive(Clone, Debug)]
pub enum OperationKind {
    Insert(InsertOp),
    Delete(DeleteOp),
    Replace(ReplaceOp),
    Noop(NoopOp),
}

/// What an operation means: positions as integers, strings as character sequences.
pub ghost enum OpModel {
    Insert { index: int, text: Seq<char>, client_id: Seq<char>, client_version: u64 },
    Delete { start: int, end: int, client_id: Seq<char>, client_version: u64 },
    Replace {
        start: int,
        end: int,
        text: Seq<char>,
        client_id: Seq<char>,
        client_version: u64,
    },
    Noop { client_id: Seq<char>, client_version: u64 },
}

impl View for OperationKind {
    type V = OpModel;

    open spec fn view(&self) -> OpModel {
        match self {
            OperationKind::Insert(o) => OpModel::Insert {
                index: o.index as int,
                text: o.text@,
                client_id: o.client_id@,
                client_version: o.client_version,
            },
            OperationKind::Delete(o) => OpModel::Delete {
                start: o.start as int,
                end: o.end as int,
                client_id: o.client_id@,
                client_version: o.client_version,
            },
            OperationKind::Replace(o) => OpModel::Replace {
                start: o.start as int,
                end: o.end as int,
                text: o.text@,
                client_id: o.client_id@,
                client_version: o.client_version,
            },
            OperationKind::Noop(o) => OpModel::Noop {
                client_id: o.client_id@,
                client_version: o.client_version,
            },
        }
    }
}

impl OpModel {
    /// The identity of the client that authored the operation.
    pub open spec fn client_id(self) -> Seq<char> {
        match self {
            OpModel::Insert { client_id, .. } => client_id,
            OpModel::Delete { client_id, .. } => client_id,
            OpModel::Replace { client_id, .. } => client_id,
            OpModel::Noop { client_id, .. } => client_id,
        }
    }

    /// The document version the operation was authored against.
    pub open spec fn client_version(self) -> u64 {
        match self {
            OpModel::Insert { client_version, .. } => client_version,
            OpModel::Delete { client_version, .. } => client_version,
            OpModel::Replace { client_version, .. } => client_version,
            OpModel::Noop { client_version, .. } => client_version,
        }
    }

    /// Ranges are ordered: `start <= end`.
    pub open spec fn well_formed(self) -> bool {
        match self {
            OpModel::Delete { start, end, .. } => start <= end,
            OpModel::Replace { start, end, .. } => start <= end,
            _ => true,
        }
    }

    /// The largest position the operation names.
    pub open spec fn max_index(self) -> int {
        match self {
            OpModel::Insert { index, .. } => index,
            OpModel::Delete { start, end, .. } => if start <= end {
                end
            } else {
                start
            },
            OpModel::Replace { start, end, .. } => if start <= end {
                end
            } else {
                start
            },
            OpModel::Noop { .. } => 0,
        }
    }

    /// How many characters the operation inserts.
    pub open spec fn inserted_len(self) -> int {
        match self {
            OpModel::Insert { text, .. } => text.len() as int,
            OpModel::Replace { text, .. } => text.len() as int,
            _ => 0,
        }
    }

    /// The smallest position the operation names.
    pub open spec fn min_index(self) -> int {
        match self {
            OpModel::Insert { index, .. } => index,
            OpModel::Delete { start, .. } => start,
            OpModel::Replace { start, .. } => start,
            OpModel::Noop { .. } => 0,
        }
    }

    /// Every position lies within the document `d` and ranges are ordered.
    pub open spec fn fits(self, d: Seq<char>) -> bool {
        self.well_formed() && 0 <= self.min_index() && self.max_index() <= d.len()
    }

    /// The noop that carries this operation's identity.
    pub open spec fn to_noop(self) -> OpModel {
        OpModel::Noop { client_id: self.client_id(), client_version: self.client_version() }
    }
}

/// The document after `op` is applied to `d`, or `None` where a position
/// falls outside `d` or a range is reversed.
pub open spec fn apply_model(d: Seq<char>, op: OpModel) -> Option<Seq<char>> {
    match op {
        OpModel::Insert { index, text, .. } => if 0 <= index <= d.len() {
            Some(splice(d, index, index, text))
        } else {
            None
        },
        OpModel::Delete { start, end, .. } => if 0 <= start <= end <= d.len() {
            Some(splice(d, start, end, Seq::empty()))
        } else {
            None
        },
        OpModel::Replace { start, end, text, .. } => if 0 <= start <= end <= d.len() {
            Some(splice(d, start, end, text))
        } else {
            None
        },
        OpModel::Noop { .. } => Some(d),
    }
}

/// A copy of `s`.
pub fn copy_string(s: &String) -> (r: String)
    ensures
        r@ == s@,
{
    s.clone()
}

impl OperationKind {
    /// A copy of this operation.
    pub fn duplicate(&self) -> (r: OperationKind)
        ensures
            r@ == self@,
    {
        match self {
            OperationKind::Insert(o) => OperationKind::Insert(InsertOp {
                index: o.index,
                text: copy_string(&o.text),
                client_id: copy_string(&o.client_id),
                client_version: o.client_version,
            }),
            OperationKind::Delete(o) => OperationKind::Delete(DeleteOp {
                start: o.start,
                end: o.end,
                client_id: copy_string(&o.client_id),
                client_version: o.client_version,
            }),
            OperationKind::Replace(o) => OperationKind::Replace(ReplaceOp {
                start: o.start,
                end: o.end,
                text: copy_string(&o.text),
                client_id: copy_string(&o.client_id),
                client_version: o.client_version,
            }),
            OperationKind::Noop(o) => OperationKind::Noop(NoopOp {
                client_id: copy_string(&o.client_id),
                client_version: o.client_version,
            }),
        }
    }

    /// The largest position the operation names.
    pub fn max_index(&self) -> (r: u32)
        ensures
            r == self@.max_index(),
    {
        match self {
            OperationKind::Insert(o) => o.index,
            OperationKind::Delete(o) => if o.start <= o.end {
                o.end
            } else {
                o.start
            },
            OperationKind::Replace(o) => if o.start <= o.end {
                o.end
            } else {
                o.start
            },
            OperationKind::Noop(_) => 0,
        }
    }

    /// How many characters the operation inserts.
    pub fn inserted_len(&self) -> (r: usize)
        ensures
            r == self@.inserted_len(),
    {
        match self {
            OperationKind::Insert(o) => char_len(o.text.as_str()),
            OperationKind::Replace(o) => char_len(o.text.as_str()),
            _ => 0,
        }
    }

    /// Whether this operation is a noop.
    pub fn is_noop(&self) -> (r: bool)
        ensures
            r == (self@ is Noop),
    {
        matches!(self, OperationKind::Noop(_))
    }
}

} // verus!
