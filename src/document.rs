//! The authoritative document.

use vstd::prelude::*;
use crate::operation::{apply_model, OperationKind};
use crate::text::{char_len, splice_str};

verus! {

/// Why an operation could not be applied to the document.
#[derive(Debug, PartialEq, Eq, Structural)]
pub enum DocError {
    /// A position lies beyond the end of the content.
    OutOfBounds,
    /// A range ends before it starts.
    InvalidRange,
}

pub struct Document {
    pub uuid: uuid::Uuid,
    pub content: String,
    pub version: u64,
}

impl Document {
    /// An empty document at version 0.
    pub fn new(uuid: uuid::Uuid) -> (r: Document)
        ensures
            r.uuid == uuid,
            r.content@.len() == 0,
            r.version == 0,
    {
        Document { uuid, content: String::new(), version: 0 }
    }

    /// Applies `op` to the content and advances the version by one; a noop
    /// advances the version too. On failure nothing changes.
    pub fn apply_op(&mut self, op: &OperationKind) -> (r: Result<(), DocError>)
        requires
            old(self).version < u64::MAX,
        ensures
            final(self).uuid == old(self).uuid,
            match apply_model(old(self).content@, op@) {
                Some(c) => {
                    &&& r is Ok
                    &&& final(self).content@ == c
                    &&& final(self).version == old(self).version + 1
                },
                None => r is Err,
            },
            r is Err ==> *final(self) == *old(self),
            r == Err::<(), DocError>(DocError::InvalidRange) <==> (op@ is Delete || op@ is Replace)
                && op@.max_index() <= old(self).content@.len() && !op@.well_formed(),
            r == Err::<(), DocError>(DocError::OutOfBounds) <==> op@.max_index()
                > old(self).content@.len(),
    {
        let len = char_len(self.content.as_str());
        let updated = match op {
            OperationKind::Insert(o) => {
                if o.index as usize > len {
                    return Err(DocError::OutOfBounds);
                }
                splice_str(self.content.as_str(), o.index as usize, o.index as usize, o.text.as_str())
            },
            OperationKind::Delete(o) => {
                if o.start as usize > len || o.end as usize > len {
                    return Err(DocError::OutOfBounds);
                }
                if o.start > o.end {
                    return Err(DocError::InvalidRange);
                }
                let empty = "";
                proof {
                    reveal_strlit("");
                }
                assert(empty@ =~= Seq::<char>::empty());
                splice_str(self.content.as_str(), o.start as usize, o.end as usize, empty)
            },
            OperationKind::Replace(o) => {
                if o.start as usize > len || o.end as usize > len {
                    return Err(DocError::OutOfBounds);
                }
                if o.start > o.end {
                    return Err(DocError::InvalidRange);
                }
                splice_str(self.content.as_str(), o.start as usize, o.end as usize, o.text.as_str())
            },
            OperationKind::Noop(_) => {
                self.version = self.version + 1;
                return Ok(());
            },
        };
        self.content = updated;
        self.version = self.version + 1;
        Ok(())
    }
}

} // verus!
