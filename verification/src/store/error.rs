//! What a change to the stored state can fail with.

use vstd::prelude::*;

verus! {

#[derive(Debug, Clone, Copy, PartialEq, Eq, Structural)]
pub enum AdminStoreErrorKind {
    NotFound,
    Conflict,
    Invalid,
    Unavailable,
}

#[derive(Debug)]
pub struct AdminStoreError {
    pub kind: AdminStoreErrorKind,
    pub message: String,
}

impl AdminStoreError {
    pub open spec fn is(self, kind: AdminStoreErrorKind, message: Seq<char>) -> bool {
        self.kind == kind && self.message@ == message
    }

    pub fn new(kind: AdminStoreErrorKind, message: &str) -> (r: AdminStoreError)
        ensures
            r.is(kind, message@),
    {
        AdminStoreError { kind, message: message.to_owned() }
    }
}

} // verus!
