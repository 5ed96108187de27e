//! The native calls that the proxy has passed on, kept so that the next turn can
//! replay them under their own identity.

use crate::json::{optional_members, text_member, JsonObject, Members};
use crate::text::same_text;
use vstd::prelude::*;

verus! {

/// How many native calls are kept.
pub const NATIVE_CALL_CACHE_CAP: usize = 512;

pub struct NativeCall {
    id: String,
    item: JsonObject,
}

/// Native calls by their ids, the oldest first.
pub struct NativeCallCache {
    calls: Vec<NativeCall>,
}

/// The kept calls, the oldest first: an id and the call's item.
pub type CallLog = Seq<(Seq<char>, Members)>;

impl View for NativeCall {
    type V = (Seq<char>, Members);

    closed spec fn view(&self) -> (Seq<char>, Members) {
        (self.id@, self.item@)
    }
}

impl View for NativeCallCache {
    type V = CallLog;

    closed spec fn view(&self) -> CallLog {
        self.calls@.map_values(|call: NativeCall| call@)
    }
}

/// No id occurs twice, none is empty, and there are not too many.
pub open spec fn log_is_valid(log: CallLog) -> bool {
    &&& log.len() <= NATIVE_CALL_CACHE_CAP
    &&& forall|i: int| 0 <= i < log.len() ==> (#[trigger] log[i]).0.len() > 0
    &&& forall|i: int, j: int|
        0 <= i < j < log.len() ==> (#[trigger] log[i]).0 != (#[trigger] log[j]).0
}

pub open spec fn is_remembered(log: CallLog, id: Seq<char>) -> bool {
    exists|i: int| 0 <= i < log.len() && (#[trigger] log[i]).0 == id
}

/// The item kept under an id.
pub open spec fn recall(log: CallLog, id: Seq<char>) -> Option<Members> {
    if is_remembered(log, id) {
        let i = choose|i: int| 0 <= i < log.len() && (#[trigger] log[i]).0 == id;
        Some(log[i].1)
    } else {
        None
    }
}

/// The log after a call: a call without an id is not kept, a known id keeps its
/// place, a new one goes to the end, and the oldest leaves when there are too many.
pub open spec fn remember(log: CallLog, item: Members) -> CallLog {
    let id = text_member(item, "call_id"@);
    if id.len() == 0 {
        log
    } else if is_remembered(log, id) {
        log.map_values(
            |call: (Seq<char>, Members)|
                if call.0 == id {
                    (id, item)
                } else {
                    call
                },
        )
    } else if log.len() < NATIVE_CALL_CACHE_CAP {
        log.push((id, item))
    } else {
        log.push((id, item)).drop_first()
    }
}

impl NativeCallCache {
    #[verifier::type_invariant]
    spec fn is_valid(self) -> bool {
        log_is_valid(self@)
    }

    pub fn new() -> (r: NativeCallCache)
        ensures
            r@ == Seq::<(Seq<char>, Members)>::empty(),
            log_is_valid(r@),
    {
        let r = NativeCallCache { calls: Vec::new() };
        assert(r@ =~= Seq::empty());
        r
    }

    fn position(&self, call_id: &str) -> (r: Option<usize>)
        ensures
            match r {
                Some(i) => i < self@.len() && self@[i as int].0 == call_id@,
                None => !is_remembered(self@, call_id@),
            },
    {
        let mut i: usize = 0;
        while i < self.calls.len()
            invariant
                i <= self.calls@.len(),
                forall|j: int| 0 <= j < i ==> (#[trigger] self@[j]).0 != call_id@,
            decreases self.calls@.len() - i,
        {
            assert(self@[i as int] == self.calls@[i as int]@);
            if same_text(self.calls[i].id.as_str(), call_id) {
                return Some(i);
            }
            i += 1;
        }
        None
    }

    pub fn remember_native_call(&mut self, item: &JsonObject)
        ensures
            final(self)@ == remember(old(self)@, item@),
            log_is_valid(final(self)@),
    {
        proof {
            use_type_invariant(&*self);
        }
        let ghost before = self@;
        let call_id = item.text_at("call_id");
        if call_id.as_str().is_empty() {
            return ;
        }
        let ghost id = call_id@;
        let place = self.position(call_id.as_str());
        let call = NativeCall { id: call_id, item: item.copy() };
        let ghost added = call@;
        let mut calls: Vec<NativeCall> = Vec::new();
        std::mem::swap(&mut calls, &mut self.calls);
        proof {
            remembering_keeps_the_log_valid(before, item@);
        }
        match place {
            Some(i) => {
                calls.set(i, call);
                proof {
                    assert(calls@.map_values(|call: NativeCall| call@) =~= remember(before, item@));
                }
            },
            None => {
                if calls.len() >= NATIVE_CALL_CACHE_CAP {
                    calls.remove(0);
                }
                calls.push(call);
                proof {
                    assert(calls@.map_values(|call: NativeCall| call@) =~= remember(before, item@));
                }
            },
        }
        self.calls = calls;
    }

    pub fn remembered_native_call(&self, call_id: &str) -> (r: Option<JsonObject>)
        ensures
            optional_members(r) == recall(self@, call_id@),
    {
        proof {
            use_type_invariant(self);
        }
        match self.position(call_id) {
            Some(i) => {
                assert(self@[i as int] == self.calls@[i as int]@);
                Some(self.calls[i].item.copy())
            },
            None => None,
        }
    }
}

/// Keeping a call keeps the log valid: at most so many calls, each id once.
pub proof fn remembering_keeps_the_log_valid(log: CallLog, item: Members)
    requires
        log_is_valid(log),
    ensures
        log_is_valid(remember(log, item)),
{
    let id = text_member(item, "call_id"@);
    let after = remember(log, item);
    if id.len() > 0 && is_remembered(log, id) {
        assert forall|i: int, j: int| 0 <= i < j < after.len() implies (#[trigger] after[i]).0 != (
        #[trigger] after[j]).0 by {
            assert(log[i].0 != log[j].0);
        }
        assert forall|i: int| 0 <= i < after.len() implies (#[trigger] after[i]).0.len() > 0 by {
            assert(log[i].0.len() > 0);
        }
    } else if id.len() > 0 {
        let shift = after.len() - log.len() - 1;
        assert forall|i: int| 0 <= i < after.len() - 1 implies #[trigger] after[i] == log[i
            - shift] by {}
        assert(after.last() == (id, item));
        assert forall|i: int, j: int| 0 <= i < j < after.len() implies (#[trigger] after[i]).0 != (
        #[trigger] after[j]).0 by {
            if j < after.len() - 1 {
                assert(log[i - shift].0 != log[j - shift].0);
            } else {
                assert(log[i - shift].0 != id);
            }
        }
    }
}

/// A call that was kept is found again by its id.
pub proof fn a_remembered_call_is_recalled(log: CallLog, item: Members)
    requires
        log_is_valid(log),
        text_member(item, "call_id"@).len() > 0,
    ensures
        recall(remember(log, item), text_member(item, "call_id"@)) == Some(item),
{
    let id = text_member(item, "call_id"@);
    let after = remember(log, item);
    remembering_keeps_the_log_valid(log, item);
    if is_remembered(log, id) {
        let i = choose|i: int| 0 <= i < log.len() && (#[trigger] log[i]).0 == id;
        assert(after[i] == (id, item));
    } else {
        assert(after.last() == (id, item));
    }
    let j = choose|j: int| 0 <= j < after.len() && (#[trigger] after[j]).0 == id;
    assert(after[j] == (id, item));
}

/// Keeping a call leaves the others as they were, but for the oldest of a full log.
pub proof fn remembering_keeps_the_other_calls(log: CallLog, item: Members, id: Seq<char>)
    requires
        log_is_valid(log),
        id != text_member(item, "call_id"@),
        log.len() == NATIVE_CALL_CACHE_CAP ==> log[0].0 != id,
    ensures
        recall(remember(log, item), id) == recall(log, id),
{
    let after = remember(log, item);
    remembering_keeps_the_log_valid(log, item);
    if is_remembered(log, id) {
        let i = choose|i: int| 0 <= i < log.len() && (#[trigger] log[i]).0 == id;
        let shift = if after.len() < log.len() + 1 && !is_remembered(
            log,
            text_member(item, "call_id"@),
        ) && text_member(item, "call_id"@).len() > 0 {
            1int
        } else {
            0
        };
        assert(after[i - shift] == log[i]);
        let j = choose|j: int| 0 <= j < after.len() && (#[trigger] after[j]).0 == id;
        assert(j == i - shift);
    } else if is_remembered(after, id) {
        let j = choose|j: int| 0 <= j < after.len() && (#[trigger] after[j]).0 == id;
        if text_member(item, "call_id"@).len() > 0 && !is_remembered(
            log,
            text_member(item, "call_id"@),
        ) && log.len() == NATIVE_CALL_CACHE_CAP {
            assert(after[j] == log[j + 1]);
        } else {
            assert(log[j].0 == id);
        }
    }
}

/// When the log is full, a new id drives out the oldest call.
pub proof fn the_oldest_call_leaves_first(log: CallLog, item: Members)
    requires
        log_is_valid(log),
        log.len() == NATIVE_CALL_CACHE_CAP,
        text_member(item, "call_id"@).len() > 0,
        !is_remembered(log, text_member(item, "call_id"@)),
    ensures
        recall(remember(log, item), log[0].0) is None,
{
    let after = remember(log, item);
    if is_remembered(after, log[0].0) {
        let j = choose|j: int| 0 <= j < after.len() && (#[trigger] after[j]).0 == log[0].0;
        if j < after.len() - 1 {
            assert(after[j] == log[j + 1]);
        }
        assert(log[0].0 != text_member(item, "call_id"@));
    }
}

} // verus!
