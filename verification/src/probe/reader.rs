//! Reading the answer to a probe, as far as it is needed.

use crate::account::turn_state::TurnStateConfig;
use crate::json::{
    exact_text_member, object_member, parse_json, value_in_text, Json, Tree,
};
use crate::text::{
    byte_len, byte_len_of_push, byte_length, char_bytes, char_width, chars_of, clone_optional,
    contains_text, has_text, lower, lowered, optional_text, same_text,
};
use vstd::prelude::*;
use vstd::string::*;
use vstd::utf8::*;

verus! {

/// How many bytes of the model's answer are kept.
pub const ANSWER_LIMIT: usize = 8192;

/// How many bytes of a stream are read.
pub const STREAM_LIMIT: usize = 1_048_576;

/// How many characters from the start fit into so many bytes.
pub open spec fn fitting(s: Seq<char>, room: int) -> nat
    decreases s.len(),
{
    if s.len() == 0 || char_bytes(s[0]) > room {
        0
    } else {
        1 + fitting(s.drop_first(), room - char_bytes(s[0]))
    }
}

/// The answer with as much more of it as fits.
pub open spec fn bounded(answer: Seq<char>, delta: Seq<char>) -> Seq<char> {
    answer + delta.take(fitting(delta, ANSWER_LIMIT - byte_len(answer)) as int)
}

proof fn fitting_is_inside(s: Seq<char>, room: int)
    ensures
        fitting(s, room) <= s.len(),
    decreases s.len(),
{
    if s.len() > 0 && char_bytes(s[0]) <= room {
        fitting_is_inside(s.drop_first(), room - char_bytes(s[0]));
    }
}

/// Adds to the answer whole characters, as long as it stays within its limit.
pub fn push_bounded(answer: &mut String, delta: &str)
    ensures
        final(answer)@ == bounded(old(answer)@, delta@),
{
    let ghost start = answer@;
    let used: usize = byte_length(answer.as_str());
    let mut room: usize = if used < ANSWER_LIMIT {
        ANSWER_LIMIT - used
    } else {
        0
    };
    let ghost whole: int = ANSWER_LIMIT - byte_len(start);
    proof {
        if used >= ANSWER_LIMIT && delta@.len() > 0 {
            let first = delta@[0];
            char_is_scalar(first);
            assert(char_bytes(first) >= 1);
            assert(fitting(delta@, whole) == 0);
            assert(fitting(delta@, 0) == 0);
        }
        assert(fitting(delta@, whole) == fitting(delta@, room as int));
        assert(delta@.skip(0) =~= delta@);
        assert(start + delta@.take(0) =~= start);
    }
    let chars = chars_of(delta);
    let total: usize = chars.len();
    let mut i: usize = 0;
    while i < total
        invariant
            i <= total,
            total == chars@.len(),
            chars@ == delta@,
            answer@ == start + delta@.take(i as int),
            fitting(delta@, whole) == i + fitting(delta@.skip(i as int), room as int),
        ensures
            fitting(delta@, whole) <= total,
            answer@ == start + delta@.take(fitting(delta@, whole) as int),
        decreases total - i,
    {
        proof {
            assert(delta@.skip(i as int).drop_first() =~= delta@.skip(i + 1));
            assert(delta@.skip(i as int)[0] == chars@[i as int]);
        }
        let width: usize = char_width(chars[i]);
        if width > room {
            break;
        }
        answer.push(chars[i]);
        proof {
            assert(start + delta@.take(i + 1) =~= (start + delta@.take(i as int)).push(
                chars@[i as int],
            ));
        }
        room -= width;
        i += 1;
    }
}

proof fn kept_part_fits(answer: Seq<char>, delta: Seq<char>, n: int, room: int)
    requires
        0 <= n <= fitting(delta, room),
        room >= 0,
    ensures
        n <= delta.len(),
        byte_len(answer + delta.take(n)) <= byte_len(answer) + room,
    decreases delta.len(),
{
    fitting_is_inside(delta, room);
    if n == 0 {
        assert(answer + delta.take(0) =~= answer);
    } else {
        let c = delta[0];
        kept_part_fits(answer.push(c), delta.drop_first(), n - 1, room - char_bytes(c));
        byte_len_of_push(answer, c);
        assert(answer.push(c) + delta.drop_first().take(n - 1) =~= answer + delta.take(n));
    }
}

/// What is kept of an answer stays within the limit, however much is added.
pub proof fn a_kept_answer_stays_within_the_limit(answer: Seq<char>, delta: Seq<char>)
    requires
        byte_len(answer) <= ANSWER_LIMIT,
    ensures
        byte_len(bounded(answer, delta)) <= ANSWER_LIMIT,
{
    let room = ANSWER_LIMIT - byte_len(answer);
    kept_part_fits(answer, delta, fitting(delta, room) as int, room);
}

/// The answer holds the expected text, up to the case of ASCII letters.
pub open spec fn mentions(answer: Seq<char>, expected: Seq<char>) -> bool {
    contains_text(lower(answer), lower(expected))
}

pub fn contains_ignore_ascii_case(answer: &str, expected: &str) -> (r: bool)
    ensures
        r == mentions(answer@, expected@),
{
    has_text(lowered(answer).as_str(), lowered(expected).as_str())
}

/// When to stop reading: where the upstream names its model, at the first piece
/// of output, or where the answer holds what is expected.
pub struct ReadingPlan {
    pub stop_at_model: bool,
    pub first_output_only: bool,
    pub expect: Option<String>,
}

impl ReadingPlan {
    /// The answer is read on until it holds what is expected.
    pub open spec fn awaits_answer(self) -> bool {
        self.expect is Some && !self.first_output_only
    }
}

/// How the answer to a probe is read. A probe for a ticket stops at the first
/// output; one for a cookie reads on until the answer holds what is expected.
pub fn reading_plan(config: &TurnStateConfig, expect: &str) -> (r: ReadingPlan)
    ensures
        r.stop_at_model == config.cookie_lock_enabled,
        r.first_output_only == !config.cookie_lock_enabled,
        optional_text(r.expect) == Some(expect@),
{
    ReadingPlan {
        stop_at_model: config.cookie_lock_enabled,
        first_output_only: !config.cookie_lock_enabled,
        expect: Some(expect.to_owned()),
    }
}

/// One event of the stream: its data, and the model that the headers in it name.
pub struct StreamEvent {
    pub data: String,
    pub header_model: Option<String>,
}

/// What was read so far, and why reading stopped, if it did.
pub struct Reading {
    pub received: int,
    pub header_model: Option<Seq<char>>,
    pub created_model: Option<Seq<char>>,
    pub answer: Seq<char>,
    pub reason: Option<Seq<char>>,
}

/// The type of an event, if it has one.
pub open spec fn event_kind(value: Tree) -> Option<Seq<char>> {
    match value {
        Tree::Object(object) => exact_text_member(object, "type"@),
        _ => None,
    }
}

/// The model that an answer names when it begins.
pub open spec fn created_model_in(value: Tree) -> Option<Seq<char>> {
    match value {
        Tree::Object(object) => match object_member(object, "response"@) {
            Some(response) => match exact_text_member(response, "model"@) {
                Some(model) if 0 < model.len() && byte_len(model) <= 256 => Some(model),
                _ => None,
            },
            None => None,
        },
        _ => None,
    }
}

pub open spec fn delta_in(value: Tree) -> Option<Seq<char>> {
    match value {
        Tree::Object(object) => exact_text_member(object, "delta"@),
        _ => None,
    }
}

/// Output other than the text of the answer.
pub open spec fn is_side_output(kind: Seq<char>) -> bool {
    ||| kind == "response.refusal.delta"@
    ||| kind == "response.reasoning_text.delta"@
    ||| kind == "response.reasoning_summary_text.delta"@
    ||| kind == "response.audio.delta"@
    ||| kind == "response.output_audio.delta"@
}

pub open spec fn is_end(kind: Seq<char>) -> bool {
    ||| kind == "response.completed"@
    ||| kind == "response.failed"@
    ||| kind == "response.incomplete"@
    ||| kind == "error"@
}

pub open spec fn reason_for_text(answer: Seq<char>, plan: ReadingPlan) -> Option<Seq<char>> {
    if plan.awaits_answer() {
        if mentions(answer, plan.expect->0@) {
            Some("answer_matched"@)
        } else if byte_len(answer) >= ANSWER_LIMIT {
            Some("answer_limit"@)
        } else {
            None
        }
    } else {
        Some("first_output"@)
    }
}

pub open spec fn read_value(
    state: Reading,
    value: Tree,
    header_model: Option<Seq<char>>,
    plan: ReadingPlan,
) -> Reading {
    let kind = event_kind(value);
    let seen = Reading {
        header_model: if state.header_model is None {
            header_model
        } else {
            state.header_model
        },
        ..state
    };
    match kind {
        None => seen,
        Some(kind) => if kind == "response.created"@ {
            let model = created_model_in(value);
            Reading {
                created_model: model,
                reason: if plan.stop_at_model && plan.expect is None && model is Some {
                    Some("response_created"@)
                } else {
                    None
                },
                ..seen
            }
        } else if kind == "response.output_text.delta"@ {
            let answer = match delta_in(value) {
                Some(delta) => bounded(seen.answer, delta),
                None => seen.answer,
            };
            Reading { answer, reason: reason_for_text(answer, plan), ..seen }
        } else if is_side_output(kind) {
            Reading {
                reason: if plan.awaits_answer() {
                    None
                } else {
                    Some("first_output"@)
                },
                ..seen
            }
        } else if is_end(kind) {
            Reading { reason: Some("terminal"@), ..seen }
        } else {
            seen
        },
    }
}

/// One event: once reading has stopped, nothing changes any more.
pub open spec fn read_event(state: Reading, event: StreamEvent, plan: ReadingPlan) -> Reading {
    if state.reason is Some {
        state
    } else {
        match value_in_text(event.data@) {
            Some(value) => read_value(state, value, optional_text(event.header_model), plan),
            None => state,
        }
    }
}

pub open spec fn read_events(state: Reading, events: Seq<StreamEvent>, plan: ReadingPlan) -> Reading
    decreases events.len(),
{
    if events.len() == 0 {
        state
    } else {
        read_event(read_events(state, events.drop_last(), plan), events.last(), plan)
    }
}

pub open spec fn counted(received: int, length: int) -> int {
    if received + length > usize::MAX {
        usize::MAX as int
    } else {
        received + length
    }
}

/// One chunk of the stream, by its length and the events that it completes.
pub open spec fn read_chunk(
    state: Reading,
    length: int,
    events: Seq<StreamEvent>,
    plan: ReadingPlan,
) -> Reading {
    if state.reason is Some {
        state
    } else {
        let received = counted(state.received, length);
        if received > STREAM_LIMIT {
            Reading { received, reason: Some("body_limit"@), ..state }
        } else {
            read_events(Reading { received, ..state }, events, plan)
        }
    }
}

pub open spec fn unread() -> Reading {
    Reading {
        received: 0,
        header_model: None,
        created_model: None,
        answer: Seq::empty(),
        reason: None,
    }
}

/// The reader of one stream.
pub struct OutputReader {
    plan: ReadingPlan,
    received: usize,
    header_model: Option<String>,
    created_model: Option<String>,
    answer: String,
    reason: Option<&'static str>,
}

/// What reading came to.
pub struct ProbeOutput {
    pub reason: String,
    pub reported_model: Option<String>,
    pub created_model: Option<String>,
    pub answer: Option<String>,
    pub answer_match: Option<bool>,
}

fn kind_of(value: &Json) -> (r: Option<String>)
    ensures
        optional_text(r) == event_kind(value@),
{
    match value.as_object() {
        Some(object) => object.exact_text_at("type"),
        None => None,
    }
}

fn created_model_of(value: &Json) -> (r: Option<String>)
    ensures
        optional_text(r) == created_model_in(value@),
{
    let object = match value.as_object() {
        Some(object) => object,
        None => {
            return None;
        },
    };
    let response = match object.object_at("response") {
        Some(response) => response,
        None => {
            return None;
        },
    };
    match response.exact_text_at("model") {
        Some(model) => if !model.as_str().is_empty() && byte_length(model.as_str()) <= 256 {
            Some(model)
        } else {
            None
        },
        None => None,
    }
}

fn is_side_output_kind(kind: &str) -> (r: bool)
    ensures
        r == is_side_output(kind@),
{
    same_text(kind, "response.refusal.delta") || same_text(kind, "response.reasoning_text.delta")
        || same_text(kind, "response.reasoning_summary_text.delta") || same_text(
        kind,
        "response.audio.delta",
    ) || same_text(kind, "response.output_audio.delta")
}

fn is_end_kind(kind: &str) -> (r: bool)
    ensures
        r == is_end(kind@),
{
    same_text(kind, "response.completed") || same_text(kind, "response.failed") || same_text(
        kind,
        "response.incomplete",
    ) || same_text(kind, "error")
}

impl View for OutputReader {
    type V = Reading;

    closed spec fn view(&self) -> Reading {
        Reading {
            received: self.received as int,
            header_model: optional_text(self.header_model),
            created_model: optional_text(self.created_model),
            answer: self.answer@,
            reason: match self.reason {
                Some(reason) => Some(reason@),
                None => None,
            },
        }
    }
}

impl OutputReader {
    pub closed spec fn reading_plan(self) -> ReadingPlan {
        self.plan
    }

    pub fn new(plan: ReadingPlan) -> (r: OutputReader)
        ensures
            r@ == unread(),
            r.reading_plan() == plan,
    {
        let r = OutputReader {
            plan,
            received: 0,
            header_model: None,
            created_model: None,
            answer: String::new(),
            reason: None,
        };
        assert(r@.answer =~= Seq::empty());
        r
    }

    pub fn has_stopped(&self) -> (r: bool)
        ensures
            r == (self@.reason is Some),
    {
        self.reason.is_some()
    }

    fn awaits_answer(&self) -> (r: bool)
        ensures
            r == self.plan.awaits_answer(),
    {
        self.plan.expect.is_some() && !self.plan.first_output_only
    }

    fn text_reason(&self) -> (r: Option<&'static str>)
        ensures
            match r {
                Some(reason) => reason_for_text(self@.answer, self.plan) == Some(reason@),
                None => reason_for_text(self@.answer, self.plan) is None,
            },
    {
        if self.plan.first_output_only {
            return Some("first_output");
        }
        match &self.plan.expect {
            Some(expected) => if contains_ignore_ascii_case(
                self.answer.as_str(),
                expected.as_str(),
            ) {
                Some("answer_matched")
            } else if byte_length(self.answer.as_str()) >= ANSWER_LIMIT {
                Some("answer_limit")
            } else {
                None
            },
            None => Some("first_output"),
        }
    }

    /// Reads one event.
    pub fn read_event(&mut self, event: &StreamEvent)
        ensures
            final(self)@ == read_event(old(self)@, *event, old(self).reading_plan()),
            final(self).reading_plan() == old(self).reading_plan(),
    {
        if self.reason.is_some() {
            return ;
        }
        let value = match parse_json(event.data.as_str()) {
            Some(value) => value,
            None => {
                return ;
            },
        };
        if self.header_model.is_none() {
            self.header_model = clone_optional(&event.header_model);
        }
        let kind = match kind_of(&value) {
            Some(kind) => kind,
            None => {
                return ;
            },
        };
        let kind = kind.as_str();
        if same_text(kind, "response.created") {
            self.created_model = created_model_of(&value);
            if self.plan.stop_at_model && self.plan.expect.is_none()
                && self.created_model.is_some() {
                self.reason = Some("response_created");
            }
            return ;
        }
        if same_text(kind, "response.output_text.delta") {
            let delta = match value.as_object() {
                Some(object) => object.exact_text_at("delta"),
                None => None,
            };
            if let Some(delta) = delta {
                push_bounded(&mut self.answer, delta.as_str());
            }
            self.reason = self.text_reason();
            return ;
        }
        if is_side_output_kind(kind) {
            if !self.awaits_answer() {
                self.reason = Some("first_output");
            }
            return ;
        }
        if is_end_kind(kind) {
            self.reason = Some("terminal");
        }
    }

    /// Reads one chunk of the stream.
    pub fn read_chunk(&mut self, length: usize, events: &Vec<StreamEvent>)
        ensures
            final(self)@ == read_chunk(old(self)@, length as int, events@, old(self).reading_plan()),
            final(self).reading_plan() == old(self).reading_plan(),
    {
        if self.reason.is_some() {
            return ;
        }
        self.received = self.received.saturating_add(length);
        if self.received > STREAM_LIMIT {
            self.reason = Some("body_limit");
            return ;
        }
        let ghost start = self@;
        let ghost plan = self.plan;
        let mut i: usize = 0;
        proof {
            assert(events@.take(0) =~= Seq::empty());
        }
        while i < events.len()
            invariant
                i <= events@.len(),
                self@ == read_events(start, events@.take(i as int), plan),
                self.plan == plan,
            decreases events@.len() - i,
        {
            proof {
                assert(events@.take(i + 1).drop_last() =~= events@.take(i as int));
                assert(events@.take(i + 1).last() == events@[i as int]);
            }
            self.read_event(&events[i]);
            i += 1;
        }
        proof {
            assert(events@.take(events@.len() as int) =~= events@);
        }
    }

    /// What reading came to. `ending` is the reason where the stream itself ended
    /// the reading, `body_model` the model that the bodies of the events name.
    pub fn finish(self, ending: &str, body_model: Option<String>) -> (r: ProbeOutput)
        ensures
            r.reason@ == (match self@.reason {
                Some(reason) => reason,
                None => ending@,
            }),
            optional_text(r.created_model) == self@.created_model,
            optional_text(r.reported_model) == (if self@.header_model is Some {
                self@.header_model
            } else {
                optional_text(body_model)
            }),
            optional_text(r.answer) == (if self@.answer.len() > 0 {
                Some(self@.answer)
            } else {
                None
            }),
            r.answer_match == (match self.reading_plan().expect {
                Some(expected) => Some(mentions(self@.answer, expected@)),
                None => None,
            }),
    {
        let answer_match = match &self.plan.expect {
            Some(expected) => Some(
                contains_ignore_ascii_case(self.answer.as_str(), expected.as_str()),
            ),
            None => None,
        };
        let reason = match self.reason {
            Some(reason) => reason.to_owned(),
            None => ending.to_owned(),
        };
        let reported_model = match self.header_model {
            Some(model) => Some(model),
            None => body_model,
        };
        let answer = if self.answer.as_str().is_empty() {
            None
        } else {
            Some(self.answer)
        };
        ProbeOutput { reason, reported_model, created_model: self.created_model, answer, answer_match }
    }
}

/// Once reading has stopped, the rest of the stream does not matter.
pub proof fn a_stopped_reading_stays_as_it_is(
    state: Reading,
    events: Seq<StreamEvent>,
    plan: ReadingPlan,
)
    requires
        state.reason is Some,
    ensures
        read_events(state, events, plan) == state,
    decreases events.len(),
{
    if events.len() > 0 {
        a_stopped_reading_stays_as_it_is(state, events.drop_last(), plan);
    }
}

/// A reading that awaits no answer stops at the first piece of output, and says so.
pub proof fn the_first_output_ends_the_reading(
    state: Reading,
    event: StreamEvent,
    plan: ReadingPlan,
)
    requires
        !plan.awaits_answer(),
        state.reason is None,
        value_in_text(event.data@) is Some,
        ({
            let kind = event_kind(value_in_text(event.data@)->0);
            kind is Some && (kind->0 == "response.output_text.delta"@ || is_side_output(kind->0))
        }),
    ensures
        read_event(state, event, plan).reason == Some("first_output"@),
{
    let kind = event_kind(value_in_text(event.data@)->0)->0;
    reveal_strlit("response.created");
    reveal_strlit("response.output_text.delta");
    reveal_strlit("response.refusal.delta");
    reveal_strlit("response.reasoning_text.delta");
    reveal_strlit("response.reasoning_summary_text.delta");
    reveal_strlit("response.audio.delta");
    reveal_strlit("response.output_audio.delta");
    assert("response.created"@.len() == 16);
    assert(kind.len() > 16);
}

/// A chunk of a stream: its length and the events that it completes.
pub type Chunk = (int, Seq<StreamEvent>);

/// What is read of a stream from its beginning.
pub open spec fn read_stream(chunks: Seq<Chunk>, plan: ReadingPlan) -> Reading
    decreases chunks.len(),
{
    if chunks.len() == 0 {
        unread()
    } else {
        read_chunk(
            read_stream(chunks.drop_last(), plan),
            chunks.last().0,
            chunks.last().1,
            plan,
        )
    }
}

/// The answer holds what is expected exactly when that is why reading stopped.
pub open spec fn match_is_the_reason(state: Reading, plan: ReadingPlan) -> bool {
    mentions(state.answer, plan.expect->0@) == (state.reason == Some("answer_matched"@))
}

proof fn an_event_keeps_the_reason(state: Reading, event: StreamEvent, plan: ReadingPlan)
    requires
        plan.awaits_answer(),
        match_is_the_reason(state, plan),
    ensures
        match_is_the_reason(read_event(state, event, plan), plan),
{
    reveal_strlit("answer_matched");
    reveal_strlit("answer_limit");
    reveal_strlit("response_created");
    reveal_strlit("terminal");
    assert("answer_matched"@.len() == 14);
    assert("answer_limit"@.len() == 12);
    assert("response_created"@.len() == 16);
    assert("terminal"@.len() == 8);
}

proof fn events_keep_the_reason(state: Reading, events: Seq<StreamEvent>, plan: ReadingPlan)
    requires
        plan.awaits_answer(),
        match_is_the_reason(state, plan),
    ensures
        match_is_the_reason(read_events(state, events, plan), plan),
    decreases events.len(),
{
    if events.len() > 0 {
        events_keep_the_reason(state, events.drop_last(), plan);
        an_event_keeps_the_reason(
            read_events(state, events.drop_last(), plan),
            events.last(),
            plan,
        );
    }
}

/// A reading that awaits its answer finds it exactly when it stops for that
/// reason, whatever the stream brings. An empty answer to await is found at once.
pub proof fn an_awaited_answer_is_the_reason_to_stop(chunks: Seq<Chunk>, plan: ReadingPlan)
    requires
        plan.awaits_answer(),
        plan.expect->0@.len() > 0,
    ensures
        mentions(read_stream(chunks, plan).answer, plan.expect->0@) == (read_stream(
            chunks,
            plan,
        ).reason == Some("answer_matched"@)),
    decreases chunks.len(),
{
    if chunks.len() == 0 {
        assert(lower(Seq::<char>::empty()).len() == 0);
        assert(lower(plan.expect->0@).len() > 0);
    } else {
        let before = read_stream(chunks.drop_last(), plan);
        an_awaited_answer_is_the_reason_to_stop(chunks.drop_last(), plan);
        assert(match_is_the_reason(before, plan));
        reveal_strlit("answer_matched");
        reveal_strlit("body_limit");
        assert("answer_matched"@.len() != "body_limit"@.len());
        let received = counted(before.received, chunks.last().0);
        events_keep_the_reason(Reading { received, ..before }, chunks.last().1, plan);
    }
}

} // verus!
