//! What holds of what the hunt sends, reads and tells.

use crate::account::turn_state::{TurnStateConfig, TurnStateInstallation, TurnStateNotification};
use crate::bps::request_laws::parts_are_contained;
use crate::headers::{field_views, sendable};
use crate::json::{json_text, value_in_text, Members, NumberView, Tree};
use crate::probe::notify::{
    duration_text, effort_texts, interval_text, issued_text, notice_text, payload_of, rfc3339_text,
};
use crate::probe::random::{draw_limit, index_of_draw};
use crate::probe::reader::{
    bounded, fitting, read_chunk, read_event, read_events, unread, Reading, ReadingPlan,
    StreamEvent, ANSWER_LIMIT,
};
use crate::probe::request::{
    effort_of, expected_of, is_probe_of, probe_body, probe_headers, prompt_of, shape_of, time_tree,
    turn_metadata, IdsView, ProbeDraw, ProbeRequest,
};
use crate::text::{
    byte_len, byte_len_of_push, char_bytes, contains_text, decimal, lower, optional_text,
    signed_decimal,
};
use vstd::prelude::*;

verus! {

/// A length of time is told in whole hours, minutes and seconds that add up to it.
pub proof fn a_duration_adds_up(hours: nat, minutes: nat, seconds: nat)
    requires
        minutes < 60,
        seconds < 60,
    ensures
        duration_text(3600 * hours + 60 * minutes + seconds) == decimal(hours) + "小时"@ + decimal(
            minutes,
        ) + "分"@ + decimal(seconds) + "秒"@,
{
    let total = 3600 * hours + 60 * minutes + seconds;
    assert(total / 3600 == hours);
    assert(total % 3600 / 60 == minutes);
    assert(total % 60 == seconds);
}

/// The time since the installation before is told, none where the clock went back;
/// a first installation is told as such.
pub proof fn how_the_interval_is_told(installed_at: int, previous: i64)
    ensures
        interval_text(installed_at, None) == "首次安装"@,
        0 <= installed_at - previous <= i64::MAX ==> interval_text(installed_at, Some(previous))
            == duration_text((installed_at - previous) as nat),
        installed_at < previous ==> interval_text(installed_at, Some(previous)) == duration_text(
            0,
        ),
{
}

/// The time that a hunt took and its attempts are told, where they were counted.
pub proof fn how_the_effort_is_told(installation: TurnStateInstallation)
    ensures
        installation.attempts == 0 ==> effort_texts(installation).0 == "历史未记录"@
            && effort_texts(installation).1 == "历史未记录"@,
        installation.attempts > 0 ==> effort_texts(installation).0 == duration_text(
            installation.hunt_seconds as nat,
        ) && effort_texts(installation).1 == decimal(installation.attempts as nat),
{
}

proof fn a_chain_contains(pieces: Seq<Seq<char>>, i: int)
    requires
        0 <= i < pieces.len(),
    ensures
        contains_text(chain(pieces), pieces[i]),
    decreases pieces.len(),
{
    let before = chain(pieces.drop_last());
    if i == pieces.len() - 1 {
        parts_are_contained(before, pieces[i], Seq::empty());
        assert(before + pieces[i] + Seq::<char>::empty() =~= chain(pieces));
    } else {
        a_chain_contains(pieces.drop_last(), i);
        let part = pieces[i];
        let at = choose|at: int|
            0 <= at <= before.len() - part.len() && #[trigger] before.subrange(at, at + part.len())
                == part;
        assert(chain(pieces).subrange(at, at + part.len()) =~= before.subrange(
            at,
            at + part.len(),
        ));
    }
}

/// Texts one after the other.
pub open spec fn chain(pieces: Seq<Seq<char>>) -> Seq<char>
    decreases pieces.len(),
{
    if pieces.len() == 0 {
        Seq::empty()
    } else {
        chain(pieces.drop_last()) + pieces.last()
    }
}

/// The news is made of its lines, each with what it tells: the account by name and
/// id, the model, how and from where the ticket came, the time since the one before,
/// what it took, when it was issued, its length, and the whole ticket.
pub proof fn what_the_news_tells(notice: TurnStateNotification, issued: Seq<char>)
    ensures
        notice_text(notice, issued) == chain(
            seq![
                "state 安装成功\n账号："@,
                notice.account_name@,
                " ("@,
                notice.account_id@,
                ")\n模型："@,
                notice.model@,
                "\n安装方式："@,
                if notice.manual {
                    "手动应用"@
                } else {
                    "自动安装"@
                },
                "\n获取来源："@,
                if notice.installation.source@ == "probe"@ {
                    "主动探测"@
                } else {
                    "被动采集"@
                },
                "\n距上次安装："@,
                interval_text(notice.installation.installed_at as int, notice.previous_installed_at),
                "\n本次获取耗时："@,
                effort_texts(notice.installation).0,
                "\n尝试次数："@,
                effort_texts(notice.installation).1,
                "\n签发时间："@,
                issued,
                "\n长度："@,
                decimal(notice.installation.token_length as nat),
                "\n完整 state：\n"@,
                notice.token.value@,
            ],
        ),
        contains_text(notice_text(notice, issued), notice.account_name@),
        contains_text(notice_text(notice, issued), notice.account_id@),
        contains_text(notice_text(notice, issued), notice.model@),
        contains_text(notice_text(notice, issued), issued),
        contains_text(notice_text(notice, issued), notice.token.value@),
{
    let pieces = seq![
        "state 安装成功\n账号："@,
        notice.account_name@,
        " ("@,
        notice.account_id@,
        ")\n模型："@,
        notice.model@,
        "\n安装方式："@,
        if notice.manual {
            "手动应用"@
        } else {
            "自动安装"@
        },
        "\n获取来源："@,
        if notice.installation.source@ == "probe"@ {
            "主动探测"@
        } else {
            "被动采集"@
        },
        "\n距上次安装："@,
        interval_text(notice.installation.installed_at as int, notice.previous_installed_at),
        "\n本次获取耗时："@,
        effort_texts(notice.installation).0,
        "\n尝试次数："@,
        effort_texts(notice.installation).1,
        "\n签发时间："@,
        issued,
        "\n长度："@,
        decimal(notice.installation.token_length as nat),
        "\n完整 state：\n"@,
        notice.token.value@,
    ];
    assert(chain(pieces) =~= notice_text(notice, issued)) by {
        the_lines_in_a_row(pieces);
    }
    a_chain_contains(pieces, 1);
    a_chain_contains(pieces, 3);
    a_chain_contains(pieces, 5);
    a_chain_contains(pieces, 17);
    a_chain_contains(pieces, 21);
}

proof fn the_lines_in_a_row(p: Seq<Seq<char>>)
    requires
        p.len() == 22,
    ensures
        chain(p) == p[0] + p[1] + p[2] + p[3] + p[4] + p[5] + p[6] + p[7] + p[8] + p[9] + p[10]
            + p[11] + p[12] + p[13] + p[14] + p[15] + p[16] + p[17] + p[18] + p[19] + p[20] + p[21],
{
    assert(chain(p.take(0)) =~= Seq::empty());
    one_more_line(p, 0);
    one_more_line(p, 1);
    one_more_line(p, 2);
    one_more_line(p, 3);
    one_more_line(p, 4);
    one_more_line(p, 5);
    one_more_line(p, 6);
    one_more_line(p, 7);
    one_more_line(p, 8);
    one_more_line(p, 9);
    one_more_line(p, 10);
    one_more_line(p, 11);
    one_more_line(p, 12);
    one_more_line(p, 13);
    one_more_line(p, 14);
    one_more_line(p, 15);
    one_more_line(p, 16);
    one_more_line(p, 17);
    one_more_line(p, 18);
    one_more_line(p, 19);
    one_more_line(p, 20);
    one_more_line(p, 21);
    assert(Seq::<char>::empty() + p[0] =~= p[0]);
    assert(p.take(22) =~= p);
}

proof fn one_more_line(p: Seq<Seq<char>>, n: int)
    requires
        0 <= n < p.len(),
    ensures
        chain(p.take(n + 1)) == chain(p.take(n)) + p[n],
{
    assert(p.take(n + 1).drop_last() =~= p.take(n));
}

/// The news goes out as a text message, with the text under `content`.
pub proof fn how_the_news_is_posted(text: Seq<char>)
    ensures
        payload_of(text).dom() =~= set!["msg_type"@, "content"@],
        payload_of(text)["msg_type"@] == Tree::Text("text"@),
        payload_of(text)["content"@] is Object,
        payload_of(text)["content"@]->Object_0["text"@] == Tree::Text(text),
        payload_of(text)["content"@]->Object_0.dom() =~= set!["text"@],
{
    reveal_strlit("msg_type");
    reveal_strlit("content");
    assert("msg_type"@.len() != "content"@.len());
}

/// A time out of range is told as a number.
pub proof fn how_the_time_of_issue_is_told(issued_at: i64)
    ensures
        rfc3339_text(issued_at) is Some ==> issued_text(issued_at) == rfc3339_text(issued_at)->0,
        rfc3339_text(issued_at) is None ==> issued_text(issued_at) == signed_decimal(
            issued_at as int,
        ),
{
}

/// A draw gives what is left of it after whole rounds, and fewer draws than there
/// are indices are thrown away.
pub proof fn what_a_draw_gives(rounds: int, index: int, count: int)
    requires
        0 <= index < count,
        rounds >= 0,
    ensures
        rounds * count + index < draw_limit(count) ==> index_of_draw(rounds * count + index, count)
            == Some(index),
        rounds * count + index >= draw_limit(count) ==> index_of_draw(
            rounds * count + index,
            count,
        ) is None,
        u64::MAX - draw_limit(count) < count,
        draw_limit(count) <= u64::MAX,
{
    vstd::arithmetic::div_mod::lemma_mod_multiples_vanish(rounds, index, count);
    vstd::arithmetic::mul::lemma_mul_is_commutative(rounds, count);
    vstd::arithmetic::div_mod::lemma_small_mod(index as nat, count as nat);
    vstd::arithmetic::div_mod::lemma_mod_bound(u64::MAX as int, count);
}

proof fn all_of_it_fits(s: Seq<char>, room: int)
    requires
        byte_len(s) <= room,
    ensures
        fitting(s, room) == s.len(),
    decreases s.len(),
{
    if s.len() > 0 {
        bytes_of_the_first(s);
        all_of_it_fits(s.drop_first(), room - char_bytes(s[0]));
    }
}

proof fn bytes_of_the_first(s: Seq<char>)
    requires
        s.len() > 0,
    ensures
        byte_len(s) == char_bytes(s[0]) + byte_len(s.drop_first()),
    decreases s.len(),
{
    if s.len() == 1 {
        byte_len_of_push(Seq::empty(), s[0]);
        assert(Seq::empty().push(s[0]) =~= s);
        assert(s.drop_first() =~= Seq::empty());
    } else {
        bytes_of_the_first(s.drop_last());
        byte_len_of_push(s.drop_last(), s.last());
        byte_len_of_push(s.drop_first().drop_last(), s.last());
        assert(s.drop_last().push(s.last()) =~= s);
        assert(s.drop_first().drop_last().push(s.last()) =~= s.drop_first());
        assert(s.drop_last().drop_first() =~= s.drop_first().drop_last());
    }
}

proof fn the_next_one_does_not_fit(s: Seq<char>, room: int)
    requires
        fitting(s, room) < s.len(),
    ensures
        byte_len(s.take(fitting(s, room) as int)) + char_bytes(s[fitting(s, room) as int]) > room,
    decreases s.len(),
{
    let n = fitting(s, room) as int;
    if n == 0 {
        assert(s.take(0) =~= Seq::empty());
    } else {
        the_next_one_does_not_fit(s.drop_first(), room - char_bytes(s[0]));
        bytes_of_the_first(s.take(n));
        assert(s.take(n).drop_first() =~= s.drop_first().take(n - 1));
    }
}

/// Text is added to an answer whole where the answer stays within its limit; where
/// it does not, as many characters from the start as fit are added.
pub proof fn an_answer_grows_by_what_fits(answer: Seq<char>, delta: Seq<char>)
    ensures
        byte_len(answer) + byte_len(delta) <= 8192 ==> bounded(answer, delta) == answer
            + delta,
        ({
            let kept = bounded(answer, delta).len() - answer.len();
            &&& 0 <= kept <= delta.len()
            &&& bounded(answer, delta) == answer + delta.take(kept)
            &&& kept < delta.len() ==> byte_len(answer) + byte_len(delta.take(kept)) + char_bytes(
                delta[kept],
            ) > 8192
        }),
{
    let room = ANSWER_LIMIT - byte_len(answer);
    the_fitting_part_is_a_part(delta, room);
    if byte_len(delta) <= room {
        all_of_it_fits(delta, room);
        assert(delta.take(delta.len() as int) =~= delta);
    }
    if fitting(delta, room) < delta.len() {
        the_next_one_does_not_fit(delta, room);
    }
}

proof fn the_fitting_part_is_a_part(s: Seq<char>, room: int)
    ensures
        fitting(s, room) <= s.len(),
    decreases s.len(),
{
    if s.len() > 0 && char_bytes(s[0]) <= room {
        the_fitting_part_is_a_part(s.drop_first(), room - char_bytes(s[0]));
    }
}

/// The members of an event that a text holds.
pub open spec fn event_members(event: StreamEvent, members: Members, kind: Seq<char>) -> bool {
    &&& value_in_text(event.data@) == Some(Tree::Object(members))
    &&& members.dom().contains("type"@)
    &&& members["type"@] == Tree::Text(kind)
}

proof fn kinds_of_events_differ()
    ensures
        "response.created"@ != "response.output_text.delta"@,
        "response.completed"@ != "response.created"@,
        "response.failed"@ != "response.created"@,
        "response.incomplete"@ != "response.created"@,
        "error"@ != "response.created"@,
        "response.completed"@ != "response.output_text.delta"@,
        "response.failed"@ != "response.output_text.delta"@,
        "response.incomplete"@ != "response.output_text.delta"@,
        "error"@ != "response.output_text.delta"@,
        "response.completed"@.len() == 18,
        "response.failed"@.len() == 15,
        "response.incomplete"@.len() == 19,
        "error"@.len() == 5,
        "response.refusal.delta"@.len() == 22,
        "response.reasoning_text.delta"@.len() == 29,
        "response.reasoning_summary_text.delta"@.len() == 37,
        "response.audio.delta"@.len() == 20,
        "response.output_audio.delta"@.len() == 27,
        "response.created"@.len() == 16,
        "response.output_text.delta"@.len() == 26,
{
    reveal_strlit("response.created");
    reveal_strlit("response.output_text.delta");
    reveal_strlit("response.completed");
    reveal_strlit("response.failed");
    reveal_strlit("response.incomplete");
    reveal_strlit("error");
    reveal_strlit("response.refusal.delta");
    reveal_strlit("response.reasoning_text.delta");
    reveal_strlit("response.reasoning_summary_text.delta");
    reveal_strlit("response.audio.delta");
    reveal_strlit("response.output_audio.delta");
    assert("response.created"@.len() == 16);
    assert("response.output_text.delta"@.len() == 26);
    assert("response.completed"@.len() == 18);
    assert("response.failed"@.len() == 15);
    assert("response.incomplete"@.len() == 19);
    assert("error"@.len() == 5);
}

/// A piece of the answer's text is added to what was read; reading goes on while an
/// answer is awaited that has not come and fits.
pub proof fn a_piece_of_the_answer_is_added(
    before: Reading,
    event: StreamEvent,
    plan: ReadingPlan,
    members: Members,
    delta: Seq<char>,
)
    requires
        before.reason is None,
        event_members(event, members, "response.output_text.delta"@),
        members.dom().contains("delta"@),
        members["delta"@] == Tree::Text(delta),
        byte_len(before.answer) + byte_len(delta) < 8192,
    ensures
        ({
            let after = read_event(before, event, plan);
            &&& after.answer == before.answer + delta
            &&& after.created_model == before.created_model
            &&& after.received == before.received
            &&& plan.first_output_only || plan.expect is None ==> after.reason == Some(
                "first_output"@,
            )
            &&& !plan.first_output_only && plan.expect is Some && contains_text(
                lower(before.answer + delta),
                lower(plan.expect->0@),
            ) ==> after.reason == Some("answer_matched"@)
            &&& !plan.first_output_only && plan.expect is Some && !contains_text(
                lower(before.answer + delta),
                lower(plan.expect->0@),
            ) ==> after.reason is None
        }),
{
    kinds_of_events_differ();
    an_answer_grows_by_what_fits(before.answer, delta);
    bytes_add_up(before.answer, delta);
}

proof fn bytes_add_up(a: Seq<char>, b: Seq<char>)
    ensures
        byte_len(a + b) == byte_len(a) + byte_len(b),
    decreases b.len(),
{
    if b.len() == 0 {
        assert(a + b =~= a);
        assert(b =~= Seq::empty());
        byte_len_of_nothing();
    } else {
        bytes_add_up(a, b.drop_last());
        assert((a + b.drop_last()).push(b.last()) =~= a + b);
        assert(b.drop_last().push(b.last()) =~= b);
        byte_len_of_push(a + b.drop_last(), b.last());
        byte_len_of_push(b.drop_last(), b.last());
    }
}

proof fn byte_len_of_nothing()
    ensures
        byte_len(Seq::empty()) == 0,
{
    reveal_with_fuel(vstd::utf8::encode_utf8, 1);
}

/// The beginning of an answer names its model. Reading stops there only where the
/// model is all that is wanted.
pub proof fn the_beginning_names_the_model(
    before: Reading,
    event: StreamEvent,
    plan: ReadingPlan,
    members: Members,
    response: Members,
    model: Seq<char>,
)
    requires
        before.reason is None,
        event_members(event, members, "response.created"@),
        members.dom().contains("response"@),
        members["response"@] == Tree::Object(response),
        response.dom().contains("model"@),
        response["model"@] == Tree::Text(model),
        0 < model.len() && byte_len(model) <= 256,
    ensures
        ({
            let after = read_event(before, event, plan);
            &&& after.created_model == Some(model)
            &&& after.answer == before.answer
            &&& plan.stop_at_model && plan.expect is None ==> after.reason == Some(
                "response_created"@,
            )
            &&& !plan.stop_at_model || plan.expect is Some ==> after.reason is None
        }),
{
    kinds_of_events_differ();
}

/// A beginning that names no model, or one of more than 256 bytes, tells no model, and
/// reading goes on.
pub proof fn a_beginning_may_tell_no_model(
    before: Reading,
    event: StreamEvent,
    plan: ReadingPlan,
    members: Members,
    response: Members,
    model: Seq<char>,
)
    requires
        before.reason is None,
        event_members(event, members, "response.created"@),
        members.dom().contains("response"@),
        members["response"@] == Tree::Object(response),
        !response.dom().contains("model"@) || (response["model"@] == Tree::Text(model) && (
        model.len() == 0 || byte_len(model) > 256)),
    ensures
        read_event(before, event, plan).created_model is None,
        read_event(before, event, plan).reason is None,
{
    kinds_of_events_differ();
}

/// The end of an answer ends the reading, whatever is awaited.
pub proof fn the_end_of_an_answer_ends_the_reading(
    before: Reading,
    event: StreamEvent,
    plan: ReadingPlan,
    members: Members,
    kind: Seq<char>,
)
    requires
        before.reason is None,
        event_members(event, members, kind),
        kind == "response.completed"@ || kind == "response.failed"@ || kind
            == "response.incomplete"@ || kind == "error"@,
    ensures
        read_event(before, event, plan).reason == Some("terminal"@),
        read_event(before, event, plan).answer == before.answer,
        read_event(before, event, plan).created_model == before.created_model,
{
    kinds_of_events_differ();
}

/// The first model that the headers of an event name is kept; data that is no JSON
/// changes nothing.
pub proof fn the_first_header_model_is_kept(before: Reading, event: StreamEvent, plan: ReadingPlan)
    ensures
        before.reason is None && value_in_text(event.data@) is Some ==> read_event(
            before,
            event,
            plan,
        ).header_model == (match before.header_model {
            Some(model) => Some(model),
            None => optional_text(event.header_model),
        }),
        value_in_text(event.data@) is None ==> read_event(before, event, plan) == before,
        before.reason is Some ==> read_event(before, event, plan) == before,
{
}

/// A stream is read in chunks and counted by their lengths; one that gets longer
/// than a megabyte is read no further.
pub proof fn a_stream_is_read_up_to_its_limit(
    before: Reading,
    length: int,
    events: Seq<StreamEvent>,
    plan: ReadingPlan,
)
    requires
        before.reason is None,
        0 <= before.received,
        0 <= length,
    ensures
        before.received + length <= 1_048_576 ==> read_chunk(before, length, events, plan)
            == read_events(
            Reading { received: before.received + length, ..before },
            events,
            plan,
        ),
        before.received + length > 1_048_576 ==> read_chunk(before, length, events, plan).reason
            == Some("body_limit"@) && read_chunk(before, length, events, plan).answer
            == before.answer,
        unread().received == 0 && unread().answer.len() == 0 && unread().reason is None
            && unread().created_model is None && unread().header_model is None,
{
}

/// Events are read one after the other.
pub proof fn events_are_read_in_order(
    before: Reading,
    events: Seq<StreamEvent>,
    event: StreamEvent,
    plan: ReadingPlan,
)
    ensures
        read_events(before, Seq::empty(), plan) == before,
        read_events(before, events.push(event), plan) == read_event(
            read_events(before, events, plan),
            event,
            plan,
        ),
{
    assert(events.push(event).drop_last() =~= events);
}

/// Each question has its own name, its own words and its own answer.
pub proof fn questions_and_their_answers()
    ensures
        shape_of(0) == "x_handle"@ && expected_of(0) == "@thsottiaux"@,
        shape_of(1) == "japan_pm"@ && expected_of(1) == "高市早苗"@,
        prompt_of(0)
            == "Don't search the internet. Who is Thibault Sottiaux on X? Your answer must include the @ handle."@,
        prompt_of(1) == "不要搜索，只凭记忆，告诉我日本首相是谁。"@,
        effort_of(0) == "medium"@ && effort_of(1) == "high"@ && effort_of(2) == "xhigh"@,
{
}

proof fn members_of_a_probe_differ()
    ensures
        "model"@.len() == 5,
        "stream"@.len() == 6,
        "store"@.len() == 5,
        "store"@[0] == 's',
        "model"@[0] == 'm',
        "tools"@.len() == 5,
        "tools"@[0] == 't',
        "input"@.len() == 5,
        "input"@[0] == 'i',
        "parallel_tool_calls"@.len() == 19,
        "reasoning"@.len() == 9,
        "include"@.len() == 7,
        "prompt_cache_key"@.len() == 16,
        "client_metadata"@.len() == 15,
{
    reveal_strlit("model");
    reveal_strlit("stream");
    reveal_strlit("store");
    reveal_strlit("tools");
    reveal_strlit("input");
    reveal_strlit("parallel_tool_calls");
    reveal_strlit("reasoning");
    reveal_strlit("include");
    reveal_strlit("prompt_cache_key");
    reveal_strlit("client_metadata");
    assert("model"@.len() == 5 && "model"@[0] == 'm');
    assert("stream"@.len() == 6);
    assert("store"@.len() == 5 && "store"@[0] == 's');
    assert("tools"@.len() == 5 && "tools"@[0] == 't');
    assert("input"@.len() == 5 && "input"@[0] == 'i');
    assert("parallel_tool_calls"@.len() == 19);
    assert("reasoning"@.len() == 9);
    assert("include"@.len() == 7);
    assert("prompt_cache_key"@.len() == 16);
    assert("client_metadata"@.len() == 15);
}

/// The text of the only part of a user's message.
pub open spec fn says(message: Tree, text: Seq<char>) -> bool {
    &&& message is Object
    &&& message->Object_0["role"@] == Tree::Text("user"@)
    &&& message->Object_0["content"@] is Array
    &&& message->Object_0["content"@]->Array_0.len() == 1
    &&& message->Object_0["content"@]->Array_0[0] is Object
    &&& message->Object_0["content"@]->Array_0[0]->Object_0["type"@] == Tree::Text("input_text"@)
    &&& message->Object_0["content"@]->Array_0[0]->Object_0["text"@] == Tree::Text(text)
}

/// A probe asks the model for a stream and stores nothing, names the effort that was
/// drawn, offers no tools, and goes by its session.
pub proof fn what_a_probe_asks_for(
    model: Seq<char>,
    zone: Seq<char>,
    draw: ProbeDraw,
    now_ms: i64,
    date: Seq<char>,
)
    ensures
        ({
            let body = probe_body(model, zone, draw, now_ms, date);
            &&& body["model"@] == Tree::Text(model)
            &&& body["stream"@] == Tree::Bool(true)
            &&& body["store"@] == Tree::Bool(false)
            &&& body["tools"@] is Array && body["tools"@]->Array_0.len() == 0
            &&& body["parallel_tool_calls"@] == Tree::Bool(true)
            &&& body["prompt_cache_key"@] == Tree::Text(draw.ids.session@)
            &&& body["reasoning"@] is Object
            &&& body["reasoning"@]->Object_0["effort"@] == Tree::Text(
                if draw.effort == 0 {
                    "medium"@
                } else if draw.effort == 1 {
                    "high"@
                } else {
                    "xhigh"@
                },
            )
            &&& body["reasoning"@]->Object_0["summary"@] == Tree::Text("auto"@)
            &&& body["include"@] is Array && body["include"@]->Array_0.len() == 1
            &&& body["include"@]->Array_0[0] == Tree::Text("reasoning.encrypted_content"@)
        }),
{
    members_of_a_probe_differ();
    reveal_strlit("effort");
    reveal_strlit("summary");
    assert("effort"@.len() == 6 && "summary"@.len() == 7);
}

/// A probe says two things: where and when it is asked, and then the question, with
/// the number that was drawn before it.
pub proof fn what_a_probe_says(
    model: Seq<char>,
    zone: Seq<char>,
    draw: ProbeDraw,
    now_ms: i64,
    date: Seq<char>,
)
    ensures
        ({
            let said = probe_body(model, zone, draw, now_ms, date)["input"@];
            &&& said is Array && said->Array_0.len() == 2
            &&& says(
                said->Array_0[0],
                "<environment_context>\n  <cwd>/workspace</cwd>\n  <shell>bash</shell>\n  <current_date>"@
                    + date + "</current_date>\n  <timezone>"@ + zone
                    + "</timezone>\n</environment_context>"@,
            )
            &&& draw.question == 0 ==> says(
                said->Array_0[1],
                decimal(draw.nonce as nat) + ": "@
                    + "Don't search the internet. Who is Thibault Sottiaux on X? Your answer must include the @ handle."@,
            )
            &&& draw.question == 1 ==> says(
                said->Array_0[1],
                decimal(draw.nonce as nat) + ": "@
                    + "不要搜索，只凭记忆，告诉我日本首相是谁。"@,
            )
        }),
{
    members_of_a_probe_differ();
    reveal_strlit("role");
    reveal_strlit("content");
    reveal_strlit("type");
    reveal_strlit("text");
    assert("role"@.len() == 4 && "content"@.len() == 7);
    assert("type"@.len() == 4 && "text"@.len() == 4);
    assert("type"@[1] == 'y' && "text"@[1] == 'e');
}

proof fn ids_of_a_probe_differ()
    ensures
        "session_id"@.len() == 10 && "session_id"@[7] == '_',
        "session-id"@.len() == 10 && "session-id"@[7] == '-',
        "thread_id"@.len() == 9 && "thread_id"@[6] == '_',
        "thread-id"@.len() == 9 && "thread-id"@[6] == '-',
        "window_id"@.len() == 9 && "window_id"@[6] == '_' && "window_id"@[0] == 'w',
        "thread_id"@[0] == 't' && "thread-id"@[0] == 't',
        "turn_id"@.len() == 7,
        "root_turn_id"@.len() == 12,
        "context_window_id"@.len() == 17 && "context_window_id"@[0] == 'c',
        "x-codex-window-id"@.len() == 17 && "x-codex-window-id"@[0] == 'x',
        "x-client-request-id"@.len() == 19,
        "x-codex-turn-metadata"@.len() == 21,
        "turn_started_at_unix_ms"@.len() == 23,
{
    reveal_strlit("session_id");
    reveal_strlit("session-id");
    reveal_strlit("thread_id");
    reveal_strlit("thread-id");
    reveal_strlit("window_id");
    reveal_strlit("turn_id");
    reveal_strlit("root_turn_id");
    reveal_strlit("context_window_id");
    reveal_strlit("x-codex-window-id");
    reveal_strlit("x-client-request-id");
    reveal_strlit("x-codex-turn-metadata");
    reveal_strlit("turn_started_at_unix_ms");
    assert("session_id"@.len() == 10 && "session_id"@[7] == '_');
    assert("session-id"@.len() == 10 && "session-id"@[7] == '-');
    assert("thread_id"@.len() == 9 && "thread_id"@[6] == '_' && "thread_id"@[0] == 't');
    assert("thread-id"@.len() == 9 && "thread-id"@[6] == '-' && "thread-id"@[0] == 't');
    assert("window_id"@.len() == 9 && "window_id"@[6] == '_' && "window_id"@[0] == 'w');
    assert("turn_id"@.len() == 7);
    assert("root_turn_id"@.len() == 12);
    assert("context_window_id"@.len() == 17 && "context_window_id"@[0] == 'c');
    assert("x-codex-window-id"@.len() == 17 && "x-codex-window-id"@[0] == 'x');
    assert("x-client-request-id"@.len() == 19);
    assert("x-codex-turn-metadata"@.len() == 21);
    assert("turn_started_at_unix_ms"@.len() == 23);
}

/// What a probe says of its turn is one JSON object with its ids and its time.
pub proof fn what_a_probe_says_of_its_turn(ids: IdsView, now_ms: i64) -> (told: Members)
    ensures
        turn_metadata(ids, now_ms) == json_text(Tree::Object(told)),
        told["session_id"@] == Tree::Text(ids.session),
        told["thread_id"@] == Tree::Text(ids.thread),
        told["window_id"@] == Tree::Text(ids.window),
        told["turn_id"@] == Tree::Text(ids.turn),
        told["root_turn_id"@] == Tree::Text(ids.turn),
        told["context_window_id"@] == Tree::Text(ids.context),
        now_ms >= 0 ==> told["turn_started_at_unix_ms"@] == Tree::Number(
            NumberView::Unsigned(now_ms as nat),
        ),
        now_ms < 0 ==> told["turn_started_at_unix_ms"@] == Tree::Number(
            NumberView::Negative(now_ms as int),
        ),
{
    ids_of_a_probe_differ();
    map![
        "session_id"@ => Tree::Text(ids.session),
        "thread_id"@ => Tree::Text(ids.thread),
        "window_id"@ => Tree::Text(ids.window),
        "turn_id"@ => Tree::Text(ids.turn),
        "root_turn_id"@ => Tree::Text(ids.turn),
        "context_window_id"@ => Tree::Text(ids.context),
        "turn_started_at_unix_ms"@ => time_tree(now_ms),
    ]
}

/// The body of a probe carries the same ids as its headers.
pub proof fn the_body_of_a_probe_carries_its_ids(
    model: Seq<char>,
    zone: Seq<char>,
    draw: ProbeDraw,
    now_ms: i64,
    date: Seq<char>,
)
    ensures
        ({
            let carried = probe_body(model, zone, draw, now_ms, date)["client_metadata"@];
            &&& carried is Object
            &&& carried->Object_0["session_id"@] == Tree::Text(draw.ids.session@)
            &&& carried->Object_0["session-id"@] == Tree::Text(draw.ids.session@)
            &&& carried->Object_0["thread_id"@] == Tree::Text(draw.ids.thread@)
            &&& carried->Object_0["thread-id"@] == Tree::Text(draw.ids.thread@)
            &&& carried->Object_0["turn_id"@] == Tree::Text(draw.ids.turn@)
            &&& carried->Object_0["root_turn_id"@] == Tree::Text(draw.ids.turn@)
            &&& carried->Object_0["window_id"@] == Tree::Text(draw.ids.window@)
            &&& carried->Object_0["x-codex-window-id"@] == Tree::Text(draw.ids.window@)
            &&& carried->Object_0["context_window_id"@] == Tree::Text(draw.ids.context@)
            &&& carried->Object_0["x-client-request-id"@] == Tree::Text(draw.ids.id@)
            &&& carried->Object_0["x-codex-turn-metadata"@] == Tree::Text(
                turn_metadata(draw.ids@, now_ms),
            )
        }),
{
    members_of_a_probe_differ();
    ids_of_a_probe_differ();
}

/// The headers of a probe: its ids, its turn, and the client that it speaks for;
/// those of them that can be sent.
pub proof fn the_headers_of_a_probe(
    ids: IdsView,
    config: TurnStateConfig,
    user_agent: Seq<char>,
    now_ms: i64,
) -> (fields: Seq<(Seq<char>, Seq<char>)>)
    ensures
        probe_headers(ids, config, user_agent, now_ms) == sendable(fields),
        fields.contains(("session-id"@, ids.session)),
        fields.contains(("thread-id"@, ids.thread)),
        fields.contains(("x-client-request-id"@, ids.id)),
        fields.contains(("x-codex-window-id"@, ids.window)),
        fields.contains(("x-codex-turn-metadata"@, turn_metadata(ids, now_ms))),
        fields.contains(("originator"@, config.originator@)),
        fields.contains(("version"@, config.client_version@)),
        fields.contains(("user-agent"@, user_agent)),
        fields.contains(("accept"@, "text/event-stream"@)),
        fields.contains(("content-type"@, "application/json"@)),
        fields.len() == 10,
{
    let fields = seq![
        ("session-id"@, ids.session),
        ("thread-id"@, ids.thread),
        ("x-client-request-id"@, ids.id),
        ("x-codex-window-id"@, ids.window),
        ("x-codex-turn-metadata"@, turn_metadata(ids, now_ms)),
        ("originator"@, config.originator@),
        ("version"@, config.client_version@),
        ("user-agent"@, user_agent),
        ("accept"@, "text/event-stream"@),
        ("content-type"@, "application/json"@),
    ];
    assert(fields[0].1 == ids.session);
    assert(fields[1].1 == ids.thread);
    assert(fields[2].1 == ids.id);
    assert(fields[3].1 == ids.window);
    assert(fields[4].1 == turn_metadata(ids, now_ms));
    assert(fields[5].1 == config.originator@);
    assert(fields[6].1 == config.client_version@);
    assert(fields[7].1 == user_agent);
    assert(fields[8].0 == "accept"@);
    assert(fields[9].0 == "content-type"@);
    fields
}

/// A probe carries the ids that were drawn, and its question, its answer and its
/// effort are those that were drawn.
pub proof fn a_probe_is_made_of_its_draws(
    request: ProbeRequest,
    model: Seq<char>,
    config: TurnStateConfig,
    user_agent: Seq<char>,
    draw: ProbeDraw,
    now_ms: i64,
    date: Seq<char>,
)
    requires
        is_probe_of(request, model, config, user_agent, draw, now_ms, date),
    ensures
        request.id@ == draw.ids.id@,
        draw.question == 0 ==> request.shape@ == "x_handle"@ && request.expect@ == "@thsottiaux"@,
        draw.question == 1 ==> request.shape@ == "japan_pm"@ && request.expect@ == "高市早苗"@,
        draw.effort == 0 ==> request.effort@ == "medium"@,
        draw.effort == 1 ==> request.effort@ == "high"@,
        draw.effort == 2 ==> request.effort@ == "xhigh"@,
        request.body@["model"@] == Tree::Text(model),
        request.body@["prompt_cache_key"@] == Tree::Text(draw.ids.session@),
        field_views(request.headers@) == probe_headers(draw.ids@, config, user_agent, now_ms),
        says(
            request.body@["input"@]->Array_0[0],
            "<environment_context>\n  <cwd>/workspace</cwd>\n  <shell>bash</shell>\n  <current_date>"@
                + date + "</current_date>\n  <timezone>"@ + config.timezone.zone()
                + "</timezone>\n</environment_context>"@,
        ),
{
    what_a_probe_asks_for(model, config.timezone.zone(), draw, now_ms, date);
    what_a_probe_says(model, config.timezone.zone(), draw, now_ms, date);
}

} // verus!
