//! The request of a probe.

use crate::account::turn_state::TurnStateConfig;
use crate::headers::{field, field_views, sendable, sendable_fields, HeaderField};
use crate::json::{
    array_view, json_text, render_object, trees, Json, JsonNumber, JsonObject, Members,
    NumberView, Tree,
};
use crate::probe::random::{is_time_ordered_id, random_index, time_ordered_id};
use crate::text::{decimal, decimal_text, glue3, optional_text};
use vstd::prelude::*;
use vstd::string::*;
use vstd::utf8::*;

verus! {

/// A question for the model: a name, the question, and what the answer must hold.
pub struct Question {
    pub shape: &'static str,
    pub prompt: &'static str,
    pub expect: &'static str,
}

pub const QUESTION_COUNT: usize = 2;

pub open spec fn shape_of(question: int) -> Seq<char> {
    if question == 0 {
        "x_handle"@
    } else {
        "japan_pm"@
    }
}

pub open spec fn prompt_of(question: int) -> Seq<char> {
    if question == 0 {
        "Don't search the internet. Who is Thibault Sottiaux on X? Your answer must include the @ handle."@
    } else {
        "不要搜索，只凭记忆，告诉我日本首相是谁。"@
    }
}

pub open spec fn expected_of(question: int) -> Seq<char> {
    if question == 0 {
        "@thsottiaux"@
    } else {
        "高市早苗"@
    }
}

/// The questions need nothing but what the model knows by itself.
pub fn question(index: usize) -> (r: Question)
    requires
        index < QUESTION_COUNT,
    ensures
        r.shape@ == shape_of(index as int),
        r.prompt@ == prompt_of(index as int),
        r.expect@ == expected_of(index as int),
{
    if index == 0 {
        Question {
            shape: "x_handle",
            prompt:
                "Don't search the internet. Who is Thibault Sottiaux on X? Your answer must include the @ handle.",
            expect: "@thsottiaux",
        }
    } else {
        Question {
            shape: "japan_pm",
            prompt: "不要搜索，只凭记忆，告诉我日本首相是谁。",
            expect: "高市早苗",
        }
    }
}

pub const EFFORT_COUNT: usize = 3;

pub open spec fn effort_of(index: int) -> Seq<char> {
    if index == 0 {
        "medium"@
    } else if index == 1 {
        "high"@
    } else {
        "xhigh"@
    }
}

pub fn effort_name(index: usize) -> (r: &'static str)
    requires
        index < EFFORT_COUNT,
    ensures
        r@ == effort_of(index as int),
{
    if index == 0 {
        "medium"
    } else if index == 1 {
        "high"
    } else {
        "xhigh"
    }
}

/// How many numbers a probe draws the one before its question from.
pub const NONCE_RANGE: usize = 1_000_000_000;

/// The ids that a probe goes by.
pub struct ProbeIds {
    pub session: String,
    pub thread: String,
    pub id: String,
    pub window: String,
    pub turn: String,
    pub context: String,
}

pub struct IdsView {
    pub session: Seq<char>,
    pub thread: Seq<char>,
    pub id: Seq<char>,
    pub window: Seq<char>,
    pub turn: Seq<char>,
    pub context: Seq<char>,
}

impl IdsView {
    pub open spec fn are_time_ordered(self) -> bool {
        &&& is_time_ordered_id(self.session)
        &&& is_time_ordered_id(self.thread)
        &&& is_time_ordered_id(self.id)
        &&& is_time_ordered_id(self.window)
        &&& is_time_ordered_id(self.turn)
        &&& is_time_ordered_id(self.context)
    }
}

impl View for ProbeIds {
    type V = IdsView;

    open spec fn view(&self) -> IdsView {
        IdsView {
            session: self.session@,
            thread: self.thread@,
            id: self.id@,
            window: self.window@,
            turn: self.turn@,
            context: self.context@,
        }
    }
}

/// What a probe is made of by chance: its ids and its draws.
pub struct ProbeDraw {
    pub ids: ProbeIds,
    pub question: usize,
    pub effort: usize,
    pub nonce: usize,
}

impl ProbeDraw {
    pub open spec fn in_range(self) -> bool {
        self.question < QUESTION_COUNT && self.effort < EFFORT_COUNT && self.nonce < NONCE_RANGE
    }
}

/// Milliseconds as JSON gives them.
pub open spec fn time_tree(millis: i64) -> Tree {
    Tree::Number(
        if millis < 0 {
            NumberView::Negative(millis as int)
        } else {
            NumberView::Unsigned(millis as nat)
        },
    )
}

pub open spec fn turn_metadata(ids: IdsView, now_ms: i64) -> Seq<char> {
    json_text(
        Tree::Object(
            map![
                "session_id"@ => Tree::Text(ids.session),
                "thread_id"@ => Tree::Text(ids.thread),
                "window_id"@ => Tree::Text(ids.window),
                "turn_id"@ => Tree::Text(ids.turn),
                "root_turn_id"@ => Tree::Text(ids.turn),
                "context_window_id"@ => Tree::Text(ids.context),
                "turn_started_at_unix_ms"@ => time_tree(now_ms),
            ],
        ),
    )
}

pub open spec fn probe_headers(
    ids: IdsView,
    config: TurnStateConfig,
    user_agent: Seq<char>,
    now_ms: i64,
) -> Seq<(Seq<char>, Seq<char>)> {
    sendable(
        seq![
            ("session-id"@, ids.session),
            ("thread-id"@, ids.thread),
            ("x-client-request-id"@, ids.id),
            ("x-codex-window-id"@, ids.window),
            ("x-codex-turn-metadata"@, turn_metadata(ids, now_ms)),
            ("originator"@, config.originator@),
            ("version"@, config.client_version@),
            ("user-agent"@, user_agent),
            ("accept"@, "text/event-stream"@),
            ("content-type"@, "application/json"@),
        ],
    )
}

/// The place and time that the model is told.
pub open spec fn environment_text(date: Seq<char>, zone: Seq<char>) -> Seq<char> {
    "<environment_context>\n  <cwd>/workspace</cwd>\n  <shell>bash</shell>\n  <current_date>"@ + date
        + "</current_date>\n  <timezone>"@ + zone + "</timezone>\n</environment_context>"@
}

pub open spec fn user_text(text: Seq<char>) -> Tree {
    Tree::Object(
        map![
            "role"@ => Tree::Text("user"@),
            "content"@ => Tree::Array(
                seq![
                    Tree::Object(
                        map![
                            "type"@ => Tree::Text("input_text"@),
                            "text"@ => Tree::Text(text),
                        ],
                    ),
                ],
            ),
        ],
    )
}

pub open spec fn probe_client_metadata(ids: IdsView, now_ms: i64) -> Members {
    map![
        "session_id"@ => Tree::Text(ids.session),
        "thread_id"@ => Tree::Text(ids.thread),
        "turn_id"@ => Tree::Text(ids.turn),
        "root_turn_id"@ => Tree::Text(ids.turn),
        "window_id"@ => Tree::Text(ids.window),
        "context_window_id"@ => Tree::Text(ids.context),
        "session-id"@ => Tree::Text(ids.session),
        "thread-id"@ => Tree::Text(ids.thread),
        "x-client-request-id"@ => Tree::Text(ids.id),
        "x-codex-window-id"@ => Tree::Text(ids.window),
        "x-codex-turn-metadata"@ => Tree::Text(turn_metadata(ids, now_ms)),
    ]
}

pub open spec fn probe_body(
    model: Seq<char>,
    zone: Seq<char>,
    draw: ProbeDraw,
    now_ms: i64,
    date: Seq<char>,
) -> Members {
    map![
        "model"@ => Tree::Text(model),
        "stream"@ => Tree::Bool(true),
        "store"@ => Tree::Bool(false),
        "tools"@ => Tree::Array(Seq::empty()),
        "parallel_tool_calls"@ => Tree::Bool(true),
        "reasoning"@ => Tree::Object(
            map![
                "effort"@ => Tree::Text(effort_of(draw.effort as int)),
                "summary"@ => Tree::Text("auto"@),
            ],
        ),
        "include"@ => Tree::Array(seq![Tree::Text("reasoning.encrypted_content"@)]),
        "prompt_cache_key"@ => Tree::Text(draw.ids@.session),
        "client_metadata"@ => Tree::Object(probe_client_metadata(draw.ids@, now_ms)),
        "input"@ => Tree::Array(
            seq![
                user_text(environment_text(date, zone)),
                user_text(decimal(draw.nonce as nat) + ": "@ + prompt_of(draw.question as int)),
            ],
        ),
    ]
}

/// The request of a probe, and what is to be noted of it.
pub struct ProbeRequest {
    pub headers: Vec<HeaderField>,
    pub body: JsonObject,
    pub shape: &'static str,
    pub effort: &'static str,
    pub expect: &'static str,
    pub id: String,
}

/// The request is the one that these draws make at this time.
pub open spec fn is_probe_of(
    request: ProbeRequest,
    model: Seq<char>,
    config: TurnStateConfig,
    user_agent: Seq<char>,
    draw: ProbeDraw,
    now_ms: i64,
    date: Seq<char>,
) -> bool {
    &&& field_views(request.headers@) == probe_headers(draw.ids@, config, user_agent, now_ms)
    &&& request.body@ == probe_body(model, config.timezone.zone(), draw, now_ms, date)
    &&& request.shape@ == shape_of(draw.question as int)
    &&& request.effort@ == effort_of(draw.effort as int)
    &&& request.expect@ == expected_of(draw.question as int)
    &&& request.id@ == draw.ids@.id
}

/// The request is the one that some draws make at this time, with a version 7 UUID
/// for each id.
pub open spec fn is_some_probe(
    request: ProbeRequest,
    model: Seq<char>,
    config: TurnStateConfig,
    user_agent: Seq<char>,
    now_ms: i64,
    date: Seq<char>,
) -> bool {
    exists|draw: ProbeDraw|
        draw.in_range() && draw.ids@.are_time_ordered() && #[trigger] is_probe_of(
            request,
            model,
            config,
            user_agent,
            draw,
            now_ms,
            date,
        )
}

fn text(value: &str) -> (r: Json)
    ensures
        r@ == Tree::Text(value@),
{
    Json::Text(value.to_owned())
}

fn metadata_text(ids: &ProbeIds, now_ms: i64) -> (r: String)
    ensures
        r@ == turn_metadata(ids@, now_ms),
{
    let metadata = JsonObject::new().insert("session_id", text(ids.session.as_str())).insert(
        "thread_id",
        text(ids.thread.as_str()),
    ).insert("window_id", text(ids.window.as_str())).insert(
        "turn_id",
        text(ids.turn.as_str()),
    ).insert("root_turn_id", text(ids.turn.as_str())).insert(
        "context_window_id",
        text(ids.context.as_str()),
    ).insert("turn_started_at_unix_ms", Json::Number(JsonNumber::Signed(now_ms)));
    render_object(&metadata)
}

fn user_message(content: &str) -> (r: Json)
    ensures
        r@ == user_text(content@),
{
    broadcast use array_view;

    let part = JsonObject::new().insert("type", text("input_text")).insert("text", text(content));
    let ghost inner = part@;
    let parts = vec![Json::Object(part)];
    assert(trees(parts@) =~= seq![Tree::Object(inner)]);
    Json::Object(
        JsonObject::new().insert("role", text("user")).insert("content", Json::Array(parts)),
    )
}

fn client_metadata(ids: &ProbeIds, metadata: &str, Ghost(now_ms): Ghost<i64>) -> (r: JsonObject)
    requires
        metadata@ == turn_metadata(ids@, now_ms),
    ensures
        r@ == probe_client_metadata(ids@, now_ms),
{
    JsonObject::new().insert("session_id", text(ids.session.as_str())).insert(
        "thread_id",
        text(ids.thread.as_str()),
    ).insert("turn_id", text(ids.turn.as_str())).insert(
        "root_turn_id",
        text(ids.turn.as_str()),
    ).insert("window_id", text(ids.window.as_str())).insert(
        "context_window_id",
        text(ids.context.as_str()),
    ).insert("session-id", text(ids.session.as_str())).insert(
        "thread-id",
        text(ids.thread.as_str()),
    ).insert("x-client-request-id", text(ids.id.as_str())).insert(
        "x-codex-window-id",
        text(ids.window.as_str()),
    ).insert("x-codex-turn-metadata", text(metadata))
}

/// The request that the draws make. `date` is the date where the probe claims to
/// be.
pub fn probe_request(
    model: &str,
    config: &TurnStateConfig,
    user_agent: &str,
    draw: &ProbeDraw,
    now_ms: i64,
    date: &str,
) -> (r: ProbeRequest)
    requires
        draw.in_range(),
    ensures
        is_probe_of(r, model@, *config, user_agent@, *draw, now_ms, date@),
{
    broadcast use array_view;

    let ids = &draw.ids;
    let metadata = metadata_text(ids, now_ms);
    let fields = vec![
        field("session-id", ids.session.as_str()),
        field("thread-id", ids.thread.as_str()),
        field("x-client-request-id", ids.id.as_str()),
        field("x-codex-window-id", ids.window.as_str()),
        field("x-codex-turn-metadata", metadata.as_str()),
        field("originator", config.originator.as_str()),
        field("version", config.client_version.as_str()),
        field("user-agent", user_agent),
        field("accept", "text/event-stream"),
        field("content-type", "application/json"),
    ];
    assert(field_views(fields@) =~= seq![
        ("session-id"@, ids@.session),
        ("thread-id"@, ids@.thread),
        ("x-client-request-id"@, ids@.id),
        ("x-codex-window-id"@, ids@.window),
        ("x-codex-turn-metadata"@, turn_metadata(ids@, now_ms)),
        ("originator"@, config.originator@),
        ("version"@, config.client_version@),
        ("user-agent"@, user_agent@),
        ("accept"@, "text/event-stream"@),
        ("content-type"@, "application/json"@),
    ]);
    let headers = sendable_fields(fields);
    let asked = question(draw.question);
    let effort = effort_name(draw.effort);
    let mut environment = glue3(
        "<environment_context>\n  <cwd>/workspace</cwd>\n  <shell>bash</shell>\n  <current_date>",
        date,
        "</current_date>\n  <timezone>",
    );
    environment.append(config.timezone.name().as_str());
    environment.append("</timezone>\n</environment_context>");
    let prompt = glue3(decimal_text(draw.nonce as u128).as_str(), ": ", asked.prompt);
    let input = vec![user_message(environment.as_str()), user_message(prompt.as_str())];
    assert(trees(input@) =~= seq![
        user_text(environment_text(date@, config.timezone.zone())),
        user_text(decimal(draw.nonce as nat) + ": "@ + prompt_of(draw.question as int)),
    ]);
    let none: Vec<Json> = Vec::new();
    assert(trees(none@) =~= Seq::empty());
    let wanted = vec![text("reasoning.encrypted_content")];
    assert(trees(wanted@) =~= seq![Tree::Text("reasoning.encrypted_content"@)]);
    let reasoning = JsonObject::new().insert("effort", text(effort)).insert(
        "summary",
        text("auto"),
    );
    let body = JsonObject::new().insert("model", text(model)).insert(
        "stream",
        Json::Bool(true),
    ).insert("store", Json::Bool(false)).insert("tools", Json::Array(none)).insert(
        "parallel_tool_calls",
        Json::Bool(true),
    ).insert("reasoning", Json::Object(reasoning)).insert(
        "include",
        Json::Array(wanted),
    ).insert("prompt_cache_key", text(ids.session.as_str())).insert(
        "client_metadata",
        Json::Object(client_metadata(ids, metadata.as_str(), Ghost(now_ms))),
    ).insert("input", Json::Array(input));
    ProbeRequest {
        headers,
        body,
        shape: asked.shape,
        effort,
        expect: asked.expect,
        id: ids.id.clone(),
    }
}

/// The date in a time zone, as year, month and day, if the time can be told.
pub uninterp spec fn local_date(now_ms: i64, zone: Seq<char>) -> Option<Seq<char>>;

/// `DateTime::from_timestamp_millis`, `with_timezone` and `format("%Y-%m-%d")` of
/// the crate `chrono`, in a zone of `chrono_tz`: the result depends on the time and
/// the zone alone; there is none for a time outside `chrono`'s range.
#[verifier::external_body]
fn date_in_zone(now_ms: i64, zone: &str) -> (r: Option<String>)
    ensures
        optional_text(r) == local_date(now_ms, zone@),
{
    let zone = zone.parse::<chrono_tz::Tz>().ok()?;
    chrono::DateTime::from_timestamp_millis(now_ms)
        .map(|now| now.with_timezone(&zone).format("%Y-%m-%d").to_string())
}

fn draw_probe() -> (r: ProbeDraw)
    ensures
        r.in_range(),
        r.ids@.are_time_ordered(),
{
    let ids = ProbeIds {
        session: time_ordered_id(),
        thread: time_ordered_id(),
        id: time_ordered_id(),
        window: time_ordered_id(),
        turn: time_ordered_id(),
        context: time_ordered_id(),
    };
    ProbeDraw {
        ids,
        question: random_index(QUESTION_COUNT),
        effort: random_index(EFFORT_COUNT),
        nonce: random_index(NONCE_RANGE),
    }
}

/// A request for a probe now, with new ids, and a question and an effort drawn by
/// lot. There is none where the time cannot be told as a date.
pub fn request(model: &str, config: &TurnStateConfig, user_agent: &str, now_ms: i64) -> (r: Option<
    ProbeRequest,
>)
    ensures
        match r {
            Some(request) => local_date(now_ms, config.timezone.zone()) is Some && is_some_probe(
                request,
                model@,
                *config,
                user_agent@,
                now_ms,
                local_date(now_ms, config.timezone.zone())->0,
            ),
            None => local_date(now_ms, config.timezone.zone()) is None,
        },
{
    let date = match date_in_zone(now_ms, config.timezone.name().as_str()) {
        Some(date) => date,
        None => {
            return None;
        },
    };
    let draw = draw_probe();
    let request = probe_request(model, config, user_agent, &draw, now_ms, date.as_str());
    assert(is_probe_of(
        request,
        model@,
        *config,
        user_agent@,
        draw,
        now_ms,
        local_date(now_ms, config.timezone.zone())->0,
    ));
    Some(request)
}

/// What `zstd::stream::encode_all` at level 3 makes of bytes, if it succeeds.
pub uninterp spec fn zstd_frame(bytes: Seq<u8>) -> Option<Seq<u8>>;

/// `encode_all` of the crate `zstd`, at level 3, from memory to memory: the frame
/// depends on the bytes alone.
#[verifier::external_body]
fn compress(bytes: Vec<u8>) -> (r: Option<Vec<u8>>)
    ensures
        match r {
            Some(frame) => zstd_frame(bytes@) == Some(frame@),
            None => zstd_frame(bytes@) is None,
        },
{
    zstd::stream::encode_all(std::io::Cursor::new(bytes), 3).ok()
}

/// The body of a request as it is sent: compressed JSON.
pub fn compressed_body(body: &JsonObject) -> (r: Option<Vec<u8>>)
    ensures
        match r {
            Some(frame) => zstd_frame(encode_utf8(json_text(Tree::Object(body@)))) == Some(frame@),
            None => zstd_frame(encode_utf8(json_text(Tree::Object(body@)))) is None,
        },
{
    compress(render_object(body).as_str().as_bytes_vec())
}

} // verus!
