//! The news of an installed ticket, for the messenger.

use crate::account::turn_state::{TurnStateInstallation, TurnStateNotification};
use crate::json::{Json, JsonObject, Members, Tree};
use crate::text::{
    decimal, decimal_text, optional_text, same_text, signed_decimal, signed_decimal_text,
};
use vstd::prelude::*;
use vstd::string::*;

verus! {

/// A length of time in hours, minutes and seconds.
pub open spec fn duration_text(seconds: nat) -> Seq<char> {
    decimal(seconds / 3600) + "小时"@ + decimal(seconds % 3600 / 60) + "分"@ + decimal(seconds % 60)
        + "秒"@
}

pub fn duration(seconds: u64) -> (r: String)
    ensures
        r@ == duration_text(seconds as nat),
{
    let mut r = decimal_text((seconds / 3600) as u128);
    r.append("小时");
    r.append(decimal_text((seconds % 3600 / 60) as u128).as_str());
    r.append("分");
    r.append(decimal_text((seconds % 60) as u128).as_str());
    r.append("秒");
    r
}

/// A time as RFC 3339 writes it, if it is in range.
pub uninterp spec fn rfc3339_text(seconds: i64) -> Option<Seq<char>>;

/// `DateTime::from_timestamp` and `to_rfc3339` of the crate `chrono`, in UTC: the
/// result depends on the time alone; there is none outside `chrono`'s range.
#[verifier::external_body]
fn rfc3339(seconds: i64) -> (r: Option<String>)
    ensures
        optional_text(r) == rfc3339_text(seconds),
{
    chrono::DateTime::from_timestamp(seconds, 0).map(|date| date.to_rfc3339())
}

/// The time since the installation before, or that there was none.
pub open spec fn interval_text(installed_at: int, previous: Option<i64>) -> Seq<char> {
    match previous {
        None => "首次安装"@,
        Some(previous) => duration_text(
            if installed_at - previous < 0 {
                0
            } else if installed_at - previous > i64::MAX {
                i64::MAX as nat
            } else {
                (installed_at - previous) as nat
            },
        ),
    }
}

/// What it took to get the ticket; tickets from before this was counted say so.
pub open spec fn effort_texts(installation: TurnStateInstallation) -> (Seq<char>, Seq<char>) {
    if installation.attempts == 0 {
        ("历史未记录"@, "历史未记录"@)
    } else {
        (
            duration_text(installation.hunt_seconds as nat),
            decimal(installation.attempts as nat),
        )
    }
}

/// The lines of the news: what is said of the installation, with the time when
/// the ticket was issued.
pub open spec fn notice_text(notice: TurnStateNotification, issued: Seq<char>) -> Seq<char> {
    let installation = notice.installation;
    "state 安装成功\n账号："@ + notice.account_name@ + " ("@ + notice.account_id@ + ")\n模型："@
        + notice.model@ + "\n安装方式："@ + (if notice.manual {
        "手动应用"@
    } else {
        "自动安装"@
    }) + "\n获取来源："@ + (if installation.source@ == "probe"@ {
        "主动探测"@
    } else {
        "被动采集"@
    }) + "\n距上次安装："@ + interval_text(
        installation.installed_at as int,
        notice.previous_installed_at,
    ) + "\n本次获取耗时："@ + effort_texts(installation).0 + "\n尝试次数："@ + effort_texts(
        installation,
    ).1 + "\n签发时间："@ + issued + "\n长度："@ + decimal(installation.token_length as nat)
        + "\n完整 state：\n"@ + notice.token.value@
}

pub open spec fn issued_text(issued_at: i64) -> Seq<char> {
    match rfc3339_text(issued_at) {
        Some(text) => text,
        None => signed_decimal(issued_at as int),
    }
}

fn interval(installed_at: i64, previous: Option<i64>) -> (r: String)
    ensures
        r@ == interval_text(installed_at as int, previous),
{
    match previous {
        None => "首次安装".to_owned(),
        Some(previous) => {
            let passed: i128 = installed_at as i128 - previous as i128;
            if passed < 0 {
                duration(0)
            } else if passed > i64::MAX as i128 {
                duration(i64::MAX as u64)
            } else {
                duration(passed as u64)
            }
        },
    }
}

/// The news with the time of issue already told.
pub fn notice_message(notice: &TurnStateNotification, issued: &str) -> (r: String)
    ensures
        r@ == notice_text(*notice, issued@),
{
    let installation = &notice.installation;
    let mut r = "state 安装成功\n账号：".to_owned();
    r.append(notice.account_name.as_str());
    r.append(" (");
    r.append(notice.account_id.as_str());
    r.append(")\n模型：");
    r.append(notice.model.as_str());
    r.append("\n安装方式：");
    r.append(
        if notice.manual {
            "手动应用"
        } else {
            "自动安装"
        },
    );
    r.append("\n获取来源：");
    r.append(
        if same_text(installation.source.as_str(), "probe") {
            "主动探测"
        } else {
            "被动采集"
        },
    );
    r.append("\n距上次安装：");
    r.append(interval(installation.installed_at, notice.previous_installed_at).as_str());
    let unknown = installation.attempts == 0;
    r.append("\n本次获取耗时：");
    if unknown {
        r.append("历史未记录");
    } else {
        r.append(duration(installation.hunt_seconds).as_str());
    }
    r.append("\n尝试次数：");
    if unknown {
        r.append("历史未记录");
    } else {
        r.append(decimal_text(installation.attempts as u128).as_str());
    }
    r.append("\n签发时间：");
    r.append(issued);
    r.append("\n长度：");
    r.append(decimal_text(installation.token_length as u128).as_str());
    r.append("\n完整 state：\n");
    r.append(notice.token.value.as_str());
    r
}

pub open spec fn payload_of(text: Seq<char>) -> Members {
    map![
        "msg_type"@ => Tree::Text("text"@),
        "content"@ => Tree::Object(map!["text"@ => Tree::Text(text)]),
    ]
}

/// What is posted to the messenger.
pub fn notification_payload(notice: &TurnStateNotification) -> (r: JsonObject)
    ensures
        r@ == payload_of(notice_text(*notice, issued_text(notice.token.issued_at))),
{
    let issued = match rfc3339(notice.token.issued_at) {
        Some(text) => text,
        None => signed_decimal_text(notice.token.issued_at),
    };
    let text = notice_message(notice, issued.as_str());
    let content = JsonObject::new().insert("text", Json::Text(text));
    JsonObject::new().insert("msg_type", Json::Text("text".to_owned())).insert(
        "content",
        Json::Object(content),
    )
}

/// How many bytes of the messenger's answer are read.
pub const REPLY_LIMIT: usize = 8192;

/// The answer with one more chunk; none where it gets too long.
pub fn extend_reply(body: Vec<u8>, chunk: &Vec<u8>) -> (r: Option<Vec<u8>>)
    requires
        body@.len() <= REPLY_LIMIT,
    ensures
        match r {
            Some(longer) => longer@ == body@ + chunk@ && longer@.len() <= REPLY_LIMIT,
            None => body@.len() + chunk@.len() > REPLY_LIMIT,
        },
{
    if chunk.len() > REPLY_LIMIT || body.len() + chunk.len() > REPLY_LIMIT {
        return None;
    }
    let mut r = body;
    let mut i: usize = 0;
    let ghost start = r@;
    proof {
        assert(start + chunk@.take(0) =~= start);
    }
    while i < chunk.len()
        invariant
            i <= chunk@.len(),
            r@ == start + chunk@.take(i as int),
        decreases chunk@.len() - i,
    {
        r.push(chunk[i]);
        i += 1;
        assert(chunk@.take(i as int) =~= chunk@.take(i - 1).push(chunk@[i - 1]));
        assert(start + chunk@.take(i as int) =~= (start + chunk@.take(i - 1)).push(chunk@[i - 1]));
    }
    assert(chunk@.take(chunk@.len() as int) =~= chunk@);
    Some(r)
}

/// The news arrived: the messenger answered well, and with the code for success.
/// A good status alone does not say so.
pub fn is_delivered(status: u16, code: Option<i64>) -> (r: bool)
    ensures
        r == (200 <= status < 300 && code == Some(0i64)),
{
    200 <= status && status < 300 && match code {
        Some(code) => code == 0,
        None => false,
    }
}

} // verus!
