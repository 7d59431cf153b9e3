//! How accounts, ways out and interruptions are told of.

use crate::json::{Json, Jv};
use crate::json;
use crate::protocol::{Frame, Fv};
use crate::protocol;
use crate::providers;
use crate::routing;
use crate::text;
use crate::upstream::usage::RequestTelemetry;
use crate::upstream::usage;
use vstd::prelude::*;
use vstd::string::*;

verus! {

/// Whether a session holds a token.
pub open spec fn holds_token(session: Jv) -> bool {
    json::str_or_empty(json::opt_get(session.get("auth"@), "accessToken"@)).len() > 0
}

/// Whether a session holds a token.
pub fn has_access_token(session: &Json) -> (r: bool)
    ensures
        r == holds_token(session@),
{
    !json::str_or(json::get_in(session.get("auth"), "accessToken")).as_str().is_empty()
}

/// What an account is called: its name, else its identifier.
pub open spec fn display_of(account: Jv) -> Seq<char> {
    protocol::or_else(json::str_or_empty(account.get("name"@)), json::str_or_empty(account.get("id"@)))
}

/// What an account is called.
pub fn account_display(account: &Json) -> (r: String)
    ensures
        r@ == display_of(account@),
{
    protocol::or_text(json::str_or(account.get("name")), json::str_or(account.get("id")).as_str())
}

/// What the account of a request is called: its name, else the name in its session,
/// else its identifier.
pub open spec fn label_for(account: Option<Jv>, id: Seq<char>, session: Jv) -> Seq<char> {
    protocol::or_else(
        json::str_or_empty(json::opt_get(account, "name"@)),
        protocol::or_else(json::str_or_empty(json::opt_get(session.get("account"@), "nickname"@)), id),
    )
}

/// What the account of a request is called.
pub fn account_label(account: Option<&Json>, account_id: &str, session: &Json) -> (r: String)
    ensures
        r@ == label_for(json::opt_model(account), account_id@, session@),
{
    let nickname = json::str_or(json::get_in(session.get("account"), "nickname"));
    let second = protocol::or_text(nickname, account_id);
    protocol::or_text(json::str_or(json::get_in(account, "name")), second.as_str())
}

/// What the way out of a request is called: its label, else its host; without a
/// proxy it is direct.
pub open spec fn way_out(proxy: Option<(Seq<char>, Seq<char>)>) -> Seq<char> {
    match proxy {
        Some((label, host)) => protocol::or_else(label, host),
        None => "直连"@,
    }
}

/// What the way out of a request is called; a proxy is given by its label and its
/// host.
pub fn describe_proxy(proxy: Option<(&str, &str)>) -> (r: String)
    ensures
        r@ == way_out(
            match proxy {
                Some((label, host)) => Some((label@, host@)),
                None => None,
            },
        ),
{
    match proxy {
        Some((label, host)) => protocol::or_text(label.to_owned(), host),
        None => "直连".to_owned(),
    }
}

/// The priority of an account.
pub open spec fn priority_in(account: Jv) -> Option<int> {
    match account.get("priority"@) {
        Some(v) => v.as_i64(),
        None => None,
    }
}

/// The priority of an account.
pub fn priority_of(account: &Json) -> (r: Option<i64>)
    ensures
        r is Some <==> priority_in(account@) is Some,
        r matches Some(n) ==> priority_in(account@) == Some(n as int),
{
    match account.get("priority") {
        Some(v) => v.as_i64(),
        None => None,
    }
}

/// The priority of an account as a text; a hyphen where it has none.
pub open spec fn priority_text(account: Jv) -> Seq<char> {
    match priority_in(account) {
        Some(n) => text::decimal_int(n),
        None => "-"@,
    }
}

fn write_priority(account: &Json) -> (r: String)
    ensures
        r@ == priority_text(account@),
{
    match priority_of(account) {
        Some(n) => text::decimal_i64(n),
        None => "-".to_owned(),
    }
}

/// Where a request goes next: the account, its priority, and its provider where that is
/// another one.
pub open spec fn next_text(provider: Seq<char>, next: Jv) -> Seq<char> {
    let owner = routing::owner_of(next);
    let home = if owner == provider {
        Seq::empty()
    } else {
        "，切换提供商 → "@ + (match providers::kind_of(owner) {
            Some(kind) => providers::kind_label(kind),
            None => owner,
        })
    };
    display_of(next) + "（优先级 "@ + priority_text(next) + home + "）"@
}

fn write_next(provider: &str, next: &Json) -> (r: String)
    ensures
        r@ == next_text(provider@, next@),
{
    let owner = routing::provider_of(next);
    let mut out = text::join3(
        account_display(next).as_str(),
        "（优先级 ",
        write_priority(next).as_str(),
    );
    proof {
        assert(out@ + Seq::<char>::empty() =~= out@);
    }
    if !text::same(owner.as_str(), provider) {
        let label = match providers::kind_from_id(owner.as_str()) {
            Some(kind) => providers::meta(kind).label.to_owned(),
            None => owner,
        };
        out.append(text::join2("，切换提供商 → ", label.as_str()).as_str());
    }
    out.append("）");
    out
}

/// What is told of an account that has to rest, and of the one that comes next.
pub open spec fn rest_line(
    from: Seq<char>,
    model: Seq<char>,
    hint: Seq<char>,
    provider: Seq<char>,
    next: Jv,
) -> Seq<char> {
    "⚠️ 账号 "@ + from + " 对模型 "@ + model + " 已限额"@ + hint + "，按优先级降级 → "@ + next_text(
        provider,
        next,
    )
}

/// The line that tells of an account that has to rest, and of the one that comes next.
pub fn limit_line(from: &str, model: &str, hint: &str, provider: &str, next: &Json) -> (r: String)
    ensures
        r@ == rest_line(from@, model@, hint@, provider@, next@),
{
    let mut out = text::join3("⚠️ 账号 ", from, " 对模型 ");
    out.append(model);
    out.append(" 已限额");
    out.append(hint);
    out.append("，按优先级降级 → ");
    out.append(write_next(provider, next).as_str());
    out
}

/// What is reported of an account that has to rest: the one that comes next, or that all
/// have to rest and how many were tried.
pub open spec fn rest_report(
    from: Seq<char>,
    model: Seq<char>,
    hint: Seq<char>,
    next: Option<Jv>,
    tried: nat,
) -> Seq<char> {
    match next {
        Some(account) => "账号「"@ + from + "」对模型 "@ + model + " 已限额"@ + hint
            + "，按优先级降级 → 「"@ + display_of(account) + "」"@,
        None => "模型 "@ + model + " 在所有候选账号均已限额或禁用，无法继续转发（尝试过 "@
            + text::decimal(tried) + " 个账号）"@,
    }
}

/// What is reported of an account that has to rest.
pub fn limit_report(from: &str, model: &str, hint: &str, next: Option<&Json>, tried: usize) -> (r:
    String)
    ensures
        r@ == rest_report(from@, model@, hint@, json::opt_model(next), tried as nat),
{
    match next {
        Some(account) => {
            let mut out = text::join3("账号「", from, "」对模型 ");
            out.append(model);
            out.append(" 已限额");
            out.append(hint);
            out.append("，按优先级降级 → 「");
            out.append(account_display(account).as_str());
            out.append("」");
            out
        },
        None => {
            let mut out = text::join3("模型 ", model, " 在所有候选账号均已限额或禁用，无法继续转发（尝试过 ");
            out.append(text::decimal_u64(tried as u64).as_str());
            out.append(" 个账号）");
            out
        },
    }
}

/// What is told of an attempt that failed, and of the account that comes next.
pub open spec fn failure_line(
    label: Seq<char>,
    model: Seq<char>,
    status: int,
    provider: Seq<char>,
    next: Jv,
) -> Seq<char> {
    "⚠️ 账号 "@ + label + " 对模型 "@ + model + " 转发失败（HTTP "@ + text::decimal_int(status)
        + "），按队列顺延 → "@ + next_text(provider, next)
}

/// The line that tells of an attempt that failed, and of the account that comes next.
pub fn passed_line(label: &str, model: &str, status: i64, provider: &str, next: &Json) -> (r: String)
    ensures
        r@ == failure_line(label@, model@, status as int, provider@, next@),
{
    let mut out = text::join3("⚠️ 账号 ", label, " 对模型 ");
    out.append(model);
    out.append(" 转发失败（HTTP ");
    out.append(text::decimal_i64(status).as_str());
    out.append("），按队列顺延 → ");
    out.append(write_next(provider, next).as_str());
    out
}

/// What is told of a request that failed in a conversation, or with a provider that a user
/// has added, and of the account that comes next.
pub open spec fn elsewhere_text(custom: bool, next: Jv) -> Seq<char> {
    (if custom {
        "⚠️ 自定义转发失败，按队列顺延 → "@
    } else {
        "⚠️ 会话式转发失败，按队列顺延 → "@
    }) + display_of(next) + "（优先级 "@ + priority_text(next) + "）"@
}

/// The line that tells of a request that failed in a conversation, or with a provider that
/// a user has added, and of the account that comes next.
pub fn elsewhere_line(custom: bool, next: &Json) -> (r: String)
    ensures
        r@ == elsewhere_text(custom, next@),
{
    let mut out = if custom {
        "⚠️ 自定义转发失败，按队列顺延 → ".to_owned()
    } else {
        "⚠️ 会话式转发失败，按队列顺延 → ".to_owned()
    };
    out.append(account_display(next).as_str());
    out.append("（优先级 ");
    out.append(write_priority(next).as_str());
    out.append("）");
    out
}

/// What is told where no other account may be asked any more.
pub open spec fn spent_text(total: nat) -> Seq<char> {
    "⚠️ 换账号次数已用尽（最多 "@ + text::decimal(total) + " 个），不再顺延，返回本次错误"@
}

/// The line that tells that no other account may be asked any more.
pub fn spent_line(total: usize) -> (r: String)
    ensures
        r@ == spent_text(total as nat),
{
    text::join3(
        "⚠️ 换账号次数已用尽（最多 ",
        text::decimal_u64(total as u64).as_str(),
        " 个），不再顺延，返回本次错误",
    )
}

/// The request as it goes to the upstream, which always streams.
pub open spec fn streamed(body: Jv) -> Jv {
    if body is Obj {
        body.put("stream"@, Jv::Bool(true))
    } else {
        body
    }
}

/// The request as it goes to the upstream.
pub fn streamed_body(body: &Json) -> (r: Json)
    ensures
        r@ == streamed(body@),
{
    let mut out = body.copy();
    if out.is_obj() {
        out.put("stream", Json::Bool(true));
    }
    out
}

/// A session that is only a token.
pub open spec fn token_session(token: Seq<char>) -> Option<Jv> {
    if token.len() > 0 {
        Some(
            Jv::obj().put(
                "auth"@,
                Jv::obj().put("accessToken"@, Jv::Str(token)).put(
                    "tokenType"@,
                    Jv::Str("Bearer"@),
                ),
            ),
        )
    } else {
        None
    }
}

/// The session of a provider that needs no account; without a token there is none.
pub fn anonymous_session(token: &str) -> (r: Option<Json>)
    ensures
        json::opt_owned(r) == token_session(token@),
{
    if token.is_empty() {
        return None;
    }
    let auth = Json::obj().with("accessToken", Json::str(token)).with(
        "tokenType",
        Json::str("Bearer"),
    );
    Some(Json::obj().with("auth", auth))
}

/// The text of an interruption.
pub open spec fn interruption(error: Seq<char>) -> Seq<char> {
    "上游流中断: "@ + error
}

/// The frames that end a stream which the upstream has interrupted.
pub open spec fn interruption_frames(error: Seq<char>) -> Seq<Fv> {
    seq![
        Fv::Data(
            Jv::obj().put(
                "error"@,
                Jv::obj().put("message"@, Jv::Str(interruption(error))).put(
                    "type"@,
                    Jv::Str("proxy_error"@),
                ),
            ),
        ),
        Fv::Done,
    ]
}

/// Notes that the upstream has interrupted a stream, and gives the frames that end
/// it.
pub fn stream_interrupted(telemetry: &mut RequestTelemetry, error: &str) -> (r: Vec<bytes::Bytes>)
    ensures
        final(telemetry)@ == usage::error_noted(old(telemetry)@, interruption(error@)),
        protocol::wire(r@, interruption_frames(error@)),
{
    let message = text::join2("上游流中断: ", error);
    telemetry.note_error(message.as_str());
    let inner = Json::obj().with("message", Json::Str(message)).with(
        "type",
        Json::str("proxy_error"),
    );
    let mut out: Vec<Frame> = Vec::new();
    out.push(Frame::Data(Json::obj().with("error", inner)));
    out.push(Frame::Done);
    proof {
        assert(protocol::frames(out@) =~= interruption_frames(error@));
    }
    protocol::write_frames(&out)
}

} // verus!
