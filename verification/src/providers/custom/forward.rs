//! Requests to a provider that a user has added.
//!
//! Such a provider speaks the chat protocol, the Responses protocol or the
//! Anthropic one. The request is first brought to the name and the level of
//! thinking that the user has bound to it, then written in the protocol of the
//! provider; the stream that comes back is turned into a chat stream.

use crate::errors::{ErrorV, GatewayError};
use crate::errors;
use crate::json::{Json, Jv};
use crate::json;
use crate::protocol::anthropic_outbound::{ChatFromAnthropicStream, InboundV};
use crate::protocol::anthropic_outbound;
use crate::protocol::chunks::Given;
use crate::protocol::chunks;
use crate::protocol::responses::{Fresh, FreshV};
use crate::protocol::responses;
use crate::protocol::responses_outbound::{ChatFromResponsesStream, OutboundV};
use crate::protocol::responses_outbound;
use crate::protocol;
use crate::text;
use crate::time;
use crate::upstream::labels;
use crate::upstream::provider_loop;
use vstd::prelude::*;
use vstd::string::*;

verus! {

/// The name of the chat protocol.
pub const PROTOCOL_CHAT_COMPLETIONS: &'static str = "chat_completions";

/// The name of the Responses protocol.
pub const PROTOCOL_RESPONSES: &'static str = "responses";

/// The name of the Anthropic protocol.
pub const PROTOCOL_ANTHROPIC: &'static str = "anthropic";

/// The protocols that a provider can speak.
#[derive(Clone, Copy, Debug, PartialEq, Eq, Structural)]
pub enum Protocol {
    Chat,
    Responses,
    Anthropic,
}

/// The protocol with a name.
pub open spec fn protocol_named(name: Seq<char>) -> Option<Protocol> {
    if name == PROTOCOL_CHAT_COMPLETIONS@ {
        Some(Protocol::Chat)
    } else if name == PROTOCOL_RESPONSES@ {
        Some(Protocol::Responses)
    } else if name == PROTOCOL_ANTHROPIC@ {
        Some(Protocol::Anthropic)
    } else {
        None
    }
}

fn read_protocol(name: &str) -> (r: Option<Protocol>)
    ensures
        r == protocol_named(name@),
{
    if text::same(name, PROTOCOL_CHAT_COMPLETIONS) {
        Some(Protocol::Chat)
    } else if text::same(name, PROTOCOL_RESPONSES) {
        Some(Protocol::Responses)
    } else if text::same(name, PROTOCOL_ANTHROPIC) {
        Some(Protocol::Anthropic)
    } else {
        None
    }
}

/// What an account of such a provider holds: the key, and an address of its own
/// where it has one.
pub struct Credential {
    pub api_key: String,
    pub base_url_override: Option<String>,
}

/// Where a request goes: by which protocol, with which key, to which address.
pub struct CustomRoute {
    pub protocol: Protocol,
    pub api_key: String,
    pub base_url: String,
}

/// Where a request goes.
#[verifier::ext_equal]
pub struct RouteV {
    pub protocol: Protocol,
    pub api_key: Seq<char>,
    pub base_url: Seq<char>,
}

impl View for CustomRoute {
    type V = RouteV;

    open spec fn view(&self) -> RouteV {
        RouteV {
            protocol: self.protocol,
            api_key: self.api_key@,
            base_url: self.base_url@,
        }
    }
}

/// What came of the search for a way.
pub open spec fn route_found(r: Result<CustomRoute, GatewayError>) -> Result<RouteV, ErrorV> {
    match r {
        Ok(v) => Ok(v@),
        Err(e) => Err(e@),
    }
}

/// The protocol of a provider by its record; the chat protocol where it names none.
pub open spec fn protocol_text(provider: Jv) -> Seq<char> {
    match provider.get("protocol"@) {
        Some(Jv::Str(s)) => s,
        _ => PROTOCOL_CHAT_COMPLETIONS@,
    }
}

/// The address for a request: that of the account, else that of the provider.
pub open spec fn base_of(provider: Jv, own: Option<Seq<char>>) -> Seq<char> {
    match own {
        Some(url) => url,
        None => json::str_or_empty(provider.get("baseUrl"@)),
    }
}

/// Where a request goes. It is refused, in this order, where the provider is not
/// there, its protocol is unknown, no account is named, the account is not there,
/// and where there is no address.
pub open spec fn route_of(
    provider: Option<Jv>,
    provider_id: Seq<char>,
    label: Option<Seq<char>>,
    account_id: Seq<char>,
    credential: Option<(Seq<char>, Option<Seq<char>>)>,
) -> Result<RouteV, ErrorV> {
    match provider {
        None => Err(errors::plain_error(503, "自定义提供商不存在: "@ + text::trimmed(provider_id))),
        Some(p) => match protocol_named(protocol_text(p)) {
            None => Err(
                errors::plain_error(
                    400,
                    "自定义提供商「"@ + (match label {
                        Some(l) => l,
                        None => provider_id,
                    }) + "」的协议 "@ + protocol_text(p) + " 无法识别，请检查提供商配置"@,
                ),
            ),
            Some(protocol) => if text::blank(account_id) {
                Err(
                    errors::plain_error(
                        503,
                        "没有可用账号，无账号可转发：请在账号页为该自定义提供商添加并启用账号"@,
                    ),
                )
            } else {
                match credential {
                    None => Err(
                        errors::plain_error(503, "自定义账号不存在或已被删除: "@ + account_id),
                    ),
                    Some((api_key, own)) => if text::blank(base_of(p, own)) {
                        Err(
                            errors::plain_error(
                                400,
                                "该自定义提供商没有可用的 baseUrl（提供商与账号上都没有配置）"@,
                            ),
                        )
                    } else {
                        Ok(RouteV { protocol, api_key, base_url: base_of(p, own) })
                    },
                }
            },
        },
    }
}

/// What an account holds, where there is one.
pub open spec fn opt_credential(c: Option<&Credential>) -> Option<
    (Seq<char>, Option<Seq<char>>),
> {
    match c {
        Some(v) => Some((v.api_key@, json::opt_string(v.base_url_override))),
        None => None,
    }
}

/// Where a request goes. `provider` is the record of the provider, `label` the name
/// that the user gave it, `credential` what the account holds.
pub fn custom_route(
    provider: Option<&Json>,
    provider_id: &str,
    label: Option<&str>,
    account_id: &str,
    credential: Option<&Credential>,
) -> (r: Result<CustomRoute, GatewayError>)
    ensures
        route_found(r) == route_of(
            json::opt_model(provider),
            provider_id@,
            json::opt_text(label),
            account_id@,
            opt_credential(credential),
        ),
{
    let record = match provider {
        Some(p) => p,
        None => {
            let message = text::join2("自定义提供商不存在: ", text::trim(provider_id).as_str());
            return Err(GatewayError::with_status(503, message));
        },
    };
    let name = match record.get("protocol") {
        Some(Json::Str(s)) => s.clone(),
        _ => PROTOCOL_CHAT_COMPLETIONS.to_owned(),
    };
    let protocol = match read_protocol(name.as_str()) {
        Some(p) => p,
        None => {
            let shown = match label {
                Some(l) => l,
                None => provider_id,
            };
            let mut message = text::join3("自定义提供商「", shown, "」的协议 ");
            message.append(name.as_str());
            message.append(" 无法识别，请检查提供商配置");
            return Err(GatewayError::with_status(400, message));
        },
    };
    if text::trim(account_id).as_str().is_empty() {
        return Err(
            GatewayError::with_status(
                503,
                "没有可用账号，无账号可转发：请在账号页为该自定义提供商添加并启用账号".to_owned(),
            ),
        );
    }
    let held = match credential {
        Some(c) => c,
        None => {
            let message = text::join2("自定义账号不存在或已被删除: ", account_id);
            return Err(GatewayError::with_status(503, message));
        },
    };
    let base_url = match &held.base_url_override {
        Some(url) => url.clone(),
        None => json::str_or(record.get("baseUrl")),
    };
    if text::trim(base_url.as_str()).as_str().is_empty() {
        return Err(
            GatewayError::with_status(
                400,
                "该自定义提供商没有可用的 baseUrl（提供商与账号上都没有配置）".to_owned(),
            ),
        );
    }
    Ok(CustomRoute { protocol, api_key: held.api_key.clone(), base_url })
}

// --------------------------------------------------------------------- names

/// The model that a request names, without white space around it.
pub open spec fn requested_name(body: Jv) -> Seq<char> {
    text::trimmed(json::str_or_empty(body.get("model"@)))
}

/// The model that a request names, without white space around it.
pub fn requested_model(body: &Json) -> (r: String)
    ensures
        r@ == requested_name(body@),
{
    text::trim(json::str_or(body.get("model")).as_str())
}

/// The request under the name that the upstream knows.
pub open spec fn renamed(body: Jv, requested: Seq<char>, wire: Seq<char>) -> Jv {
    if !text::same_fold(wire, requested) && body is Obj {
        body.put("model"@, Jv::Str(wire))
    } else {
        body
    }
}

/// The request with the level of thinking that is bound to the model: where one is
/// bound that is not off, and the client asks for none itself.
pub open spec fn with_level(body: Jv, level: Option<Seq<char>>, off: bool) -> Jv {
    match level {
        Some(text) => if text::trimmed(text).len() > 0 && !off && body is Obj && body.get(
            "reasoning_effort"@,
        ) is None && body.get("reasoning"@) is None {
            body.put("reasoning_effort"@, Jv::Str(text::trimmed(text)))
        } else {
            body
        },
        None => body,
    }
}

/// The request as it goes to the upstream; one that names no model goes as it is.
pub open spec fn rewritten(
    body: Jv,
    requested: Seq<char>,
    wire: Seq<char>,
    level: Option<Seq<char>>,
    off: bool,
) -> Jv {
    if requested.len() == 0 {
        body
    } else {
        with_level(renamed(body, requested, wire), level, off)
    }
}

/// The request as it goes to the upstream, and the name under which the model is to
/// appear in the answer. `wire` is the name that the upstream knows, `level` the
/// level of thinking that is bound to it, `off` whether that level means none.
pub fn rewrite_body(
    body: &Json,
    requested: &str,
    wire: &str,
    level: Option<&str>,
    off: bool,
) -> (r: (Json, Option<String>))
    ensures
        r.0@ == rewritten(body@, requested@, wire@, json::opt_text(level), off),
        json::opt_string(r.1) == (if requested@.len() == 0 {
            None
        } else {
            Some(requested@)
        }),
{
    let mut out = body.copy();
    if requested.is_empty() {
        return (out, None);
    }
    if !text::eq_fold(wire, requested) && out.is_obj() {
        out.put("model", Json::str(wire));
    }
    if let Some(text) = level {
        let bound = text::trim(text);
        if !bound.as_str().is_empty() && !off && out.is_obj() && out.get(
            "reasoning_effort",
        ).is_none() && out.get("reasoning").is_none() {
            out.put("reasoning_effort", Json::Str(bound));
        }
    }
    (out, Some(requested.to_owned()))
}

/// What a client asks for in so many words stays: neither its level of thinking nor
/// anything but the name of the model is changed.
pub proof fn client_words_stay(
    body: Jv,
    requested: Seq<char>,
    wire: Seq<char>,
    level: Option<Seq<char>>,
    off: bool,
    key: Seq<char>,
)
    requires
        key != "model"@,
        body.get(key) is Some,
    ensures
        rewritten(body, requested, wire, level, off).get(key) == body.get(key),
{
    reveal_strlit("model");
    reveal_strlit("reasoning_effort");
    assert("model"@.len() == 5);
    assert("reasoning_effort"@.len() == 16);
}

/// The name under which the limit of an account is kept: that which the upstream
/// knows; none where the request names no model.
pub open spec fn limit_name(requested: Seq<char>, wire: Seq<char>) -> Seq<char> {
    if text::blank(requested) {
        Seq::empty()
    } else {
        wire
    }
}

/// The name under which the limit of an account is kept.
pub fn cooldown_model(requested: &str, wire: &str) -> (r: String)
    ensures
        r@ == limit_name(requested@, wire@),
{
    if text::trim(requested).as_str().is_empty() {
        proof {
            reveal_strlit("");
            assert(""@ =~= Seq::empty());
        }
        return String::new();
    }
    wire.to_owned()
}

// ------------------------------------------------------------------- requests

/// A request to the upstream.
pub struct OutboundRequest {
    pub url: String,
    pub headers: Vec<(String, String)>,
    pub payload: Json,
}

/// A request to the upstream.
#[verifier::ext_equal]
pub struct RequestV {
    pub url: Seq<char>,
    pub headers: Seq<(Seq<char>, Seq<char>)>,
    pub payload: Jv,
}

/// What a list of headers says.
pub open spec fn headers_view(v: Seq<(String, String)>) -> Seq<(Seq<char>, Seq<char>)> {
    Seq::new(v.len(), |i: int| (v[i].0@, v[i].1@))
}

impl View for OutboundRequest {
    type V = RequestV;

    open spec fn view(&self) -> RequestV {
        RequestV {
            url: self.url@,
            headers: headers_view(self.headers@),
            payload: self.payload@,
        }
    }
}

/// What came of a request.
pub open spec fn request_made(r: Result<OutboundRequest, GatewayError>) -> Result<
    RequestV,
    ErrorV,
> {
    match r {
        Ok(v) => Ok(v@),
        Err(e) => Err(e@),
    }
}

/// The headers with a key that is borne.
pub open spec fn bearer_headers(key: Seq<char>) -> Seq<(Seq<char>, Seq<char>)> {
    seq![
        ("Authorization"@, "Bearer "@ + key),
        ("Content-Type"@, "application/json"@),
    ]
}

/// The headers of the Anthropic protocol.
pub open spec fn anthropic_headers(key: Seq<char>) -> Seq<(Seq<char>, Seq<char>)> {
    seq![
        ("x-api-key"@, key),
        ("anthropic-version"@, "2023-06-01"@),
        ("Content-Type"@, "application/json"@),
    ]
}

/// The address of a request by its protocol. For the Anthropic protocol an address
/// may name the version already.
pub open spec fn url_of(protocol: Protocol, base_url: Seq<char>) -> Seq<char> {
    let base = text::trimmed_end(base_url, '/');
    match protocol {
        Protocol::Chat => base + "/chat/completions"@,
        Protocol::Responses => base + "/responses"@,
        Protocol::Anthropic => if text::has_suffix(base, "/v1"@) {
            base + "/messages"@
        } else {
            base + "/v1/messages"@
        },
    }
}

/// The request to the upstream for a chat request, which always streams. `items`
/// and `calls` hold the identifiers that the translation may need.
pub open spec fn request_of(
    route: RouteV,
    chat: Jv,
    items: Seq<FreshV>,
    calls: Seq<Seq<Seq<char>>>,
) -> Result<RequestV, ErrorV> {
    let url = url_of(route.protocol, route.base_url);
    let model = provider_loop::named_model(chat);
    match route.protocol {
        Protocol::Chat => Ok(
            RequestV { url, headers: bearer_headers(route.api_key), payload: chat },
        ),
        Protocol::Responses => match responses_outbound::responses_of_chat_request(chat, model, items) {
            Ok(payload) => Ok(
                RequestV {
                    url,
                    headers: bearer_headers(route.api_key),
                    payload: labels::streamed(payload),
                },
            ),
            Err(message) => Err(errors::plain_error(400, message)),
        },
        Protocol::Anthropic => match anthropic_outbound::request_of_chat(chat, model, calls) {
            Ok(payload) => Ok(
                RequestV {
                    url,
                    headers: anthropic_headers(route.api_key),
                    payload: labels::streamed(payload),
                },
            ),
            Err(message) => Err(errors::plain_error(400, message)),
        },
    }
}

fn make_bearer(key: &str) -> (r: Vec<(String, String)>)
    ensures
        headers_view(r@) == bearer_headers(key@),
{
    let mut out: Vec<(String, String)> = Vec::new();
    out.push(("Authorization".to_owned(), text::join2("Bearer ", key)));
    out.push(("Content-Type".to_owned(), "application/json".to_owned()));
    proof {
        assert(headers_view(out@) =~= bearer_headers(key@));
    }
    out
}

fn make_anthropic_headers(key: &str) -> (r: Vec<(String, String)>)
    ensures
        headers_view(r@) == anthropic_headers(key@),
{
    let mut out: Vec<(String, String)> = Vec::new();
    out.push(("x-api-key".to_owned(), key.to_owned()));
    out.push(("anthropic-version".to_owned(), "2023-06-01".to_owned()));
    out.push(("Content-Type".to_owned(), "application/json".to_owned()));
    proof {
        assert(headers_view(out@) =~= anthropic_headers(key@));
    }
    out
}

/// The address of a request by its protocol.
pub fn outbound_url(protocol: Protocol, base_url: &str) -> (r: String)
    ensures
        r@ == url_of(protocol, base_url@),
{
    let base = text::trim_end_char(base_url, '/');
    let tail = match protocol {
        Protocol::Chat => "/chat/completions",
        Protocol::Responses => "/responses",
        Protocol::Anthropic => if text::ends_with(base.as_str(), "/v1") {
            "/messages"
        } else {
            "/v1/messages"
        },
    };
    text::join2(base.as_str(), tail)
}

/// The request to the upstream for a chat request, with the identifiers that the
/// translation may need given.
pub fn outbound_request_with(
    route: &CustomRoute,
    chat: &Json,
    items: &Vec<Fresh>,
    calls: &Vec<Vec<String>>,
) -> (r: Result<OutboundRequest, GatewayError>)
    ensures
        request_made(r) == request_of(route@, chat@, responses::fresh_view(items@), protocol::grid(calls@)),
{
    let url = outbound_url(route.protocol, route.base_url.as_str());
    let model = provider_loop::model_of(chat);
    match route.protocol {
        Protocol::Chat => Ok(
            OutboundRequest {
                url,
                headers: make_bearer(route.api_key.as_str()),
                payload: chat.copy(),
            },
        ),
        Protocol::Responses => {
            match responses_outbound::responses_request_from_chat_with(chat, model.as_str(), items) {
                Ok(payload) => Ok(
                    OutboundRequest {
                        url,
                        headers: make_bearer(route.api_key.as_str()),
                        payload: labels::streamed_body(&payload),
                    },
                ),
                Err(message) => Err(GatewayError::with_status(400, message)),
            }
        },
        Protocol::Anthropic => {
            match anthropic_outbound::anthropic_request_from_chat_with(chat, model.as_str(), calls) {
                Ok(payload) => Ok(
                    OutboundRequest {
                        url,
                        headers: make_anthropic_headers(route.api_key.as_str()),
                        payload: labels::streamed_body(&payload),
                    },
                ),
                Err(message) => Err(GatewayError::with_status(400, message)),
            }
        },
    }
}

/// The request to the upstream for a chat request.
pub fn outbound_request(route: &CustomRoute, chat: &Json) -> (r: Result<
    OutboundRequest,
    GatewayError,
>)
    ensures
        exists|items: Seq<FreshV>, calls: Seq<Seq<Seq<char>>>|
            #![trigger request_of(route@, chat@, items, calls)]
            responses_outbound::items_fit(anthropic_outbound::messages_in(chat@), items) && anthropic_outbound::calls_fit(anthropic_outbound::messages_in(chat@), calls)
                && request_made(r) == request_of(route@, chat@, items, calls),
{
    let items = responses_outbound::draw_items(chat);
    let calls = anthropic_outbound::draw_calls(chat);
    outbound_request_with(route, chat, &items, &calls)
}

// --------------------------------------------------------------------- errors

/// The text of an error of the upstream.
pub open spec fn upstream_text(status: int, raw: Seq<char>) -> Seq<char> {
    "上游返回 "@ + text::decimal(status as nat) + ": "@ + raw
}

/// What an error of the upstream says; a fixed text where it says nothing.
pub open spec fn raw_text(raw: Seq<char>) -> Seq<char> {
    protocol::or_else(text::trimmed(raw), "上游错误"@)
}

/// When a limit ends, as a text: by the header, else by what the error says.
pub open spec fn limit_until(header: Option<Seq<char>>, now: int, told: int) -> Option<Seq<char>> {
    let by_header = match header {
        Some(h) => time::retry_after_text(h, now),
        None => None,
    };
    match by_header {
        Some(text) => Some(text),
        None => if told > 0 {
            Some(time::time_text(told, time::HYPHENS@))
        } else {
            None
        },
    }
}

/// The error for the client when the upstream has answered with one: a key that was
/// refused, a limit with its end where that is known, or the error as it is.
pub open spec fn custom_error(
    status: int,
    raw: Seq<char>,
    header: Option<Seq<char>>,
    now: int,
    told: int,
) -> ErrorV {
    if status == 401 || status == 403 {
        errors::plain_error(
            status,
            "上游凭证被拒绝（HTTP "@ + text::decimal(status as nat) + "）: "@ + raw_text(raw),
        )
    } else if status == 429 {
        errors::plain_error(
            429,
            match limit_until(header, now, told) {
                Some(text) => upstream_text(status, raw_text(raw)) + ("（"@ + text + " 恢复）"@),
                None => upstream_text(status, raw_text(raw)),
            },
        )
    } else {
        errors::plain_error(status, upstream_text(status, raw_text(raw)))
    }
}

/// The text of an error of the upstream.
pub fn upstream_message(status: u16, raw: &str) -> (r: String)
    ensures
        r@ == upstream_text(status as int, raw_text(raw@)),
{
    let said = protocol::or_text(text::trim(raw), "上游错误");
    let mut out = text::join3("上游返回 ", text::decimal_u64(status as u64).as_str(), ": ");
    out.append(said.as_str());
    out
}

/// The error for the client when the upstream has answered with one. `header` is
/// the header `Retry-After`, `now` the clock and `told` the end of the limit that
/// the text of the error names, both in milliseconds; zero where it names none.
pub fn classify_custom_error(
    status: u16,
    raw: &str,
    header: Option<&str>,
    now: i64,
    told: i64,
) -> (r: GatewayError)
    ensures
        r@ == custom_error(status as int, raw@, json::opt_text(header), now as int, told as int),
{
    if status == 401 || status == 403 {
        let said = protocol::or_text(text::trim(raw), "上游错误");
        let mut message = text::join3(
            "上游凭证被拒绝（HTTP ",
            text::decimal_u64(status as u64).as_str(),
            "）: ",
        );
        message.append(said.as_str());
        return GatewayError::with_status(status as i32, message);
    }
    let message = upstream_message(status, raw);
    if status != 429 {
        return GatewayError::with_status(status as i32, message);
    }
    let by_header = match header {
        Some(h) => time::retry_after_reset_text(h, now),
        None => None,
    };
    let until = match by_header {
        Some(text) => Some(text),
        None => if told > 0 {
            Some(time::reset_text_at(told))
        } else {
            None
        },
    };
    match until {
        Some(text) => {
            let hint = text::join3("（", text.as_str(), " 恢复）");
            GatewayError::with_status(429, text::join2(message.as_str(), hint.as_str()))
        },
        None => GatewayError::with_status(429, message),
    }
}

// -------------------------------------------------------------------- streams

/// The translation of the stream that comes back.
pub enum TranslateMachine {
    Responses(ChatFromResponsesStream),
    Anthropic(ChatFromAnthropicStream),
}

/// What the translation of a stream knows.
#[verifier::ext_equal]
pub enum MachineV {
    Responses(OutboundV),
    Anthropic(InboundV),
}

impl View for TranslateMachine {
    type V = MachineV;

    open spec fn view(&self) -> MachineV {
        match self {
            TranslateMachine::Responses(m) => MachineV::Responses(m@),
            TranslateMachine::Anthropic(m) => MachineV::Anthropic(m@),
        }
    }
}

/// Whether frames follow from bytes.
pub open spec fn push_gives(
    before: MachineV,
    bytes: Seq<u8>,
    after: MachineV,
    out: Seq<bytes::Bytes>,
    given: Seq<Given>,
) -> bool {
    match before {
        MachineV::Responses(st) => {
            let (next, ev) = responses_outbound::push_step(st, bytes, given);
            chunks::all_fit(given, "call"@) && given.len() == protocol::payloads(st.line, bytes).len() && after
                == MachineV::Responses(next) && protocol::wire(out, ev)
        },
        MachineV::Anthropic(st) => {
            let (next, ev) = anthropic_outbound::push_step(st, bytes, given);
            chunks::all_fit(given, "toolu"@) && given.len() == protocol::payloads(st.line, bytes).len() && after
                == MachineV::Anthropic(next) && protocol::wire(out, ev)
        },
    }
}

/// Whether frames follow from the end of the stream.
pub open spec fn finish_gives(
    before: MachineV,
    after: MachineV,
    out: Seq<bytes::Bytes>,
    given: Given,
) -> bool {
    match before {
        MachineV::Responses(st) => {
            let (next, ev) = responses_outbound::finish_step(st, given);
            given.fits("call"@) && after == MachineV::Responses(next) && protocol::wire(out, ev)
        },
        MachineV::Anthropic(st) => {
            let (next, ev) = anthropic_outbound::finish_step(st, given);
            given.fits("toolu"@) && after == MachineV::Anthropic(next) && protocol::wire(out, ev)
        },
    }
}

impl TranslateMachine {
    /// The translation of a stream that has not begun; a chat stream needs none.
    pub fn new(protocol: Protocol, model: &str) -> (r: Option<TranslateMachine>)
        ensures
            match r {
                None => protocol == Protocol::Chat,
                Some(m) => match m@ {
                    MachineV::Responses(st) => protocol == Protocol::Responses && st
                        == responses_outbound::fresh_outbound(model@, st.writer.created),
                    MachineV::Anthropic(st) => protocol == Protocol::Anthropic && st
                        == anthropic_outbound::fresh_inbound(model@, st.writer.created),
                },
            },
    {
        match protocol {
            Protocol::Chat => None,
            Protocol::Responses => Some(
                TranslateMachine::Responses(ChatFromResponsesStream::new(model)),
            ),
            Protocol::Anthropic => Some(
                TranslateMachine::Anthropic(ChatFromAnthropicStream::new(model)),
            ),
        }
    }

    /// Takes in bytes of the upstream and gives out the frames that follow.
    pub fn push(&mut self, chunk: &[u8]) -> (r: Vec<bytes::Bytes>)
        ensures
            exists|given: Seq<Given>| #[trigger]
                push_gives(old(self)@, chunk@, final(self)@, r@, given),
    {
        let ghost before = self@;
        let ghost mut used: Seq<Given> = arbitrary();
        let out = match self {
            TranslateMachine::Responses(m) => {
                let out = m.push(chunk);
                proof {
                    let st = before->Responses_0;
                    let given = choose|given: Seq<Given>|
                        #![trigger responses_outbound::push_step(st, chunk@, given)]
                        chunks::all_fit(given, "call"@) && given.len() == protocol::payloads(st.line, chunk@).len()
                            && m@ == responses_outbound::push_step(st, chunk@, given).0 && protocol::wire(
                            out@,
                            responses_outbound::push_step(st, chunk@, given).1,
                        );
                    used = given;
                }
                out
            },
            TranslateMachine::Anthropic(m) => {
                let out = m.push(chunk);
                proof {
                    let st = before->Anthropic_0;
                    let given = choose|given: Seq<Given>|
                        #![trigger anthropic_outbound::push_step(st, chunk@, given)]
                        chunks::all_fit(given, "toolu"@) && given.len() == protocol::payloads(
                            st.line,
                            chunk@,
                        ).len() && m@ == anthropic_outbound::push_step(st, chunk@, given).0
                            && protocol::wire(out@, anthropic_outbound::push_step(st, chunk@, given).1);
                    used = given;
                }
                out
            },
        };
        proof {
            assert(push_gives(before, chunk@, self@, out@, used));
        }
        out
    }

    /// Ends the stream and gives out the frames that follow.
    pub fn finish(&mut self) -> (r: Vec<bytes::Bytes>)
        ensures
            exists|given: Given| #[trigger] finish_gives(old(self)@, final(self)@, r@, given),
    {
        let ghost before = self@;
        let ghost mut used: Given = arbitrary();
        let out = match self {
            TranslateMachine::Responses(m) => {
                let out = m.finish();
                proof {
                    let st = before->Responses_0;
                    let given = choose|given: Given|
                        #![trigger responses_outbound::finish_step(st, given)]
                        given.fits("call"@) && m@ == responses_outbound::finish_step(st, given).0
                            && protocol::wire(out@, responses_outbound::finish_step(st, given).1);
                    used = given;
                }
                out
            },
            TranslateMachine::Anthropic(m) => {
                let out = m.finish();
                proof {
                    let st = before->Anthropic_0;
                    let given = choose|given: Given|
                        #![trigger anthropic_outbound::finish_step(st, given)]
                        given.fits("toolu"@) && m@ == anthropic_outbound::finish_step(st, given).0
                            && protocol::wire(out@, anthropic_outbound::finish_step(st, given).1);
                    used = given;
                }
                out
            },
        };
        proof {
            assert(finish_gives(before, self@, out@, used));
        }
        out
    }
}

} // verus!
