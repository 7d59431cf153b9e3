//! Signing in to AutoClaw outside China through Zai or Google.
//!
//! The gateway asks for the settings of a captcha, then for the address of the page on
//! which the user signs in, and at the end trades the code that comes back for
//! credentials. Each of these is a request that is made here, and an answer that is
//! read here; the way between is left to the program.

use crate::errors::{ErrorV, GatewayError};
use crate::errors;
use crate::json::{Json, Jv};
use crate::json;
use crate::protocol;
use crate::text;
use vstd::prelude::*;
use vstd::string::*;

verus! {

/// The path that the browser comes back to begins with this, and ends with the vendor.
pub const CALLBACK_PATH_PREFIX: &'static str = "/auth/callback-";

/// Where the settings of the captcha are asked for.
pub const CAPTCHA_CONFIG_PATH: &'static str = "/userapi/overseasv1/oauth-captcha-config";

/// How long each request may take, in milliseconds.
pub const REQUEST_TIMEOUT_MS: u64 = 15000;

/// With whom the user signs in.
#[derive(Clone, Copy, Debug, PartialEq, Eq, Structural)]
pub enum Vendor {
    Zai,
    Google,
}

impl Vendor {
    /// How the vendor is written in requests and paths.
    pub open spec fn name(self) -> Seq<char> {
        match self {
            Vendor::Zai => "zai"@,
            Vendor::Google => "google"@,
        }
    }

    /// What the vendor is called.
    pub open spec fn shown(self) -> Seq<char> {
        match self {
            Vendor::Zai => "Zai"@,
            Vendor::Google => "Google"@,
        }
    }

    /// How the vendor is written in requests and paths.
    pub fn id(self) -> (r: &'static str)
        ensures
            r@ == self.name(),
    {
        match self {
            Vendor::Zai => "zai",
            Vendor::Google => "google",
        }
    }

    /// The vendor that is written so.
    pub fn from_id(value: &str) -> (r: Option<Vendor>)
        ensures
            r == vendor_named(value@),
    {
        if text::same(value, "zai") {
            Some(Vendor::Zai)
        } else if text::same(value, "google") {
            Some(Vendor::Google)
        } else {
            None
        }
    }

    /// What the vendor is called.
    pub fn label(self) -> (r: &'static str)
        ensures
            r@ == self.shown(),
    {
        match self {
            Vendor::Zai => "Zai",
            Vendor::Google => "Google",
        }
    }

    /// Where the address of the page is asked for.
    pub open spec fn url_at(self) -> Seq<char> {
        match self {
            Vendor::Zai => "/userapi/overseasv1/zai-oauth-url"@,
            Vendor::Google => "/userapi/overseasv1/google-oauth-url"@,
        }
    }

    /// Where the code is traded.
    pub open spec fn login_at(self) -> Seq<char> {
        match self {
            Vendor::Zai => "/userapi/overseasv1/zai-oauth-login"@,
            Vendor::Google => "/userapi/overseasv1/google-oauth-login"@,
        }
    }

    /// Where the address of the page is asked for.
    fn url_path(self) -> (r: &'static str)
        ensures
            r@ == self.url_at(),
    {
        match self {
            Vendor::Zai => "/userapi/overseasv1/zai-oauth-url",
            Vendor::Google => "/userapi/overseasv1/google-oauth-url",
        }
    }

    /// Where the code is traded.
    fn login_path(self) -> (r: &'static str)
        ensures
            r@ == self.login_at(),
    {
        match self {
            Vendor::Zai => "/userapi/overseasv1/zai-oauth-login",
            Vendor::Google => "/userapi/overseasv1/google-oauth-login",
        }
    }
}

/// The vendor that is written so.
pub open spec fn vendor_named(value: Seq<char>) -> Option<Vendor> {
    if value == "zai"@ {
        Some(Vendor::Zai)
    } else if value == "google"@ {
        Some(Vendor::Google)
    } else {
        None
    }
}

/// A vendor is found again by how it is written, and nothing else finds one.
pub proof fn vendor_found_again(vendor: Vendor, value: Seq<char>)
    ensures
        vendor_named(vendor.name()) == Some(vendor),
        vendor_named(value) == Some(vendor) ==> value == vendor.name(),
{
    reveal_strlit("zai");
    reveal_strlit("google");
    assert("zai"@.len() != "google"@.len());
}

/// The address that the browser comes back to; the base is the gateway's own.
pub fn navigate_uri(callback_base: &str, vendor: Vendor) -> (r: String)
    ensures
        r@ == text::trimmed_end(callback_base@, '/') + CALLBACK_PATH_PREFIX@ + vendor.name(),
{
    text::join3(text::trim_end_char(callback_base, '/').as_str(), CALLBACK_PATH_PREFIX, vendor.id())
}

// ------------------------------------------------------------------- requests

/// A request: where it goes, what it says, and what it is called in errors.
pub struct OauthRequest {
    pub path: String,
    pub body: Json,
    pub what: String,
}

/// A request: where it goes, what it says, and what it is called in errors.
#[verifier::ext_equal]
pub struct OauthRequestV {
    pub path: Seq<char>,
    pub body: Jv,
    pub what: Seq<char>,
}

impl View for OauthRequest {
    type V = OauthRequestV;

    open spec fn view(&self) -> OauthRequestV {
        OauthRequestV { path: self.path@, body: self.body@, what: self.what@ }
    }
}

/// A request that may have failed.
pub open spec fn request_or_error(r: Result<OauthRequest, GatewayError>) -> Result<
    OauthRequestV,
    ErrorV,
> {
    match r {
        Ok(x) => Ok(x@),
        Err(e) => Err(e@),
    }
}

/// A text that may have failed.
pub open spec fn text_or_error(r: Result<String, GatewayError>) -> Result<Seq<char>, ErrorV> {
    match r {
        Ok(s) => Ok(s@),
        Err(e) => Err(e@),
    }
}

/// A value that may have failed.
pub open spec fn value_or_error(r: Result<Json, GatewayError>) -> Result<Jv, ErrorV> {
    match r {
        Ok(j) => Ok(j@),
        Err(e) => Err(e@),
    }
}

/// What came of a request: an answer with its status and its payload, or nothing in
/// time, or a failure on the way.
pub enum Reply {
    Answer { status: u16, ok: bool, payload: Option<Json> },
    TimedOut,
    Failed { error: String },
}

/// What came of a request.
#[verifier::ext_equal]
pub enum ReplyV {
    Answer { status: int, ok: bool, payload: Option<Jv> },
    TimedOut,
    Failed { error: Seq<char> },
}

impl View for Reply {
    type V = ReplyV;

    open spec fn view(&self) -> ReplyV {
        match self {
            Reply::Answer { status, ok, payload } => ReplyV::Answer {
                status: *status as int,
                ok: *ok,
                payload: json::opt_owned(*payload),
            },
            Reply::TimedOut => ReplyV::TimedOut,
            Reply::Failed { error } => ReplyV::Failed { error: error@ },
        }
    }
}

/// The payload of an answer, or the error that it comes to.
pub open spec fn payload_in(what: Seq<char>, reply: ReplyV) -> Result<Jv, ErrorV> {
    match reply {
        ReplyV::Answer { status, ok, payload } => if ok {
            Ok(
                match payload {
                    Some(v) => v,
                    None => Jv::Null,
                },
            )
        } else {
            Err(errors::plain_error(status, what + "返回 HTTP "@ + text::decimal(status as nat)))
        },
        ReplyV::TimedOut => Err(errors::plain_error(504, what + "超时"@)),
        ReplyV::Failed { error } => Err(errors::plain_error(502, what + "失败: "@ + error)),
    }
}

/// The payload of an answer, or the error that it comes to.
pub fn reply_payload(what: &str, reply: Reply) -> (r: Result<Json, GatewayError>)
    ensures
        value_or_error(r) == payload_in(what@, reply@),
{
    match reply {
        Reply::Answer { status, ok, payload } => if ok {
            match payload {
                Some(v) => Ok(v),
                None => Ok(Json::Null),
            }
        } else {
            Err(
                GatewayError::with_status(
                    status as i32,
                    text::join3(what, "返回 HTTP ", text::decimal_u64(status as u64).as_str()),
                ),
            )
        },
        Reply::TimedOut => Err(GatewayError::with_status(504, text::join2(what, "超时"))),
        Reply::Failed { error } => Err(
            GatewayError::with_status(502, text::join3(what, "失败: ", error.as_str())),
        ),
    }
}

/// What a number that the upstream gives for a failure means. The upstream's own words
/// for a missing captcha would send the user the wrong way.
pub open spec fn failure_text(code: int, words: Seq<char>) -> Seq<char> {
    if code == 631002 {
        "本次登录缺少风控验证（验证码未通过或已过期），请重新点击登录再试一次"@
    } else if code == 630014 {
        "风控验证未通过，请重新点击登录再试一次"@
    } else if code == 631001 {
        "授权码无效或已过期，请重新点击登录"@
    } else if code == 400001 {
        "请求参数有误（登录链路内部错误，请重试）"@
    } else if code == 400002 {
        "请求签名校验失败（本机时钟可能有偏差），请校准系统时间后重试"@
    } else if text::blank(words) {
        "登录失败（上游 code="@ + text::decimal_int(code) + "）"@
    } else {
        "登录失败："@ + text::trimmed(words)
    }
}

/// What a number that the upstream gives for a failure means.
pub fn describe_oauth_error(code: i64, upstream_msg: &str) -> (r: String)
    ensures
        r@ == failure_text(code as int, upstream_msg@),
{
    if code == 631002 {
        "本次登录缺少风控验证（验证码未通过或已过期），请重新点击登录再试一次".to_owned()
    } else if code == 630014 {
        "风控验证未通过，请重新点击登录再试一次".to_owned()
    } else if code == 631001 {
        "授权码无效或已过期，请重新点击登录".to_owned()
    } else if code == 400001 {
        "请求参数有误（登录链路内部错误，请重试）".to_owned()
    } else if code == 400002 {
        "请求签名校验失败（本机时钟可能有偏差），请校准系统时间后重试".to_owned()
    } else {
        let words = text::trim(upstream_msg);
        if words.as_str().is_empty() {
            text::join3("登录失败（上游 code=", text::decimal_i64(code).as_str(), "）")
        } else {
            text::join2("登录失败：", words.as_str())
        }
    }
}

/// The error that a payload tells of, with the status that the step has for it.
pub open spec fn told_failure(payload: Jv, status: int) -> Option<ErrorV> {
    let code = json::int_or_zero(payload.get("code"@));
    if code != 0 {
        Some(errors::plain_error(status, failure_text(code, json::str_or_empty(payload.get("msg"@)))))
    } else {
        None
    }
}

/// The error that a payload tells of.
fn find_failure(payload: &Json, status: i32) -> (r: Option<GatewayError>)
    ensures
        r is Some <==> told_failure(payload@, status as int) is Some,
        r matches Some(e) ==> told_failure(payload@, status as int) == Some(e@),
{
    let code = json::int_or(payload.get("code"));
    if code != 0 {
        let words = json::str_or(payload.get("msg"));
        Some(GatewayError::with_status(status, describe_oauth_error(code, words.as_str())))
    } else {
        None
    }
}

/// A member of the data as a text without the white space at its ends.
pub open spec fn data_text(payload: Jv, key: Seq<char>) -> Seq<char> {
    text::trimmed(json::str_or_empty(json::opt_get(payload.get("data"@), key)))
}

/// A member of the data as a text.
fn read_text(payload: &Json, key: &str) -> (r: String)
    ensures
        r@ == data_text(payload@, key@),
{
    text::trim(json::str_or(json::get_in(payload.get("data"), key)).as_str())
}

// -------------------------------------------------------------------- captcha

/// The request for the settings of the captcha.
pub fn captcha_request() -> (r: OauthRequest)
    ensures
        r@ == (OauthRequestV {
            path: CAPTCHA_CONFIG_PATH@,
            body: Jv::obj(),
            what: "获取风控验证配置"@,
        }),
{
    OauthRequest {
        path: CAPTCHA_CONFIG_PATH.to_owned(),
        body: Json::obj(),
        what: "获取风控验证配置".to_owned(),
    }
}

/// The settings of the captcha. That there is none is no error.
pub open spec fn captcha_in(payload: Jv) -> Result<Jv, ErrorV> {
    match told_failure(payload, 502) {
        Some(e) => Err(e),
        None => Ok(
            Jv::obj().put(
                "enabled"@,
                Jv::Bool(
                    json::opt_get(payload.get("data"@), "enabled"@) == Some(Jv::Bool(true)),
                ),
            ).put("region"@, Jv::Str(data_text(payload, "region"@))).put(
                "prefix"@,
                Jv::Str(data_text(payload, "prefix"@)),
            ).put("sceneId"@, Jv::Str(data_text(payload, "scene_id"@))).put(
                "supplier"@,
                Jv::Str(data_text(payload, "captcha_supplier"@)),
            ),
        ),
    }
}

/// The settings of the captcha in a payload.
pub fn captcha_config(payload: &Json) -> (r: Result<Json, GatewayError>)
    ensures
        value_or_error(r) == captcha_in(payload@),
{
    if let Some(e) = find_failure(payload, 502) {
        return Err(e);
    }
    let enabled = match json::get_in(payload.get("data"), "enabled") {
        Some(v) => match v.as_bool() {
            Some(b) => b,
            None => false,
        },
        None => false,
    };
    Ok(
        Json::obj().with("enabled", Json::Bool(enabled)).with(
            "region",
            Json::Str(read_text(payload, "region")),
        ).with("prefix", Json::Str(read_text(payload, "prefix"))).with(
            "sceneId",
            Json::Str(read_text(payload, "scene_id")),
        ).with("supplier", Json::Str(read_text(payload, "captcha_supplier"))),
    )
}

// ---------------------------------------------------------------- sign-in page

/// The request for the address of the page. Without the outcome of the captcha none is
/// made.
pub open spec fn url_request(
    vendor: Vendor,
    navigate: Seq<char>,
    captcha: Seq<char>,
    device: Seq<char>,
) -> Result<OauthRequestV, ErrorV> {
    if text::blank(captcha) {
        Err(errors::plain_error(400, "缺少风控验证参数，请先完成验证码"@))
    } else {
        Ok(
            OauthRequestV {
                path: vendor.url_at(),
                body: Jv::obj().put("source_id"@, Jv::Str("autoclaw"@)).put(
                    "device_id"@,
                    Jv::Str(device),
                ).put("navigate_uri"@, Jv::Str(navigate)).put(
                    "ali_captcha_verify_param"@,
                    Jv::Str(text::trimmed(captcha)),
                ),
                what: "获取 "@ + vendor.shown() + " 授权地址"@,
            },
        )
    }
}

/// The request for the address of the page on which the user signs in.
pub fn request_oauth_url(
    vendor: Vendor,
    navigate_uri: &str,
    captcha_verify_param: &str,
    device_id: &str,
) -> (r: Result<OauthRequest, GatewayError>)
    ensures
        request_or_error(r) == url_request(
            vendor,
            navigate_uri@,
            captcha_verify_param@,
            device_id@,
        ),
{
    let captcha = text::trim(captcha_verify_param);
    if captcha.as_str().is_empty() {
        return Err(
            GatewayError::with_status(400, "缺少风控验证参数，请先完成验证码".to_owned()),
        );
    }
    let body = Json::obj().with("source_id", Json::str("autoclaw")).with(
        "device_id",
        Json::str(device_id),
    ).with("navigate_uri", Json::str(navigate_uri)).with(
        "ali_captcha_verify_param",
        Json::Str(captcha),
    );
    Ok(
        OauthRequest {
            path: vendor.url_path().to_owned(),
            body,
            what: text::join3("获取 ", vendor.label(), " 授权地址"),
        },
    )
}

/// The address of the page in a payload.
pub open spec fn url_in(payload: Jv) -> Result<Seq<char>, ErrorV> {
    match told_failure(payload, 400) {
        Some(e) => Err(e),
        None => {
            let url = data_text(payload, "oauth_url"@);
            if url.len() == 0 {
                Err(errors::plain_error(502, "上游没有返回授权地址，请重试"@))
            } else {
                Ok(url)
            }
        },
    }
}

/// The address of the page in a payload.
pub fn oauth_url(payload: &Json) -> (r: Result<String, GatewayError>)
    ensures
        text_or_error(r) == url_in(payload@),
{
    if let Some(e) = find_failure(payload, 400) {
        return Err(e);
    }
    let url = read_text(payload, "oauth_url");
    if url.as_str().is_empty() {
        return Err(
            GatewayError::with_status(502, "上游没有返回授权地址，请重试".to_owned()),
        );
    }
    Ok(url)
}

// ----------------------------------------------------------------- credentials

/// The request that trades the code of a login for credentials.
pub open spec fn login_request(
    vendor: Vendor,
    code: Seq<char>,
    state: Seq<char>,
    navigate: Seq<char>,
    device: Seq<char>,
) -> OauthRequestV {
    OauthRequestV {
        path: vendor.login_at(),
        body: Jv::obj().put("source_id"@, Jv::Str("autoclaw"@)).put("device_id"@, Jv::Str(device)).put(
            "code"@,
            Jv::Str(code),
        ).put("state"@, Jv::Str(state)).put("navigate_uri"@, Jv::Str(navigate)),
        what: vendor.shown() + " 登录换取凭证"@,
    }
}

/// The request that trades the code.
pub fn exchange_code(
    vendor: Vendor,
    code: &str,
    state: &str,
    navigate_uri: &str,
    device_id: &str,
) -> (r: OauthRequest)
    ensures
        r@ == login_request(vendor, code@, state@, navigate_uri@, device_id@),
{
    let body = Json::obj().with("source_id", Json::str("autoclaw")).with(
        "device_id",
        Json::str(device_id),
    ).with("code", Json::str(code)).with("state", Json::str(state)).with(
        "navigate_uri",
        Json::str(navigate_uri),
    );
    OauthRequest {
        path: vendor.login_path().to_owned(),
        body,
        what: text::join2(vendor.label(), " 登录换取凭证"),
    }
}

/// A member that is there where its text is not empty.
pub open spec fn if_any(text: Seq<char>) -> Option<Jv> {
    if text.len() > 0 {
        Some(Jv::Str(text))
    } else {
        None
    }
}

/// The credentials in a payload; without a token there are none.
pub open spec fn credentials_in(payload: Jv, device: Seq<char>) -> Result<Jv, ErrorV> {
    match told_failure(payload, 400) {
        Some(e) => Err(e),
        None => {
            let token = data_text(payload, "access_token"@);
            if token.len() == 0 {
                Err(errors::plain_error(502, "登录成功但上游没有返回 access_token"@))
            } else {
                Ok(
                    Jv::obj().put("token"@, Jv::Str(token)).put(
                        "deviceId"@,
                        Jv::Str(device),
                    ).put_some(
                        "refreshToken"@,
                        if_any(data_text(payload, "refresh_token"@)),
                    ).put_some("userName"@, if_any(data_text(payload, "user_name"@))),
                )
            }
        },
    }
}

/// The credentials in a payload.
pub fn credentials(payload: &Json, device_id: &str) -> (r: Result<Json, GatewayError>)
    ensures
        value_or_error(r) == credentials_in(payload@, device_id@),
{
    if let Some(e) = find_failure(payload, 400) {
        return Err(e);
    }
    let token = read_text(payload, "access_token");
    if token.as_str().is_empty() {
        return Err(
            GatewayError::with_status(502, "登录成功但上游没有返回 access_token".to_owned()),
        );
    }
    let mut out = Json::obj().with("token", Json::Str(token)).with(
        "deviceId",
        Json::str(device_id),
    );
    let refresh = read_text(payload, "refresh_token");
    if !refresh.as_str().is_empty() {
        out.put("refreshToken", Json::Str(refresh));
    }
    let user = read_text(payload, "user_name");
    if !user.as_str().is_empty() {
        out.put("userName", Json::Str(user));
    }
    Ok(out)
}

// ---------------------------------------------------------------------- device

/// The identifier of a device: thirty-two bytes in hexadecimal.
pub fn device_id_of(first: [u8; 16], second: [u8; 16]) -> (r: String)
    ensures
        r@ == protocol::hex_bytes(first@) + protocol::hex_bytes(second@),
        r@.len() == 64,
        protocol::is_hex(r@),
{
    proof {
        protocol::hex_bytes_is_hex(first@);
        protocol::hex_bytes_is_hex(second@);
    }
    text::join2(protocol::hex_text(&first).as_str(), protocol::hex_text(&second).as_str())
}

/// A fresh identifier of a device; none where the random source fails.
pub fn new_oauth_device_id() -> (r: Option<String>)
    ensures
        r matches Some(id) ==> id@.len() == 64 && protocol::is_hex(id@),
{
    match (protocol::random_bytes(), protocol::random_bytes()) {
        (Some(first), Some(second)) => Some(device_id_of(first, second)),
        _ => None,
    }
}

} // verus!
