//! Signing in: what is asked of the service, and what its answers mean.

use crate::errors::ErrorV;
use crate::json::Jv;
use crate::json;
use crate::laws::{holds, within};
use crate::providers::autoclaw::oauth::{ReplyV, Vendor};
use crate::providers::autoclaw::oauth;
use crate::text;
use vstd::prelude::*;
use vstd::string::*;

verus! {

/// An answer that is fine is taken as it is, and any other is an error with its status: a late
/// one a timeout, one that does not come a bad gateway.
pub proof fn replies_are_read(what: Seq<char>, status: int, payload: Option<Jv>, error: Seq<char>)
    ensures
        oauth::payload_in(what, ReplyV::Answer { status, ok: true, payload }) == Ok::<Jv, ErrorV>(
            match payload {
                Some(v) => v,
                None => Jv::Null,
            },
        ),
        oauth::payload_in(what, ReplyV::Answer { status, ok: false, payload }) matches Err(e) && e.status
            == status,
        oauth::payload_in(what, ReplyV::TimedOut) matches Err(e) && e.status == 504,
        oauth::payload_in(what, ReplyV::Failed { error }) matches Err(e) && e.status == 502,
{
}

/// A code in an answer is a failure, whatever else it holds, in the words of the service where
/// the code is not a known one.
pub proof fn codes_are_failures(payload: Jv, code: int, msg: Seq<char>, device: Seq<char>)
    requires
        payload.get("code"@) == Some(Jv::Int(code)),
        i64::MIN <= code <= i64::MAX,
        code != 0,
        holds(payload, "msg"@, msg),
    ensures
        oauth::url_in(payload) matches Err(e) && e.status == 400,
        oauth::credentials_in(payload, device) matches Err(e) && e.status == 400,
        oauth::captcha_in(payload) matches Err(e) && e.status == 502,
        code != 631002 && code != 630014 && code != 631001 && code != 400001 && code != 400002
            && text::trimmed(msg).len() > 0 ==> (oauth::url_in(payload) matches Err(e) && e.message
            == "登录失败："@ + text::trimmed(msg)),
{
}

/// The address to sign in at is the one that the service gives; without one there is an error.
pub proof fn address_is_given(payload: Jv, url: Seq<char>)
    requires
        payload.get("code"@) is None || payload.get("code"@) == Some(Jv::Int(0)),
        within(payload, "data"@, "oauth_url"@) == Some(Jv::Str(url)),
    ensures
        text::trimmed(url).len() > 0 ==> oauth::url_in(payload) == Ok::<Seq<char>, ErrorV>(
            text::trimmed(url),
        ),
        text::trimmed(url).len() == 0 ==> (oauth::url_in(payload) matches Err(e) && e.status == 502),
{
}

/// The credentials of a login: the token, the device, and what else the service gives.
pub proof fn credentials_are_kept(payload: Jv, token: Seq<char>, device: Seq<char>)
    requires
        payload.get("code"@) is None || payload.get("code"@) == Some(Jv::Int(0)),
        within(payload, "data"@, "access_token"@) == Some(Jv::Str(token)),
    ensures
        text::trimmed(token).len() == 0 ==> (oauth::credentials_in(payload, device) matches Err(e)
            && e.status == 502),
        text::trimmed(token).len() > 0 ==> (oauth::credentials_in(payload, device) matches Ok(c) && {
            &&& holds(c, "token"@, text::trimmed(token))
            &&& holds(c, "deviceId"@, device)
            &&& (within(payload, "data"@, "refresh_token"@) matches Some(Jv::Str(s)) ==> text::trimmed(
                s,
            ).len() > 0 ==> holds(c, "refreshToken"@, text::trimmed(s)))
            &&& within(payload, "data"@, "refresh_token"@) is None ==> c.get("refreshToken"@) is None
            &&& (within(payload, "data"@, "user_name"@) matches Some(Jv::Str(s)) ==> text::trimmed(
                s,
            ).len() > 0 ==> holds(c, "userName"@, text::trimmed(s)))
        }),
{
    reveal_strlit("token");
    reveal_strlit("deviceId");
    reveal_strlit("refreshToken");
    reveal_strlit("userName");
    assert("token"@.len() == 5);
    assert("deviceId"@.len() == 8);
    assert("userName"@.len() == 8);
    assert("refreshToken"@.len() == 12);
    assert("deviceId"@[0] == 'd');
    assert("userName"@[0] == 'u');
}

/// What is asked for the address: the captcha first, then the device and where to come back to.
pub proof fn address_is_asked_for(
    vendor: Vendor,
    navigate: Seq<char>,
    captcha: Seq<char>,
    device: Seq<char>,
)
    ensures
        text::trimmed(captcha).len() == 0 ==> (oauth::url_request(vendor, navigate, captcha, device)
            matches Err(e) && e.status == 400),
        text::trimmed(captcha).len() > 0 ==> (oauth::url_request(vendor, navigate, captcha, device)
            matches Ok(r) && {
            &&& vendor is Zai ==> r.path == "/userapi/overseasv1/zai-oauth-url"@
            &&& vendor is Google ==> r.path == "/userapi/overseasv1/google-oauth-url"@
            &&& holds(r.body, "source_id"@, "autoclaw"@)
            &&& holds(r.body, "device_id"@, device)
            &&& holds(r.body, "navigate_uri"@, navigate)
            &&& holds(r.body, "ali_captcha_verify_param"@, text::trimmed(captcha))
        }),
{
    reveal_strlit("source_id");
    reveal_strlit("device_id");
    reveal_strlit("navigate_uri");
    reveal_strlit("ali_captcha_verify_param");
    assert("source_id"@.len() == 9);
    assert("device_id"@.len() == 9);
    assert("source_id"@[0] == 's');
    assert("device_id"@[0] == 'd');
    assert("navigate_uri"@.len() == 12);
    assert("ali_captcha_verify_param"@.len() == 24);
}

/// What is known of the captcha: whether it is wanted, and where it comes from.
pub proof fn captcha_is_told(payload: Jv, data: Jv)
    requires
        payload.get("code"@) is None || payload.get("code"@) == Some(Jv::Int(0)),
        payload.get("data"@) == Some(data),
    ensures
        oauth::captcha_in(payload) matches Ok(c) && {
            &&& c.get("enabled"@) == Some(Jv::Bool(data.get("enabled"@) == Some(Jv::Bool(true))))
            &&& told(c, "region"@, data, "region"@)
            &&& told(c, "prefix"@, data, "prefix"@)
            &&& told(c, "sceneId"@, data, "scene_id"@)
            &&& told(c, "supplier"@, data, "captcha_supplier"@)
        },
{
    reveal_strlit("enabled");
    reveal_strlit("region");
    reveal_strlit("prefix");
    reveal_strlit("sceneId");
    reveal_strlit("supplier");
    assert("enabled"@.len() == 7);
    assert("sceneId"@.len() == 7);
    assert("enabled"@[0] == 'e');
    assert("sceneId"@[0] == 's');
    assert("region"@.len() == 6);
    assert("prefix"@.len() == 6);
    assert("region"@[0] == 'r');
    assert("prefix"@[0] == 'p');
    assert("supplier"@.len() == 8);
}

/// Whether a text of the data stands under another member, without the white space at its ends.
pub open spec fn told(c: Jv, key: Seq<char>, data: Jv, from: Seq<char>) -> bool {
    data.get(from) matches Some(Jv::Str(s)) ==> holds(c, key, text::trimmed(s))
}

/// What is sent to trade the code of a login for credentials: the code and the state that came
/// back, with the device and where they came back to.
pub proof fn codes_are_traded(
    vendor: Vendor,
    code: Seq<char>,
    state: Seq<char>,
    navigate: Seq<char>,
    device: Seq<char>,
)
    ensures
        ({
            let r = oauth::login_request(vendor, code, state, navigate, device);
            &&& vendor is Zai ==> r.path == "/userapi/overseasv1/zai-oauth-login"@
            &&& vendor is Google ==> r.path == "/userapi/overseasv1/google-oauth-login"@
            &&& holds(r.body, "source_id"@, "autoclaw"@)
            &&& holds(r.body, "device_id"@, device)
            &&& holds(r.body, "code"@, code)
            &&& holds(r.body, "state"@, state)
            &&& holds(r.body, "navigate_uri"@, navigate)
        }),
{
    reveal_strlit("source_id");
    reveal_strlit("device_id");
    reveal_strlit("navigate_uri");
    reveal_strlit("code");
    reveal_strlit("state");
    assert("source_id"@.len() == 9);
    assert("device_id"@.len() == 9);
    assert("source_id"@[0] == 's');
    assert("device_id"@[0] == 'd');
    assert("navigate_uri"@.len() == 12);
    assert("code"@.len() == 4);
    assert("state"@.len() == 5);
}

} // verus!
