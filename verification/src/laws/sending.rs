//! How a request is sent: to whom, in what form, and what follows a failure.

use crate::double;
use crate::errors::ErrorV;
use crate::errors;
use crate::json::Jv;
use crate::json;
use crate::laws::holds;
use crate::laws::within;
use crate::lists;
use crate::protocol::responses::FreshV;
use crate::protocol::responses_outbound;
use crate::protocol;
use crate::providers::custom::forward::{Protocol, RouteV};
use crate::providers::custom::forward;
use crate::providers;
use crate::routing::{ChoiceV, KeysV};
use crate::routing;
use crate::text;
use crate::upstream::provider_loop::{AdviceV, BudgetV, ClassV, DispatchV, FailureV, QueueV, ScopeV, SendV, StepV};
use crate::upstream::provider_loop;
use crate::upstream::usage::TelemetryV;
use vstd::prelude::*;
use vstd::string::*;

verus! {

// -------------------------------------------------------------- sending again

/// Whether an answer tells of a trouble that may pass.
pub open spec fn may_pass(status: int) -> bool {
    status == 408 || status == 500 || status == 502 || status == 503 || status == 504
}

/// Whether what follows is to send the same once more after that delay, at the cost of one
/// attempt.
pub open spec fn sent_again(
    b: BudgetV,
    out: (BudgetV, TelemetryV, SendV, bool),
    delay: int,
) -> bool {
    &&& out.2 matches SendV::Resend { delay: d, .. } && d == delay
    &&& out.0.remaining == b.remaining - 1
    &&& out.0.total == b.total
}

/// Whether what follows is to give up with that error, at no cost.
pub open spec fn given_up(
    b: BudgetV,
    t: TelemetryV,
    out: (BudgetV, TelemetryV, SendV, bool),
    class: ClassV,
    status: int,
    message: Seq<char>,
    code: Option<i64>,
) -> bool {
    &&& out.2 matches SendV::Fail(f) && {
        &&& f.class == class
        &&& f.error.status == status
        &&& f.error.message == message
        &&& f.error.upstream_code == code
        &&& f.error.code is None
    }
    &&& out.0 == b
    &&& out.1 == t
    &&& !out.3
}

/// While there are attempts left, a trouble that may pass and a fatal error are sent again,
/// whatever else is so; content that is blocked is not, before the prompt is a neutral one.
pub proof fn troubles_are_sent_again(
    b: BudgetV,
    t: TelemetryV,
    status: int,
    class: ClassV,
    code: Option<i64>,
    delay: int,
    degraded: bool,
)
    requires
        b.remaining > 0,
        class is ContentBlocked ==> degraded,
    ensures
        may_pass(status) || class is Fatal ==> sent_again(
            b,
            provider_loop::answer_step(b, t, status, class, code, None, delay, degraded),
            delay,
        ),
{
}

/// What the provider itself advises goes first.
pub proof fn own_advice_goes_first(
    b: BudgetV,
    t: TelemetryV,
    status: int,
    class: ClassV,
    code: Option<i64>,
    own: AdviceV,
    delay: int,
    degraded: bool,
)
    requires
        class is ContentBlocked ==> degraded,
        b.remaining > 0,
    ensures
        sent_again(
            b,
            provider_loop::answer_step(b, t, status, class, code, Some(own), delay, degraded),
            own.delay,
        ),
{
}

/// A quota that is used up, a token that has expired and blocked content are not sent again
/// unless the trouble may pass; nothing is when there are no attempts left.
pub proof fn others_are_given_up(
    b: BudgetV,
    t: TelemetryV,
    status: int,
    class: ClassV,
    code: Option<i64>,
    delay: int,
    degraded: bool,
)
    requires
        b.remaining == 0 || !may_pass(status),
        b.remaining == 0 || class !is Fatal,
    ensures
        ({
            let out = provider_loop::answer_step(b, t, status, class, code, None, delay, degraded);
            match class {
                ClassV::QuotaLimited { status: own, message, upstream_code, .. } => given_up(
                    b,
                    t,
                    out,
                    class,
                    own as int,
                    message,
                    upstream_code,
                ),
                ClassV::ContentBlocked { status: own, message, upstream_code } => given_up(
                    b,
                    t,
                    out,
                    class,
                    own as int,
                    message,
                    upstream_code,
                ),
                ClassV::Fatal { status: own, message, upstream_code } => given_up(
                    b,
                    t,
                    out,
                    class,
                    own as int,
                    message,
                    upstream_code,
                ),
                ClassV::TokenExpired { message } => given_up(b, t, out, class, status, message, code),
            }
        }),
{
}

/// Blocked content is given up at once while the prompt is not a neutral one.
pub proof fn blocked_content_is_given_up(
    b: BudgetV,
    t: TelemetryV,
    status: int,
    class: ClassV,
    code: Option<i64>,
    own: Option<AdviceV>,
    delay: int,
)
    requires
        class is ContentBlocked,
    ensures
        provider_loop::answer_step(b, t, status, class, code, own, delay, false).2 is Fail,
{
}

/// A connection that fails is tried again while there are attempts left, and is then a bad
/// gateway.
pub proof fn connections_are_tried_again(b: BudgetV, t: TelemetryV, error: ErrorV, delay: int)
    ensures
        ({
            let out = provider_loop::transport_step(b, t, error, delay);
            &&& b.remaining > 0 ==> sent_again(b, out, delay)
            &&& b.remaining == 0 ==> out.0 == b && (out.2 matches SendV::Fail(f) && f.error == error && (
            f.class matches ClassV::Fatal { status, message, upstream_code } && status == 502 && message
                == error.message && upstream_code is None))
        }),
{
}

// -------------------------------------------------------------- the next account

/// Blocked content is asked of the same account once more with a neutral prompt, where that may
/// be done and was not done yet.
pub proof fn neutral_prompt_is_tried_once(
    q: QueueV,
    t: TelemetryV,
    account: Option<Seq<char>>,
    failure: FailureV,
)
    requires
        failure.class is ContentBlocked,
    ensures
        ({
            let (after, _, step, _) = provider_loop::failed_step(q, t, account, failure);
            &&& q.degradable && !q.degraded ==> step is Degrade && after == (QueueV {
                degraded: true,
                ..q
            })
            &&& !q.degradable || q.degraded ==> step is Next && after.degraded == q.degraded
        }),
{
}

/// An expired token is renewed once for an account, and the same account asked again.
pub proof fn token_is_renewed_once(
    q: QueueV,
    t: TelemetryV,
    account: Option<Seq<char>>,
    failure: FailureV,
)
    requires
        failure.class is TokenExpired,
    ensures
        ({
            let (after, _, step, _) = provider_loop::failed_step(q, t, account, failure);
            &&& !q.refreshed ==> step is Refresh && after == (QueueV { refreshed: true, ..q })
            &&& q.refreshed ==> step is Next
        }),
{
}

/// An account whose quota is used up rests, with what the upstream tells of it, and is not asked
/// again.
pub proof fn used_up_account_rests(
    q: QueueV,
    t: TelemetryV,
    id: Seq<char>,
    failure: FailureV,
)
    requires
        failure.class is QuotaLimited,
        !q.tried.contains(id),
    ensures
        ({
            let (after, _, step, _) = provider_loop::failed_step(q, t, Some(id), failure);
            &&& step matches StepV::Limit { account, status, code, reset_at } && account == id && status
                == failure.class->QuotaLimited_status && code
                == failure.class->QuotaLimited_upstream_code && reset_at
                == failure.class->QuotaLimited_reset_at
            &&& after.tried.contains(id)
            &&& after.tried == q.tried.push(id)
            &&& after.switches_left == q.switches_left
        }),
{
    let after = provider_loop::failed_step(q, t, Some(id), failure).0;
    assert(after.tried[q.tried.len() as int] == id);
}

/// An account that fails for good is done with: the next one is asked, and this one not again.
pub proof fn failed_account_is_done_with(
    q: QueueV,
    t: TelemetryV,
    id: Seq<char>,
    failure: FailureV,
)
    requires
        failure.class is Fatal,
    ensures
        ({
            let (after, _, step, _) = provider_loop::failed_step(q, t, Some(id), failure);
            &&& step is Next
            &&& after.tried.contains(id)
            &&& after.budget == q.budget && after.switches_left == q.switches_left
        }),
{
    let after = provider_loop::failed_step(q, t, Some(id), failure).0;
    if !q.tried.contains(id) {
        assert(after.tried[q.tried.len() as int] == id);
    }
}

/// A round begins with a token that may be renewed; there are no more than thirty-three.
pub proof fn rounds_are_counted(q: QueueV)
    ensures
        ({
            let (after, e) = provider_loop::round_step(q);
            &&& q.rounds <= 32 ==> e is None && after == (QueueV {
                rounds: q.rounds + 1,
                refreshed: false,
                ..q
            })
            &&& q.rounds > 32 ==> after == q && (e matches Some(e) && e.status == 500)
        }),
{
}

/// After a quota the next account is asked without cost; where there is none, the answer is that
/// of the quota, with all that was told of it.
pub proof fn no_account_is_left(q: QueueV, failure: FailureV, found: bool)
    ensures
        found ==> provider_loop::limited_next(q, failure, found) is None,
        !found && failure.class is QuotaLimited ==> (provider_loop::limited_next(q, failure, found)
            matches Some(e) && e.status == failure.class->QuotaLimited_status && e.upstream_code
            == failure.class->QuotaLimited_upstream_code && e.message.len()
            >= failure.error.message.len() && e.message.take(failure.error.message.len() as int)
            == failure.error.message),
        !found && failure.class !is QuotaLimited ==> provider_loop::limited_next(q, failure, found)
            == Some(failure.error),
{
    if !found && failure.class is QuotaLimited {
        let e = provider_loop::limited_next(q, failure, found)->0;
        assert(e.message.take(failure.error.message.len() as int) =~= failure.error.message);
    }
}

/// After any other failure the next account costs one switch; without one, or without an
/// account, the error is the answer.
pub proof fn switches_are_counted(q: QueueV, error: ErrorV, found: bool)
    ensures
        ({
            let (after, e) = provider_loop::other_next(q, error, found);
            &&& found && q.switches_left > 0 ==> e is None && after.switches_left == q.switches_left - 1
                && after.tried == q.tried && after.budget == q.budget
            &&& !found || q.switches_left == 0 ==> e == Some(error) && after == q
        }),
{
}

/// A custom account rests where it says that there are too many requests, once.
pub proof fn custom_account_rests(q: QueueV, account: Option<Seq<char>>, error: ErrorV)
    ensures
        provider_loop::custom_rests(q, account, error) <==> error.status == 429 && (account matches Some(
            id,
        ) && !q.tried.contains(id)),
{
}

// -------------------------------------------------------------- candidates

proof fn allowed_says(list: Seq<Seq<char>>, scope: Option<ScopeV>, n: nat, x: Seq<char>)
    requires
        n <= list.len(),
    ensures
        provider_loop::allowed(list, scope, n).contains(x) <==> (exists|i: int|
            0 <= i < n && #[trigger] list[i] == x) && (scope matches Some(s) ==> !s.restricted
            || s.providers.contains(x)),
    decreases n,
{
    if n > 0 {
        allowed_says(list, scope, (n - 1) as nat, x);
        let before = provider_loop::allowed(list, scope, (n - 1) as nat);
        let out = provider_loop::allowed(list, scope, n);
        if provider_loop::scope_allows(scope, list[n - 1]) {
            assert(out[before.len() as int] == list[n - 1]);
            if before.contains(x) {
                let i = choose|i: int| 0 <= i < before.len() && before[i] == x;
                assert(out[i] == x);
            }
            if out.contains(x) {
                let i = choose|i: int| 0 <= i < out.len() && out[i] == x;
                if i < before.len() {
                    assert(before[i] == x);
                }
            }
        }
    }
}

/// A key sees exactly the candidates that it may use; where there is none of them the model is
/// not found, and where there is no candidate at all it is closed or there is no provider.
pub proof fn key_sees_its_providers(
    list: Seq<Seq<char>>,
    closed: bool,
    scope: Option<ScopeV>,
    model: Seq<char>,
    x: Seq<char>,
)
    ensures
        match provider_loop::candidates_of(list, closed, scope, model) {
            Ok(kept) => kept.len() > 0 && (kept.contains(x) <==> list.contains(x) && (
            scope matches Some(s) ==> !s.restricted || s.providers.contains(x))),
            Err(e) => {
                &&& list.contains(x) ==> (scope matches Some(s) && s.restricted && !s.providers.contains(
                    x,
                ))
                &&& list.len() > 0 || closed ==> e.status == 404 && e.code == Some("model_not_found"@)
                &&& list.len() == 0 && !closed ==> e.status == 500 && e.code is None
            },
        },
{
    allowed_says(list, scope, list.len(), x);
    let kept = provider_loop::allowed(list, scope, list.len());
    if list.contains(x) {
        let i = choose|i: int| 0 <= i < list.len() && list[i] == x;
        assert(list[i] == x);
    }
}

/// Who sends a request: a custom provider its own way, an unknown provider nobody, a provider
/// that keeps conversations its own way; without an account only one that needs none.
pub proof fn requests_are_dispatched(
    provider: Seq<char>,
    stateful: bool,
    has_account: bool,
    anonymous: bool,
)
    ensures
        ({
            let out = provider_loop::dispatch_of(provider, stateful, has_account, anonymous);
            let custom = providers::is_custom(provider);
            let known = providers::kind_of(provider) is Some;
            &&& out is Custom <==> custom
            &&& out is Conversation <==> !custom && known && stateful
            &&& out is Plain <==> !custom && known && !stateful && (has_account || anonymous)
            &&& (out matches DispatchV::Refused(e) ==> e.status == 503)
        }),
{
}

// -------------------------------------------------------------- custom providers

/// Where a request to a custom provider goes: under its address, which may end with a slash or
/// not, to the path of its protocol; for Messages the version is not said twice.
pub proof fn paths_follow_the_protocol(base: Seq<char>)
    requires
        base.len() == 0 || base.last() != '/',
    ensures
        forall|url: Seq<char>|
            url == base || url == base.push('/') ==> {
                &&& #[trigger] forward::url_of(Protocol::Chat, url) == base + "/chat/completions"@
                &&& forward::url_of(Protocol::Responses, url) == base + "/responses"@
                &&& base.len() >= 3 && base.skip(base.len() - 3) == "/v1"@ ==> forward::url_of(
                    Protocol::Anthropic,
                    url,
                ) == base + "/messages"@
                &&& base.len() < 3 || base.skip(base.len() - 3) != "/v1"@ ==> forward::url_of(
                    Protocol::Anthropic,
                    url,
                ) == base + "/v1/messages"@
            },
{
    reveal_strlit("/v1");
    assert(text::trimmed_end(base, '/') == base);
    assert(base.push('/').drop_last() =~= base);
    assert(text::trimmed_end(base.push('/'), '/') == base);
    assert("/v1"@.len() == 3);
}

/// The key goes where the protocol wants it, and nowhere else; the body goes as it is to a chat
/// provider, and as a stream to the others.
pub proof fn keys_go_with_the_request(
    route: RouteV,
    chat: Jv,
    items: Seq<FreshV>,
    calls: Seq<Seq<Seq<char>>>,
)
    ensures
        match forward::request_of(route, chat, items, calls) {
            Ok(r) => {
                &&& r.url == forward::url_of(route.protocol, route.base_url)
                &&& route.protocol is Chat ==> r.payload == chat && r.headers.len() == 2
                    && r.headers[0] == ("Authorization"@, "Bearer "@ + route.api_key)
                &&& route.protocol is Responses ==> r.headers.len() == 2 && r.headers[0] == (
                    "Authorization"@,
                    "Bearer "@ + route.api_key,
                ) && r.payload.get("stream"@) == Some(Jv::Bool(true))
                &&& route.protocol is Anthropic ==> r.headers.len() == 3 && r.headers[0] == (
                    "x-api-key"@,
                    route.api_key,
                ) && r.headers[1] == ("anthropic-version"@, "2023-06-01"@) && r.payload.get("stream"@)
                    == Some(Jv::Bool(true))
                &&& r.headers.last() == ("Content-Type"@, "application/json"@)
            },
            Err(e) => route.protocol !is Chat && e.status == 400 && !(chat.get("messages"@) matches Some(
                Jv::Arr(_),
            )),
        },
{
    if chat.get("messages"@) matches Some(Jv::Arr(messages)) {
        assert(chat is Obj);
    }
}

/// A request that names a model goes under the name that the upstream knows, with the level of
/// the mapping where the client asks for none and thinking is not off; all else stays.
pub proof fn bodies_are_rewritten(
    body: Jv,
    requested: Seq<char>,
    wire: Seq<char>,
    level: Option<Seq<char>>,
    off: bool,
)
    requires
        body is Obj,
        requested.len() > 0,
    ensures
        ({
            let out = forward::rewritten(body, requested, wire, level, off);
            &&& !text::same_fold(wire, requested) ==> holds(out, "model"@, wire)
            &&& text::same_fold(wire, requested) ==> out.get("model"@) == body.get("model"@)
            &&& (level matches Some(s) ==> text::trimmed(s).len() > 0 && !off && body.get(
                "reasoning_effort"@,
            ) is None && body.get("reasoning"@) is None ==> holds(
                out,
                "reasoning_effort"@,
                text::trimmed(s),
            ))
            &&& level is None || off || body.get("reasoning_effort"@) is Some || body.get("reasoning"@) is Some
                ==> out.get("reasoning_effort"@) == body.get("reasoning_effort"@)
            &&& forall|key: Seq<char>|
                key != "model"@ && key != "reasoning_effort"@ ==> #[trigger] out.get(key) == body.get(key)
        }),
        forward::rewritten(body, Seq::empty(), wire, level, off) == body,
{
    reveal_strlit("model");
    reveal_strlit("reasoning_effort");
    reveal_strlit("reasoning");
    assert("model"@.len() == 5);
    assert("reasoning_effort"@.len() == 16);
    assert("reasoning"@.len() == 9);
}

/// The route of a custom provider: the account's own address before that of the provider, the
/// protocol by its name, that of the chat where none is named; each thing that is missing is
/// refused.
pub proof fn custom_routes(
    p: Jv,
    provider_id: Seq<char>,
    label: Option<Seq<char>>,
    account: Seq<char>,
    key: Seq<char>,
    own: Option<Seq<char>>,
)
    requires
        text::trimmed(account).len() > 0,
        p.get("baseUrl"@) matches Some(Jv::Str(url)) && text::trimmed(url).len() > 0,
        own matches Some(url) ==> text::trimmed(url).len() > 0,
    ensures
        ({
            let out = forward::route_of(Some(p), provider_id, label, account, Some((key, own)));
            let chat = p.get("protocol"@) is None || holds(p, "protocol"@, "chat_completions"@);
            &&& chat || holds(p, "protocol"@, "responses"@) || holds(p, "protocol"@, "anthropic"@)
                ==> (out matches Ok(r) && r.api_key == key && r.base_url == (match own {
                Some(url) => url,
                None => p.get("baseUrl"@)->0->Str_0,
            }) && (chat ==> r.protocol is Chat) && (holds(p, "protocol"@, "responses"@)
                ==> r.protocol is Responses) && (holds(p, "protocol"@, "anthropic"@)
                ==> r.protocol is Anthropic))
            &&& (p.get("protocol"@) matches Some(Jv::Str(s)) ==> s != "chat_completions"@ && s
                != "responses"@ && s != "anthropic"@ ==> (out matches Err(e) && e.status == 400))
            &&& (forward::route_of(None, provider_id, label, account, Some((key, own))) matches Err(e)
                && e.status == 503)
            &&& chat ==> (forward::route_of(Some(p), provider_id, label, account, None) matches Err(e)
                && e.status == 503)
            &&& chat ==> (forward::route_of(Some(p), provider_id, label, Seq::empty(), Some((key, own)))
                matches Err(e) && e.status == 503)
        }),
{
    reveal_strlit("chat_completions");
    reveal_strlit("responses");
    reveal_strlit("anthropic");
    assert("chat_completions"@.len() == 16);
    assert("responses"@[0] == 'r');
    assert("anthropic"@[0] == 'a');
    assert("responses"@.len() == 9);
    assert("anthropic"@.len() == 9);
    assert(text::blank(Seq::empty()));
}

/// The error of a custom provider keeps its status, and says what the upstream said.
pub proof fn custom_errors_keep_their_status(
    status: int,
    raw: Seq<char>,
    header: Option<Seq<char>>,
    now: int,
    told: int,
)
    ensures
        ({
            let e = forward::custom_error(status, raw, header, now, told);
            &&& e.status == status
            &&& e.code is None && e.upstream_code is None
            &&& status != 401 && status != 403 && status != 429 && text::trimmed(raw).len() > 0
                ==> e.message == "上游返回 "@ + text::decimal(status as nat) + ": "@ + text::trimmed(raw)
        }),
{
}

// -------------------------------------------------------------- accounts

/// Why an account cannot be used: it is switched off, or its limit for the model has not ended.
pub proof fn accounts_are_usable(account: Jv, keys: KeysV, now: int, limit: Jv, end: int)
    requires
        within(account, "rateLimits"@, routing::key_for(keys, routing::owner_of(account))) == Some(limit),
        limit.get("resetAt"@) == Some(Jv::Int(end)),
        0 <= now < 0x20_0000_0000_0000,
        0 <= end < 0x20_0000_0000_0000,
    ensures
        account.get("enabled"@) == Some(Jv::Bool(false)) ==> routing::obstacle(account, keys, now)
            == Some("disabled"@),
        account.get("enabled"@) != Some(Jv::Bool(false)) && end > now ==> routing::obstacle(
            account,
            keys,
            now,
        ) == Some("rate-limited"@),
        account.get("enabled"@) != Some(Jv::Bool(false)) && end <= now ==> routing::obstacle(
            account,
            keys,
            now,
        ) is None,
{
    routing::limit_holds_until_its_end(limit, end, now);
}

/// An account without limits is usable where it is not switched off.
pub proof fn unlimited_account_is_usable(account: Jv, keys: KeysV, now: int)
    requires
        account.get("rateLimits"@) is None,
    ensures
        routing::obstacle(account, keys, now) is None <==> account.get("enabled"@) != Some(
            Jv::Bool(false),
        ),
{
}

/// An account can carry a request where it has an identifier, was not tried, nothing stands
/// against it, and it does not carry as many as it may.
pub proof fn accounts_can_carry(c: ChoiceV, account: Jv, id: Seq<char>, most: int, k: int)
    requires
        holds(account, "id"@, id),
        account.get("maxConcurrent"@) == Some(Jv::Int(most)) || (account.get("maxConcurrent"@) is None
            && most == 0),
        0 <= most <= u64::MAX,
        0 <= k < c.counts.len(),
        c.counts[k].0 == id,
        forall|i: int| 0 <= i < k ==> (#[trigger] c.counts[i]).0 != id,
    ensures
        routing::can_carry(c)(account) <==> id.len() > 0 && !c.tried.contains(id) && routing::obstacle(
            account,
            c.keys,
            c.now,
        ) is None && (most == 0 || c.counts[k].1 < most),
{
    carried_is_counted(c.counts, id, k);
}

proof fn carried_is_counted(counts: Seq<(Seq<char>, usize)>, id: Seq<char>, k: int)
    requires
        0 <= k < counts.len(),
        counts[k].0 == id,
        forall|i: int| 0 <= i < k ==> (#[trigger] counts[i]).0 != id,
    ensures
        routing::carried_now(counts, id) == counts[k].1,
{
    assert forall|pred: spec_fn((Seq<char>, usize)) -> bool|
        (forall|x: (Seq<char>, usize)| #[trigger] pred(x) == (x.0 == id)) implies #[trigger] lists::found(
        counts,
        pred,
    ) == Some(counts[k]) by {
        lists::first_where_says(counts, pred, 0);
        assert(pred(counts[k]));
        let f = lists::first_where(counts, pred, 0);
        assert(pred(counts[f]));
        assert(f == k);
    }
}

/// The lower priority goes first, one that is not given counting as the default; among equals
/// the account that was added first.
pub proof fn priorities_decide(a: Jv, b: Jv, p: int, q: int, s: int, t: int, fallback: int)
    requires
        a.get("priority"@) == Some(Jv::Int(p)) || (a.get("priority"@) is None && p == fallback),
        b.get("priority"@) == Some(Jv::Int(q)) || (b.get("priority"@) is None && q == fallback),
        i64::MIN <= p <= i64::MAX,
        i64::MIN <= q <= i64::MAX,
        a.get("addedAt"@) == Some(Jv::Int(s)),
        b.get("addedAt"@) == Some(Jv::Int(t)),
        0 <= s < 0x20_0000_0000_0000,
        0 <= t < 0x20_0000_0000_0000,
    ensures
        routing::goes_before(a, b, fallback) <==> p < q || (p == q && s < t),
{
    double::small_integer_is_exact(s);
    double::small_integer_is_exact(t);
}

/// An account serves a model where its provider has it, and it has not lost its credentials; an
/// account without a provider belongs to the default one.
pub proof fn accounts_may_serve(providers: Seq<Seq<char>>, account: Jv, owner: Seq<char>)
    requires
        holds(account, "provider"@, owner),
    ensures
        routing::may_serve(providers)(account) <==> (providers.len() == 0 || providers.contains(owner))
            && account.get("hasCredentials"@) != Some(Jv::Bool(false)),
        routing::owner_of(account) == owner,
        routing::owner_of(Jv::obj()) == "workbuddy"@,
{
}

// -------------------------------------------------------------- what is decided and told

/// The decision on an account is told: who was picked, with what priority, how many were asked,
/// and who was blocked, for what.
pub proof fn decisions_are_told(accounts: Seq<Jv>, c: ChoiceV, fallback: int, account: Jv, id: Seq<char>)
    requires
        holds(account, "id"@, id),
        id.len() > 0,
    ensures
        ({
            let d = routing::decision(accounts, c, fallback);
            &&& (routing::picked(accounts, c, fallback) matches Some(a) ==> d.get("picked"@) == Some(a))
            &&& routing::picked(accounts, c, fallback) is None ==> d.get("picked"@) == Some(Jv::Null)
                && d.get("priority"@) == Some(Jv::Null)
            &&& d.get("total"@) == Some(Jv::Int(accounts.len() as int))
        }),
        c.tried.contains(id) ==> (routing::blocked_reader(c)(account) matches Some(b) && holds(
            b,
            "id"@,
            id,
        ) && holds(b, "reason"@, "tried"@)),
        !c.tried.contains(id) && account.get("enabled"@) == Some(Jv::Bool(false)) ==> (
        routing::blocked_reader(c)(account) matches Some(b) && holds(b, "reason"@, "disabled"@)),
        !c.tried.contains(id) && routing::obstacle(account, c.keys, c.now) is None
            ==> routing::blocked_reader(c)(account) is None && routing::unblocked(c)(account),
{
    reveal_strlit("picked");
    reveal_strlit("priority");
    reveal_strlit("candidateCount");
    reveal_strlit("blocked");
    reveal_strlit("total");
    reveal_strlit("id");
    reveal_strlit("name");
    reveal_strlit("reason");
    assert("picked"@.len() == 6);
    assert("priority"@.len() == 8);
    assert("candidateCount"@.len() == 14);
    assert("blocked"@.len() == 7);
    assert("total"@.len() == 5);
    assert("id"@.len() == 2);
    assert("name"@.len() == 4);
    assert("reason"@.len() == 6);
}

/// What a model is called where its limit is told: by both names where they differ.
pub proof fn models_are_called(asked: Seq<char>, sent: Seq<char>)
    requires
        text::trimmed(asked) == asked,
        text::trimmed(sent) == sent,
    ensures
        asked.len() > 0 && sent.len() > 0 && !text::same_fold(asked, sent) ==> provider_loop::model_label(
            asked,
            sent,
        ) == asked + " → "@ + sent,
        sent.len() > 0 && (asked.len() == 0 || text::same_fold(asked, sent)) ==> provider_loop::model_label(
            asked,
            sent,
        ) == sent,
        sent.len() == 0 && asked.len() > 0 ==> provider_loop::model_label(asked, sent) == asked,
{
}

/// A conversation needs an account, unless it may go without one; a limit that is over is told
/// where there was one.
pub proof fn conversations_need_an_account(
    label: Seq<char>,
    model: Seq<char>,
    has_account: bool,
    anonymous: bool,
    had_limit: bool,
)
    ensures
        provider_loop::conversation_refused(label, has_account, anonymous) is Some <==> !has_account
            && !anonymous,
        (provider_loop::conversation_refused(label, has_account, anonymous) matches Some(e) ==> e.status
            == 503),
        provider_loop::recovery(label, model, had_limit) is Some <==> had_limit,
{
}

/// An account is called by its name, or by its identifier where it has none; a session by the
/// name of its account, by its nickname, or by the identifier.
pub proof fn accounts_are_called(account: Jv, session: Jv, name: Seq<char>, id: Seq<char>)
    requires
        holds(account, "name"@, name),
        holds(account, "id"@, id),
    ensures
        crate::upstream::labels::display_of(account) == if name.len() > 0 {
            name
        } else {
            id
        },
        name.len() > 0 ==> crate::upstream::labels::label_for(Some(account), id, session) == name,
        (within(session, "account"@, "nickname"@) matches Some(Jv::Str(s)) ==> s.len() > 0
            ==> crate::upstream::labels::label_for(None, id, session) == s),
        session.get("account"@) is None ==> crate::upstream::labels::label_for(None, id, session) == id,
{
}

/// A session holds a token where it holds one that is not empty; one made of a token holds it.
pub proof fn sessions_hold_their_token(token: Seq<char>)
    ensures
        token.len() == 0 ==> crate::upstream::labels::token_session(token) is None,
        token.len() > 0 ==> (crate::upstream::labels::token_session(token) matches Some(s)
            && crate::upstream::labels::holds_token(s) && within(s, "auth"@, "accessToken"@) == Some(
            Jv::Str(token),
        ) && within(s, "auth"@, "tokenType"@) == Some(Jv::Str("Bearer"@))),
        !crate::upstream::labels::holds_token(Jv::obj()),
{
    reveal_strlit("accessToken");
    reveal_strlit("tokenType");
    assert("accessToken"@.len() == 11);
    assert("tokenType"@.len() == 9);
}

/// A stream that breaks off is told as an error, and then ends.
pub proof fn broken_streams_are_told(error: Seq<char>)
    ensures
        ({
            let out = crate::upstream::labels::interruption_frames(error);
            &&& out.len() == 2
            &&& out[0] matches crate::protocol::Fv::Data(d) && within(d, "error"@, "message"@) == Some(
                Jv::Str("上游流中断: "@ + error),
            ) && within(d, "error"@, "type"@) == Some(Jv::Str("proxy_error"@))
            &&& out[1] is Done
        }),
{
    reveal_strlit("message");
    reveal_strlit("type");
    assert("message"@.len() == 7);
    assert("type"@.len() == 4);
}

} // verus!
