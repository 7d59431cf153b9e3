//! Which account a request goes to next, and when it is given up.
//!
//! The accounts of all providers stand in one queue. A request goes to the first
//! account that may carry it. What follows a failure depends on its kind:
//!
//! - the content was blocked: once per request, the same account is asked again
//!   with a neutral prompt;
//! - the token was refused: once per account, it is asked again with a fresh one;
//! - the account has used up its share: it rests, and the next one is asked;
//! - anything else: the next account is asked, as often as the settings allow.
//!
//! Within one account a request is sent again as long as the budget lasts. The
//! sending, the sleeping and the choice of the next account lie with the caller;
//! what to do with their outcome is decided here.

use crate::errors::{ErrorV, GatewayError};
use crate::errors;
use crate::json::{Json, Jv};
use crate::json;
use crate::protocol;
use crate::providers;
use crate::text;
use crate::upstream::usage::{RequestTelemetry, TelemetryV};
use crate::upstream::usage;
use vstd::prelude::*;
use vstd::string::*;

verus! {

/// At most so many accounts are asked after the first one.
pub const MAX_ROUTE_ATTEMPTS: usize = 32;

// -------------------------------------------------------------- kinds of error

/// What a failed request comes down to. `reset_at` holds the bits of the time, in
/// milliseconds, at which a limit ends.
#[derive(Debug)]
pub enum UpstreamErrorClass {
    QuotaLimited {
        status: u16,
        message: String,
        upstream_code: Option<i64>,
        reset_at: Option<u64>,
    },
    TokenExpired { message: String },
    ContentBlocked { status: u16, message: String, upstream_code: Option<i64> },
    Fatal { status: u16, message: String, upstream_code: Option<i64> },
}

/// What a failed request comes down to.
#[verifier::ext_equal]
pub enum ClassV {
    QuotaLimited {
        status: u16,
        message: Seq<char>,
        upstream_code: Option<i64>,
        reset_at: Option<u64>,
    },
    TokenExpired { message: Seq<char> },
    ContentBlocked { status: u16, message: Seq<char>, upstream_code: Option<i64> },
    Fatal { status: u16, message: Seq<char>, upstream_code: Option<i64> },
}

impl View for UpstreamErrorClass {
    type V = ClassV;

    open spec fn view(&self) -> ClassV {
        match self {
            UpstreamErrorClass::QuotaLimited { status, message, upstream_code, reset_at } => {
                ClassV::QuotaLimited {
                    status: *status,
                    message: message@,
                    upstream_code: *upstream_code,
                    reset_at: *reset_at,
                }
            },
            UpstreamErrorClass::TokenExpired { message } => ClassV::TokenExpired {
                message: message@,
            },
            UpstreamErrorClass::ContentBlocked { status, message, upstream_code } => {
                ClassV::ContentBlocked {
                    status: *status,
                    message: message@,
                    upstream_code: *upstream_code,
                }
            },
            UpstreamErrorClass::Fatal { status, message, upstream_code } => ClassV::Fatal {
                status: *status,
                message: message@,
                upstream_code: *upstream_code,
            },
        }
    }
}

/// The error that the client gets for a failed request. A refused token has the
/// status and the number of the answer itself.
pub open spec fn error_of(class: ClassV, status: int, code: Option<i64>) -> ErrorV {
    match class {
        ClassV::QuotaLimited { status: own, message, upstream_code, .. } => ErrorV {
            upstream_code,
            ..errors::plain_error(own as int, message)
        },
        ClassV::ContentBlocked { status: own, message, upstream_code } => ErrorV {
            upstream_code,
            ..errors::plain_error(own as int, message)
        },
        ClassV::Fatal { status: own, message, upstream_code } => ErrorV {
            upstream_code,
            ..errors::plain_error(own as int, message)
        },
        ClassV::TokenExpired { message } => ErrorV {
            upstream_code: code,
            ..errors::plain_error(status, message)
        },
    }
}

fn make_error(class: &UpstreamErrorClass, status: u16, code: Option<i64>) -> (r: GatewayError)
    ensures
        r@ == error_of(class@, status as int, code),
{
    match class {
        UpstreamErrorClass::QuotaLimited { status: own, message, upstream_code, .. } => {
            GatewayError::with_status(*own as i32, message.clone()).with_optional_code(
                *upstream_code,
            )
        },
        UpstreamErrorClass::ContentBlocked { status: own, message, upstream_code } => {
            GatewayError::with_status(*own as i32, message.clone()).with_optional_code(
                *upstream_code,
            )
        },
        UpstreamErrorClass::Fatal { status: own, message, upstream_code } => {
            GatewayError::with_status(*own as i32, message.clone()).with_optional_code(
                *upstream_code,
            )
        },
        UpstreamErrorClass::TokenExpired { message } => GatewayError::with_status(
            status as i32,
            message.clone(),
        ).with_optional_code(code),
    }
}

/// A request that has failed: what it comes down to, and the error for the client.
#[derive(Debug)]
pub struct OutboundFailure {
    pub class: UpstreamErrorClass,
    pub error: GatewayError,
}

/// A request that has failed.
#[verifier::ext_equal]
pub struct FailureV {
    pub class: ClassV,
    pub error: ErrorV,
}

impl View for OutboundFailure {
    type V = FailureV;

    open spec fn view(&self) -> FailureV {
        FailureV { class: self.class@, error: self.error@ }
    }
}

// ------------------------------------------------------------- sending again

/// How often a request may still be sent again.
#[derive(Clone, Copy, Debug)]
pub struct RetryBudget {
    pub total: usize,
    pub remaining: usize,
}

/// How often a request may still be sent again.
#[verifier::ext_equal]
pub struct BudgetV {
    pub total: nat,
    pub remaining: nat,
}

impl View for RetryBudget {
    type V = BudgetV;

    open spec fn view(&self) -> BudgetV {
        BudgetV { total: self.total as nat, remaining: self.remaining as nat }
    }
}

impl BudgetV {
    /// How often the request was sent again.
    pub open spec fn used(self) -> nat {
        if self.remaining <= self.total {
            (self.total - self.remaining) as nat
        } else {
            0
        }
    }

    /// The budget after the request was sent again.
    pub open spec fn spent(self) -> BudgetV {
        BudgetV {
            remaining: if self.remaining > 0 {
                (self.remaining - 1) as nat
            } else {
                0
            },
            ..self
        }
    }
}

impl RetryBudget {
    /// A budget of which nothing was used.
    pub fn new(total: usize) -> (r: RetryBudget)
        ensures
            r@ == (BudgetV { total: total as nat, remaining: total as nat }),
    {
        RetryBudget { total, remaining: total }
    }

    /// How often the request was sent again.
    pub fn used(&self) -> (r: usize)
        ensures
            r == self@.used(),
    {
        if self.remaining <= self.total {
            self.total - self.remaining
        } else {
            0
        }
    }

    fn spend(&mut self)
        ensures
            final(self)@ == old(self)@.spent(),
    {
        if self.remaining > 0 {
            self.remaining = self.remaining - 1;
        }
    }
}

/// The advice to send a request again: after how long, and why.
#[derive(Debug)]
pub struct RetryAdvice {
    pub delay_ms: u64,
    pub reason: String,
}

/// The advice to send a request again.
#[verifier::ext_equal]
pub struct AdviceV {
    pub delay: int,
    pub reason: Seq<char>,
}

impl View for RetryAdvice {
    type V = AdviceV;

    open spec fn view(&self) -> AdviceV {
        AdviceV { delay: self.delay_ms as int, reason: self.reason@ }
    }
}

/// What an advice says, where there is one.
pub open spec fn opt_advice(a: Option<RetryAdvice>) -> Option<AdviceV> {
    match a {
        Some(v) => Some(v@),
        None => None,
    }
}

/// Whether a status is one of those that pass by themselves.
pub open spec fn is_transient(status: int) -> bool {
    status == 408 || status == 500 || status == 502 || status == 503 || status == 504
}

/// The advice on a status that passes by itself.
pub open spec fn transient_advice(status: int, remaining: nat, delay: int) -> Option<AdviceV> {
    if remaining == 0 || !is_transient(status) {
        None
    } else {
        Some(
            AdviceV {
                delay,
                reason: "上游瞬时错误（HTTP "@ + text::decimal(status as nat) + "）"@,
            },
        )
    }
}

/// The advice on a connection that failed.
pub open spec fn transport_advice(remaining: nat, delay: int) -> Option<AdviceV> {
    if remaining == 0 {
        None
    } else {
        Some(AdviceV { delay, reason: "上游连接失败"@ })
    }
}

/// The advice on any other failure: those that have a remedy of their own are not
/// sent again.
pub open spec fn fallback_advice(
    class: ClassV,
    remaining: nat,
    status: int,
    delay: int,
) -> Option<AdviceV> {
    if remaining == 0 || class !is Fatal {
        None
    } else {
        Some(
            AdviceV {
                delay,
                reason: "上游错误（HTTP "@ + text::decimal(status as nat) + "），换账号前先原地重发"@,
            },
        )
    }
}

/// The advice on a status that passes by itself; `delay_ms` is the delay that the
/// settings ask for.
pub fn transient_retry_advice(status: u16, remaining: usize, delay_ms: u64) -> (r: Option<RetryAdvice>)
    ensures
        opt_advice(r) == transient_advice(status as int, remaining as nat, delay_ms as int),
{
    let transient = status == 408 || status == 500 || status == 502 || status == 503 || status
        == 504;
    if remaining == 0 || !transient {
        return None;
    }
    let reason = text::join3("上游瞬时错误（HTTP ", text::decimal_u64(status as u64).as_str(), "）");
    Some(RetryAdvice { delay_ms, reason })
}

/// The advice on a connection that failed.
pub fn transport_retry_advice(remaining: usize, delay_ms: u64) -> (r: Option<RetryAdvice>)
    ensures
        opt_advice(r) == transport_advice(remaining as nat, delay_ms as int),
{
    if remaining == 0 {
        return None;
    }
    Some(RetryAdvice { delay_ms, reason: "上游连接失败".to_owned() })
}

/// The advice on any other failure.
pub fn fallback_retry_advice(
    class: &UpstreamErrorClass,
    remaining: usize,
    status: u16,
    delay_ms: u64,
) -> (r: Option<RetryAdvice>)
    ensures
        opt_advice(r) == fallback_advice(
            class@,
            remaining as nat,
            status as int,
            delay_ms as int,
        ),
{
    if remaining == 0 {
        return None;
    }
    match class {
        UpstreamErrorClass::Fatal { .. } => {
            let reason = text::join3(
                "上游错误（HTTP ",
                text::decimal_u64(status as u64).as_str(),
                "），换账号前先原地重发",
            );
            Some(RetryAdvice { delay_ms, reason })
        },
        _ => None,
    }
}

/// The line that tells that a request is sent again.
pub open spec fn retry_line(reason: Seq<char>, delay: int, used: nat, total: nat) -> Seq<char> {
    "⚠️ "@ + reason + "；"@ + text::decimal((delay / 1000) as nat) + " 秒后重试（第 "@ + text::decimal(used)
        + "/"@ + text::decimal(total) + " 次）"@
}

/// The line that tells that a request is sent again.
pub fn retry_log_line(reason: &str, delay_ms: u64, used: usize, total: usize) -> (r: String)
    ensures
        r@ == retry_line(reason@, delay_ms as int, used as nat, total as nat),
{
    let mut out = text::join3("⚠️ ", reason, "；");
    out.append(text::decimal_u64(delay_ms / 1000).as_str());
    out.append(" 秒后重试（第 ");
    out.append(text::decimal_u64(used as u64).as_str());
    out.append("/");
    out.append(text::decimal_u64(total as u64).as_str());
    out.append(" 次）");
    out
}

/// What to do after a request was sent: wait and send it again, or give it up. The
/// line tells of the former.
pub enum SendStep {
    Resend { delay_ms: u64, line: String },
    Fail(OutboundFailure),
}

/// What to do after a request was sent.
#[verifier::ext_equal]
pub enum SendV {
    Resend { delay: int, line: Seq<char> },
    Fail(FailureV),
}

impl View for SendStep {
    type V = SendV;

    open spec fn view(&self) -> SendV {
        match self {
            SendStep::Resend { delay_ms, line } => SendV::Resend {
                delay: *delay_ms as int,
                line: line@,
            },
            SendStep::Fail(f) => SendV::Fail(f@),
        }
    }
}

/// A retry noted in the record of the request; the flag says whether the record is
/// to be shown.
pub open spec fn retry_noted(
    t: TelemetryV,
    reason: Seq<char>,
    status: Option<i64>,
    delay: int,
) -> (TelemetryV, bool) {
    if usage::noteworthy(t, reason) {
        usage::shown(usage::retried(t, reason, status, delay))
    } else {
        (t, false)
    }
}

/// The request is sent again, as the advice says.
pub open spec fn resend(b: BudgetV, a: AdviceV) -> SendV {
    SendV::Resend {
        delay: a.delay,
        line: retry_line(a.reason, a.delay, b.spent().used(), b.total),
    }
}

/// After a connection that failed: the budget, the record, what to do, and whether
/// the record is to be shown.
pub open spec fn transport_step(b: BudgetV, t: TelemetryV, error: ErrorV, delay: int) -> (
    BudgetV,
    TelemetryV,
    SendV,
    bool,
) {
    match transport_advice(b.remaining, delay) {
        Some(a) => {
            let (u, show) = retry_noted(t, a.reason, None, a.delay);
            (b.spent(), u, resend(b, a), show)
        },
        None => (
            b,
            t,
            SendV::Fail(
                FailureV {
                    class: ClassV::Fatal {
                        status: 502,
                        message: error.message,
                        upstream_code: None,
                    },
                    error,
                },
            ),
            false,
        ),
    }
}

/// The advice on an answer: that of the provider, else that on its status, else
/// that on any failure. Blocked content has none before the prompt was changed.
pub open spec fn answer_advice(
    b: BudgetV,
    status: int,
    class: ClassV,
    own: Option<AdviceV>,
    delay: int,
    degraded: bool,
) -> Option<AdviceV> {
    if !degraded && class is ContentBlocked {
        None
    } else {
        match own {
            Some(a) => Some(a),
            None => match transient_advice(status, b.remaining, delay) {
                Some(a) => Some(a),
                None => fallback_advice(class, b.remaining, status, delay),
            },
        }
    }
}

/// After an answer that tells of a failure.
pub open spec fn answer_step(
    b: BudgetV,
    t: TelemetryV,
    status: int,
    class: ClassV,
    code: Option<i64>,
    own: Option<AdviceV>,
    delay: int,
    degraded: bool,
) -> (BudgetV, TelemetryV, SendV, bool) {
    match answer_advice(b, status, class, own, delay, degraded) {
        Some(a) => {
            let (u, show) = retry_noted(t, a.reason, Some(status as i64), a.delay);
            (b.spent(), u, resend(b, a), show)
        },
        None => (
            b,
            t,
            SendV::Fail(FailureV { class, error: error_of(class, status, code) }),
            false,
        ),
    }
}

/// What to do after a connection that failed; `delay_ms` is the delay that the
/// settings ask for. The flag says whether the record is to be shown.
pub fn after_transport_failure(
    budget: &mut RetryBudget,
    telemetry: &mut RequestTelemetry,
    error: GatewayError,
    delay_ms: u64,
) -> (r: (SendStep, bool))
    ensures
        (final(budget)@, final(telemetry)@, r.0@, r.1) == transport_step(
            old(budget)@,
            old(telemetry)@,
            error@,
            delay_ms as int,
        ),
{
    match transport_retry_advice(budget.remaining, delay_ms) {
        Some(advice) => {
            budget.spend();
            let show = telemetry.note_attempt_retry(
                advice.reason.as_str(),
                None,
                advice.delay_ms,
            );
            let line = retry_log_line(
                advice.reason.as_str(),
                advice.delay_ms,
                budget.used(),
                budget.total,
            );
            (SendStep::Resend { delay_ms: advice.delay_ms, line }, show)
        },
        None => {
            let class = UpstreamErrorClass::Fatal {
                status: 502,
                message: error.message.clone(),
                upstream_code: None,
            };
            (SendStep::Fail(OutboundFailure { class, error }), false)
        },
    }
}

/// What to do after an answer that tells of a failure. `own` is the advice of the
/// provider, `code` the number in the answer.
pub fn after_answer(
    budget: &mut RetryBudget,
    telemetry: &mut RequestTelemetry,
    status: u16,
    class: UpstreamErrorClass,
    code: Option<i64>,
    own: Option<RetryAdvice>,
    delay_ms: u64,
    degraded: bool,
) -> (r: (SendStep, bool))
    ensures
        (final(budget)@, final(telemetry)@, r.0@, r.1) == answer_step(
            old(budget)@,
            old(telemetry)@,
            status as int,
            class@,
            code,
            opt_advice(own),
            delay_ms as int,
            degraded,
        ),
{
    let blocked = match &class {
        UpstreamErrorClass::ContentBlocked { .. } => true,
        _ => false,
    };
    let advice = if !degraded && blocked {
        None
    } else {
        match own {
            Some(a) => Some(a),
            None => match transient_retry_advice(status, budget.remaining, delay_ms) {
                Some(a) => Some(a),
                None => fallback_retry_advice(&class, budget.remaining, status, delay_ms),
            },
        }
    };
    match advice {
        Some(advice) => {
            budget.spend();
            let show = telemetry.note_attempt_retry(
                advice.reason.as_str(),
                Some(status as i64),
                advice.delay_ms,
            );
            let line = retry_log_line(
                advice.reason.as_str(),
                advice.delay_ms,
                budget.used(),
                budget.total,
            );
            (SendStep::Resend { delay_ms: advice.delay_ms, line }, show)
        },
        None => {
            let error = make_error(&class, status, code);
            (SendStep::Fail(OutboundFailure { class, error }), false)
        },
    }
}

/// A request that the provider itself gives no advice on is sent again only while
/// the budget lasts, and each time it costs one of it.
pub proof fn resends_cost_budget(
    b: BudgetV,
    t: TelemetryV,
    status: int,
    class: ClassV,
    code: Option<i64>,
    error: ErrorV,
    delay: int,
    degraded: bool,
)
    requires
        b.remaining <= b.total,
    ensures
        answer_step(b, t, status, class, code, None, delay, degraded).2 is Resend ==> {
            &&& b.remaining > 0
            &&& answer_step(b, t, status, class, code, None, delay, degraded).0.used() == b.used()
                + 1
        },
        answer_step(b, t, status, class, code, None, delay, degraded).2 is Fail ==> answer_step(
            b,
            t,
            status,
            class,
            code,
            None,
            delay,
            degraded,
        ).0 == b,
        transport_step(b, t, error, delay).2 is Resend ==> b.remaining > 0 && transport_step(
            b,
            t,
            error,
            delay,
        ).0.used() == b.used() + 1,
{
}

/// A limit, a refused token and blocked content that no provider advises on are
/// not sent again in place, but for the statuses that pass by themselves.
pub proof fn remedied_failures_are_not_resent(
    b: BudgetV,
    t: TelemetryV,
    status: int,
    class: ClassV,
    code: Option<i64>,
    delay: int,
    degraded: bool,
)
    requires
        class !is Fatal,
        !is_transient(status),
    ensures
        answer_step(b, t, status, class, code, None, delay, degraded).2 is Fail,
{
}

// --------------------------------------------------------------------- queue

/// The way of a request through the accounts.
#[verifier::ext_equal]
pub struct QueueV {
    pub model: Seq<char>,
    /// The accounts that have failed.
    pub tried: Seq<Seq<char>>,
    pub budget: BudgetV,
    pub switch_total: nat,
    /// How often another account may still be asked after a failure.
    pub switches_left: nat,
    /// Whether the neutral prompt is used, and whether it may be.
    pub degraded: bool,
    pub degradable: bool,
    /// How many accounts were asked.
    pub rounds: nat,
    /// Whether this account's token was renewed.
    pub refreshed: bool,
}

/// The beginning of the way.
pub open spec fn fresh_queue(
    model: Seq<char>,
    resends: nat,
    switches: nat,
    degraded: bool,
    degradable: bool,
) -> QueueV {
    QueueV {
        model,
        tried: Seq::empty(),
        budget: BudgetV { total: resends, remaining: resends },
        switch_total: switches,
        switches_left: switches,
        degraded: degraded && degradable,
        degradable,
        rounds: 0,
        refreshed: false,
    }
}

/// One more account is asked, unless too many were.
pub open spec fn round_step(q: QueueV) -> (QueueV, Option<ErrorV>) {
    if q.rounds > MAX_ROUTE_ATTEMPTS {
        (q, Some(errors::plain_error(500, "上游转发重试次数超限"@)))
    } else {
        (QueueV { rounds: q.rounds + 1, refreshed: false, ..q }, None)
    }
}

/// An account that has failed.
pub open spec fn with_tried(q: QueueV, account: Option<Seq<char>>) -> QueueV {
    match account {
        Some(id) => if q.tried.contains(id) {
            q
        } else {
            QueueV { tried: q.tried.push(id), ..q }
        },
        None => q,
    }
}

/// What to do after a request has failed for good with an account.
#[verifier::ext_equal]
pub enum StepV {
    /// Ask the same account again with a neutral prompt.
    Degrade,
    /// Renew the token and ask the same account again.
    Refresh,
    /// Let the account rest, and ask the next one.
    Limit { account: Seq<char>, status: u16, code: Option<i64>, reset_at: Option<u64> },
    /// Ask the next account, if that may be done.
    Next,
}

/// What to do after a request has failed for good with an account.
pub enum QueueStep {
    Degrade,
    Refresh,
    Limit { account: String, status: u16, code: Option<i64>, reset_at: Option<u64> },
    Next,
}

impl View for QueueStep {
    type V = StepV;

    open spec fn view(&self) -> StepV {
        match self {
            QueueStep::Degrade => StepV::Degrade,
            QueueStep::Refresh => StepV::Refresh,
            QueueStep::Limit { account, status, code, reset_at } => StepV::Limit {
                account: account@,
                status: *status,
                code: *code,
                reset_at: *reset_at,
            },
            QueueStep::Next => StepV::Next,
        }
    }
}

/// The end of an attempt noted in the record.
pub open spec fn ending_noted(t: TelemetryV, status: Option<i64>, error: Option<Seq<char>>) -> (
    TelemetryV,
    bool,
) {
    if t.snap.details.len() > 0 {
        usage::shown(usage::finished(t, status, error))
    } else {
        (t, false)
    }
}

/// The account is given up: the attempt ends in the record, and the account rests
/// or just makes way.
pub open spec fn settle_step(
    q: QueueV,
    t: TelemetryV,
    account: Option<Seq<char>>,
    failure: FailureV,
) -> (QueueV, TelemetryV, StepV, bool) {
    let (u, show) = ending_noted(
        t,
        Some(failure.error.status as i64),
        Some(failure.error.message),
    );
    match (failure.class, account) {
        (ClassV::QuotaLimited { status, upstream_code, reset_at, .. }, Some(id)) => if q.tried.contains(
            id,
        ) {
            (q, u, StepV::Next, show)
        } else {
            (
                with_tried(q, account),
                u,
                StepV::Limit { account: id, status, code: upstream_code, reset_at },
                show,
            )
        },
        _ => (with_tried(q, account), u, StepV::Next, show),
    }
}

/// The reason noted when a token is renewed.
pub open spec fn refresh_reason(account: Option<Seq<char>>) -> Seq<char> {
    "token 被上游拒绝（401），刷新后重试一次（账号 "@ + (match account {
        Some(id) => id,
        None => Seq::empty(),
    }) + "）"@
}

/// A request has failed for good with an account.
pub open spec fn failed_step(
    q: QueueV,
    t: TelemetryV,
    account: Option<Seq<char>>,
    failure: FailureV,
) -> (QueueV, TelemetryV, StepV, bool) {
    if failure.class is ContentBlocked && !q.degraded && q.degradable {
        (QueueV { degraded: true, ..q }, t, StepV::Degrade, false)
    } else if failure.class is TokenExpired && !q.refreshed {
        let (u, show) = retry_noted(
            t,
            refresh_reason(account),
            Some(failure.error.status as i64),
            0,
        );
        (QueueV { refreshed: true, ..q }, u, StepV::Refresh, show)
    } else {
        settle_step(q, t, account, failure)
    }
}

/// After a limit: the next account is asked, without any cost; where there is none
/// the request fails.
pub open spec fn limited_next(q: QueueV, failure: FailureV, found: bool) -> Option<ErrorV> {
    if found {
        None
    } else {
        match failure.class {
            ClassV::QuotaLimited { status, upstream_code, .. } => Some(
                ErrorV {
                    upstream_code,
                    ..errors::plain_error(
                        status as int,
                        failure.error.message + "（所有候选账号对模型 "@ + q.model
                            + " 均已限额或禁用）"@,
                    )
                },
            ),
            _ => Some(failure.error),
        }
    }
}

/// After any other failure: the next account is asked where there is one and the
/// settings allow it; else the request fails with this error.
pub open spec fn other_next(q: QueueV, error: ErrorV, found: bool) -> (QueueV, Option<ErrorV>) {
    if found && q.switches_left > 0 {
        (QueueV { switches_left: (q.switches_left - 1) as nat, ..q }, None)
    } else {
        (q, Some(error))
    }
}

/// Whether a custom provider's failure lets its account rest: it is a limit, and
/// the account has not failed before.
pub open spec fn custom_rests(q: QueueV, account: Option<Seq<char>>, error: ErrorV) -> bool {
    account matches Some(id) && !q.tried.contains(id) && error.is_quota()
}

/// Whether the way is in order: no account failed twice, no budget is exceeded.
pub open spec fn orderly(q: QueueV) -> bool {
    &&& q.tried.no_duplicates()
    &&& q.switches_left <= q.switch_total
    &&& q.budget.remaining <= q.budget.total
    &&& q.rounds <= MAX_ROUTE_ATTEMPTS + 1
    &&& q.degraded ==> q.degradable
}

/// The way begins in order.
pub proof fn fresh_queue_is_orderly(
    model: Seq<char>,
    resends: nat,
    switches: nat,
    degraded: bool,
    degradable: bool,
)
    ensures
        orderly(fresh_queue(model, resends, switches, degraded, degradable)),
{
}

proof fn tried_stays_apart(q: QueueV, account: Option<Seq<char>>)
    requires
        orderly(q),
    ensures
        orderly(with_tried(q, account)),
{
    if let Some(id) = account {
        if !q.tried.contains(id) {
            let after = q.tried.push(id);
            assert forall|i: int, j: int| 0 <= i < after.len() && 0 <= j < after.len() && i
                != j implies after[i] != after[j] by {
                if i < q.tried.len() && j < q.tried.len() {
                } else if i < q.tried.len() {
                    assert(q.tried.contains(q.tried[i]));
                } else {
                    assert(q.tried.contains(q.tried[j]));
                }
            }
        }
    }
}

/// Every step keeps the way in order.
pub proof fn steps_are_orderly(
    q: QueueV,
    t: TelemetryV,
    account: Option<Seq<char>>,
    failure: FailureV,
    found: bool,
)
    requires
        orderly(q),
    ensures
        orderly(round_step(q).0),
        orderly(failed_step(q, t, account, failure).0),
        orderly(settle_step(q, t, account, failure).0),
        orderly(other_next(q, failure.error, found).0),
        orderly(with_tried(q, account)),
{
    tried_stays_apart(q, account);
}

/// How much may still happen with one account before it is given up.
pub open spec fn patience(q: QueueV) -> nat {
    (if q.degraded {
        0nat
    } else {
        1
    }) + (if q.refreshed {
        0nat
    } else {
        1
    })
}

/// Asking the same account again costs patience: the neutral prompt is tried once
/// per request, the fresh token once per account. So each account is given up
/// after three failures at most.
pub proof fn asking_again_costs_patience(
    q: QueueV,
    t: TelemetryV,
    account: Option<Seq<char>>,
    failure: FailureV,
)
    ensures
        failed_step(q, t, account, failure).2 is Degrade || failed_step(
            q,
            t,
            account,
            failure,
        ).2 is Refresh ==> patience(failed_step(q, t, account, failure).0) < patience(q),
        patience(q) <= 2,
{
}

/// A new account costs one of the rounds, of which there are one more than the
/// limit; then the request fails.
pub proof fn rounds_run_out(q: QueueV)
    ensures
        round_step(q).1 is None ==> round_step(q).0.rounds == q.rounds + 1 && q.rounds
            <= MAX_ROUTE_ATTEMPTS,
        q.rounds > MAX_ROUTE_ATTEMPTS ==> round_step(q).1 is Some,
{
}

/// Another account after a failure that is no limit costs one of the switches that
/// the settings allow; a limit costs none.
pub proof fn switches_run_out(q: QueueV, error: ErrorV, found: bool)
    ensures
        other_next(q, error, found).1 is None ==> other_next(q, error, found).0.switches_left + 1
            == q.switches_left,
        q.switches_left == 0 ==> other_next(q, error, found).1 == Some(error),
{
}

/// An account that is given up is among those that have failed.
pub proof fn given_up_is_tried(
    q: QueueV,
    t: TelemetryV,
    id: Seq<char>,
    failure: FailureV,
)
    ensures
        settle_step(q, t, Some(id), failure).0.tried.contains(id),
{
    assert(with_tried(q, Some(id)).tried.contains(id)) by {
        if !q.tried.contains(id) {
            assert(q.tried.push(id)[q.tried.len() as int] == id);
        }
    }
}

/// The way of a request through the accounts.
pub struct AttemptQueue {
    pub model: String,
    pub tried: Vec<String>,
    pub budget: RetryBudget,
    pub switch_total: usize,
    pub switches_left: usize,
    pub degraded: bool,
    pub degradable: bool,
    pub rounds: usize,
    pub refreshed: bool,
}

impl View for AttemptQueue {
    type V = QueueV;

    open spec fn view(&self) -> QueueV {
        QueueV {
            model: self.model@,
            tried: protocol::texts(self.tried@),
            budget: self.budget@,
            switch_total: self.switch_total as nat,
            switches_left: self.switches_left as nat,
            degraded: self.degraded,
            degradable: self.degradable,
            rounds: self.rounds as nat,
            refreshed: self.refreshed,
        }
    }
}

/// An error where something went wrong.
pub open spec fn refusal(r: Result<(), GatewayError>) -> Option<ErrorV> {
    match r {
        Ok(_) => None,
        Err(e) => Some(e@),
    }
}

impl AttemptQueue {
    /// The beginning of the way: how often a request may be sent again and another
    /// account be asked, and whether the neutral prompt is in force and may be used.
    pub fn new(
        model: &str,
        resends: usize,
        switches: usize,
        degraded: bool,
        degradable: bool,
    ) -> (r: AttemptQueue)
        ensures
            r@ == fresh_queue(model@, resends as nat, switches as nat, degraded, degradable),
    {
        let r = AttemptQueue {
            model: model.to_owned(),
            tried: Vec::new(),
            budget: RetryBudget::new(resends),
            switch_total: switches,
            switches_left: switches,
            degraded: degraded && degradable,
            degradable,
            rounds: 0,
            refreshed: false,
        };
        proof {
            assert(protocol::texts(r.tried@) =~= Seq::empty());
        }
        r
    }

    /// Asks one more account, unless too many were.
    pub fn begin_round(&mut self) -> (r: Result<(), GatewayError>)
        ensures
            (final(self)@, refusal(r)) == round_step(old(self)@),
    {
        if self.rounds > MAX_ROUTE_ATTEMPTS {
            return Err(GatewayError::with_status(500, "上游转发重试次数超限".to_owned()));
        }
        self.rounds = self.rounds + 1;
        self.refreshed = false;
        Ok(())
    }

    fn was_tried(&self, id: &str) -> (r: bool)
        ensures
            r == self@.tried.contains(id@),
    {
        let mut i: usize = 0;
        while i < self.tried.len()
            invariant
                i <= self.tried@.len(),
                forall|k: int| 0 <= k < i ==> #[trigger] self@.tried[k] != id@,
            decreases self.tried@.len() - i,
        {
            if text::same(self.tried[i].as_str(), id) {
                proof {
                    assert(self@.tried[i as int] == id@);
                }
                return true;
            }
            i = i + 1;
        }
        false
    }

    /// Notes that an account has failed.
    pub fn note_tried(&mut self, account: Option<&str>)
        ensures
            final(self)@ == with_tried(old(self)@, json::opt_text(account)),
    {
        if let Some(id) = account {
            if !self.was_tried(id) {
                let one = id.to_owned();
                proof {
                    protocol::texts_push(self.tried@, one);
                }
                self.tried.push(one);
            }
        }
    }

    /// The account is given up. The flag says whether the record is to be shown.
    pub fn settle(
        &mut self,
        telemetry: &mut RequestTelemetry,
        account: Option<&str>,
        failure: &OutboundFailure,
    ) -> (r: (QueueStep, bool))
        ensures
            (final(self)@, final(telemetry)@, r.0@, r.1) == settle_step(
                old(self)@,
                old(telemetry)@,
                json::opt_text(account),
                failure@,
            ),
    {
        let show = telemetry.finish_last_attempt(
            Some(failure.error.status_code as i64),
            Some(failure.error.message.as_str()),
        );
        if let (
            UpstreamErrorClass::QuotaLimited { status, upstream_code, reset_at, .. },
            Some(id),
        ) = (&failure.class, account) {
            if self.was_tried(id) {
                return (QueueStep::Next, show);
            }
            self.note_tried(account);
            let step = QueueStep::Limit {
                account: id.to_owned(),
                status: *status,
                code: *upstream_code,
                reset_at: *reset_at,
            };
            return (step, show);
        }
        self.note_tried(account);
        (QueueStep::Next, show)
    }

    /// What to do after a request has failed for good with an account. The flag
    /// says whether the record is to be shown.
    pub fn failed(
        &mut self,
        telemetry: &mut RequestTelemetry,
        account: Option<&str>,
        failure: &OutboundFailure,
    ) -> (r: (QueueStep, bool))
        ensures
            (final(self)@, final(telemetry)@, r.0@, r.1) == failed_step(
                old(self)@,
                old(telemetry)@,
                json::opt_text(account),
                failure@,
            ),
    {
        let (blocked, expired) = match &failure.class {
            UpstreamErrorClass::ContentBlocked { .. } => (true, false),
            UpstreamErrorClass::TokenExpired { .. } => (false, true),
            _ => (false, false),
        };
        if blocked && !self.degraded && self.degradable {
            self.degraded = true;
            return (QueueStep::Degrade, false);
        }
        if expired && !self.refreshed {
            self.refreshed = true;
            let mut reason = "token 被上游拒绝（401），刷新后重试一次（账号 ".to_owned();
            proof {
                assert("token 被上游拒绝（401），刷新后重试一次（账号 "@ + Seq::<char>::empty()
                    =~= "token 被上游拒绝（401），刷新后重试一次（账号 "@);
            }
            if let Some(id) = account {
                reason.append(id);
            }
            reason.append("）");
            let show = telemetry.note_attempt_retry(
                reason.as_str(),
                Some(failure.error.status_code as i64),
                0,
            );
            return (QueueStep::Refresh, show);
        }
        self.settle(telemetry, account, failure)
    }

    /// Whether the next account is asked after a limit; `found` says whether there
    /// is one.
    pub fn next_after_limit(&self, failure: &OutboundFailure, found: bool) -> (r: Result<
        (),
        GatewayError,
    >)
        ensures
            refusal(r) == limited_next(self@, failure@, found),
    {
        if found {
            return Ok(());
        }
        match &failure.class {
            UpstreamErrorClass::QuotaLimited { status, upstream_code, .. } => {
                let mut message = text::join3(
                    failure.error.message.as_str(),
                    "（所有候选账号对模型 ",
                    self.model.as_str(),
                );
                message.append(" 均已限额或禁用）");
                Err(
                    GatewayError::with_status(*status as i32, message).with_optional_code(
                        *upstream_code,
                    ),
                )
            },
            _ => Err(failure.error.copy()),
        }
    }

    /// Whether the next account is asked after any other failure; `found` says
    /// whether there is one.
    pub fn next_after_error(&mut self, error: GatewayError, found: bool) -> (r: Result<
        (),
        GatewayError,
    >)
        ensures
            (final(self)@, refusal(r)) == other_next(old(self)@, error@, found),
    {
        if found && self.take_switch() {
            Ok(())
        } else {
            Err(error)
        }
    }

    /// Takes one of the switches to another account; none are left where it fails.
    fn take_switch(&mut self) -> (r: bool)
        ensures
            r == (old(self)@.switches_left > 0),
            final(self)@ == (if r {
                QueueV {
                    switches_left: (old(self)@.switches_left - 1) as nat,
                    ..old(self)@
                }
            } else {
                old(self)@
            }),
    {
        if self.switches_left == 0 {
            return false;
        }
        self.switches_left = self.switches_left - 1;
        true
    }

    /// Notes the failure of an account of a custom provider; the result says whether
    /// the account is to rest.
    pub fn custom_failed(&mut self, account: Option<&str>, error: &GatewayError) -> (r: bool)
        ensures
            r == custom_rests(old(self)@, json::opt_text(account), error@),
            final(self)@ == with_tried(old(self)@, json::opt_text(account)),
    {
        match account {
            Some(id) => {
                let first = !self.was_tried(id);
                self.note_tried(account);
                first && error.is_quota_limit()
            },
            None => false,
        }
    }
}

// ------------------------------------------------------------------ one round

/// How a request is sent to an account: to a provider that a user has added, in a
/// conversation, or plainly; or not at all.
#[verifier::ext_equal]
pub enum DispatchV {
    Custom,
    Conversation,
    Plain,
    Refused(ErrorV),
}

/// How a request is sent to an account.
pub enum Dispatch {
    Custom,
    Conversation,
    Plain,
    Refused(GatewayError),
}

impl View for Dispatch {
    type V = DispatchV;

    open spec fn view(&self) -> DispatchV {
        match self {
            Dispatch::Custom => DispatchV::Custom,
            Dispatch::Conversation => DispatchV::Conversation,
            Dispatch::Plain => DispatchV::Plain,
            Dispatch::Refused(e) => DispatchV::Refused(e@),
        }
    }
}

/// How a request is sent to an account of a provider. A plain one needs an account,
/// unless the provider has a session without one.
pub open spec fn dispatch_of(
    provider: Seq<char>,
    stateful: bool,
    has_account: bool,
    anonymous: bool,
) -> DispatchV {
    if providers::is_custom(provider) {
        DispatchV::Custom
    } else if providers::kind_of(provider) is None {
        DispatchV::Refused(
            errors::plain_error(503, "账号所属提供商「"@ + provider + "」未知，无法转发"@),
        )
    } else if stateful {
        DispatchV::Conversation
    } else if !has_account && !anonymous {
        DispatchV::Refused(
            errors::plain_error(503, "没有可用账号，无账号可转发：请在账号页添加并启用账号"@),
        )
    } else {
        DispatchV::Plain
    }
}

/// How a request is sent to an account of a provider.
pub fn dispatch(provider: &str, stateful: bool, has_account: bool, anonymous: bool) -> (r: Dispatch)
    ensures
        r@ == dispatch_of(provider@, stateful, has_account, anonymous),
{
    if providers::is_custom_provider_id(provider) {
        return Dispatch::Custom;
    }
    if !providers::is_known_provider_id(provider) {
        let message = text::join3("账号所属提供商「", provider, "」未知，无法转发");
        return Dispatch::Refused(GatewayError::with_status(503, message));
    }
    if stateful {
        return Dispatch::Conversation;
    }
    if !has_account && !anonymous {
        return Dispatch::Refused(
            GatewayError::with_status(
                503,
                "没有可用账号，无账号可转发：请在账号页添加并启用账号".to_owned(),
            ),
        );
    }
    Dispatch::Plain
}

/// The error of a conversation without an account, where the provider needs one.
pub open spec fn conversation_refused(label: Seq<char>, has_account: bool, anonymous: bool) -> Option<
    ErrorV,
> {
    if !has_account && !anonymous {
        Some(
            errors::plain_error(
                503,
                label + " 没有可用账号，无账号可转发：请在账号页添加并启用账号"@,
            ),
        )
    } else {
        None
    }
}

/// Whether a conversation can be begun with an account.
pub fn conversation_allowed(label: &str, has_account: bool, anonymous: bool) -> (r: Result<
    (),
    GatewayError,
>)
    ensures
        refusal(r) == conversation_refused(label@, has_account, anonymous),
{
    if !has_account && !anonymous {
        return Err(
            GatewayError::with_status(
                503,
                text::join2(label, " 没有可用账号，无账号可转发：请在账号页添加并启用账号"),
            ),
        );
    }
    Ok(())
}

/// An attempt in the record: it is counted, its detail begins, and a notice goes
/// with it where there is one. The flag says whether the record is to be shown.
pub open spec fn attempt_begun(
    t: TelemetryV,
    account: Option<Seq<char>>,
    name: Seq<char>,
    provider: Seq<char>,
    notice: Option<Seq<char>>,
) -> (TelemetryV, bool) {
    let (t1, s1) = usage::shown(usage::attempted(t, account, name, provider));
    let (t2, s2) = if t1.snap.details.len() >= usage::MAX_ATTEMPT_DETAILS {
        (t1, false)
    } else {
        usage::shown(usage::begun(t1, provider, name))
    };
    let (t3, s3) = match notice {
        Some(text) => if usage::noteworthy(t2, text) {
            usage::shown(usage::noticed(t2, text))
        } else {
            (t2, false)
        },
        None => (t2, false),
    };
    (t3, s1 || s2 || s3)
}

/// Begins an attempt in the record.
pub fn begin_attempt(
    telemetry: &mut RequestTelemetry,
    account: Option<&str>,
    name: &str,
    provider: &str,
    notice: Option<&str>,
) -> (r: bool)
    ensures
        (final(telemetry)@, r) == attempt_begun(
            old(telemetry)@,
            json::opt_text(account),
            name@,
            provider@,
            json::opt_text(notice),
        ),
{
    let s1 = telemetry.note_attempt(account, name, provider);
    let s2 = telemetry.note_attempt_started(provider, name);
    let s3 = match notice {
        Some(text) => telemetry.note_attempt_notice(text),
        None => false,
    };
    s1 || s2 || s3
}

/// An attempt that begins leaves the details in step with the count of attempts.
pub proof fn attempt_begins_in_step(
    t: TelemetryV,
    account: Option<Seq<char>>,
    name: Seq<char>,
    provider: Seq<char>,
    notice: Option<Seq<char>>,
)
    requires
        usage::in_step(t.snap),
        t.snap.attempts < i64::MAX,
    ensures
        usage::in_step(attempt_begun(t, account, name, provider, notice).0.snap),
        attempt_begun(t, account, name, provider, notice).0.snap.attempts == t.snap.attempts + 1,
{
}

/// Ends an attempt in the record with an answer of the upstream; a conversation
/// has no status.
pub fn attempt_succeeded(telemetry: &mut RequestTelemetry, status: Option<i64>) -> (r: bool)
    ensures
        (final(telemetry)@, r) == ending_noted(old(telemetry)@, status, None),
{
    telemetry.finish_last_attempt(status, None)
}

/// Ends an attempt in the record with an error.
pub fn attempt_failed(telemetry: &mut RequestTelemetry, error: &GatewayError) -> (r: bool)
    ensures
        (final(telemetry)@, r) == ending_noted(
            old(telemetry)@,
            Some(error@.status as i64),
            Some(error@.message),
        ),
{
    telemetry.finish_last_attempt(Some(error.status_code as i64), Some(error.message.as_str()))
}

/// The reason noted when the neutral prompt comes into force: until when, and what
/// comes back then.
pub open spec fn degrade_reason(until: Seq<char>, label: Seq<char>) -> Seq<char> {
    "内容策略拦截（疑似 system 指纹误报），换中性提示词重试一次；降级持续到 "@ + until
        + "（届时恢复「"@ + label + "」）"@
}

/// Notes in the record that the neutral prompt is tried.
pub fn note_degraded(
    telemetry: &mut RequestTelemetry,
    until: &str,
    label: &str,
    error: &GatewayError,
) -> (r: bool)
    ensures
        (final(telemetry)@, r) == retry_noted(
            old(telemetry)@,
            degrade_reason(until@, label@),
            Some(error@.status as i64),
            0,
        ),
{
    let mut reason = text::join3(
        "内容策略拦截（疑似 system 指纹误报），换中性提示词重试一次；降级持续到 ",
        until,
        "（届时恢复「",
    );
    reason.append(label);
    reason.append("」）");
    telemetry.note_attempt_retry(reason.as_str(), Some(error.status_code as i64), 0)
}

// ---------------------------------------------------------------- candidates

/// What a key of the gateway may be used for: whether the providers are limited,
/// to which, and how that is told.
pub struct KeyScope {
    pub restricted: bool,
    pub providers: Vec<String>,
    pub description: String,
}

/// What a key of the gateway may be used for.
#[verifier::ext_equal]
pub struct ScopeV {
    pub restricted: bool,
    pub providers: Seq<Seq<char>>,
    pub description: Seq<char>,
}

impl View for KeyScope {
    type V = ScopeV;

    open spec fn view(&self) -> ScopeV {
        ScopeV {
            restricted: self.restricted,
            providers: protocol::texts(self.providers@),
            description: self.description@,
        }
    }
}

impl ScopeV {
    /// Whether a provider may be used.
    pub open spec fn allows(self, provider: Seq<char>) -> bool {
        !self.restricted || self.providers.contains(provider)
    }
}

/// What a key may be used for, where there is one.
pub open spec fn opt_scope(s: Option<&KeyScope>) -> Option<ScopeV> {
    match s {
        Some(v) => Some(v@),
        None => None,
    }
}

/// Whether a provider may be used.
pub open spec fn scope_allows(scope: Option<ScopeV>, provider: Seq<char>) -> bool {
    match scope {
        Some(s) => s.allows(provider),
        None => true,
    }
}

impl KeyScope {
    /// Whether a provider may be used.
    pub fn allows_provider(&self, provider: &str) -> (r: bool)
        ensures
            r == self@.allows(provider@),
    {
        if !self.restricted {
            return true;
        }
        let mut i: usize = 0;
        while i < self.providers.len()
            invariant
                i <= self.providers@.len(),
                forall|k: int| 0 <= k < i ==> #[trigger] self@.providers[k] != provider@,
            decreases self.providers@.len() - i,
        {
            if text::same(self.providers[i].as_str(), provider) {
                proof {
                    assert(self@.providers[i as int] == provider@);
                }
                return true;
            }
            i = i + 1;
        }
        false
    }
}

/// Whether a provider may be used.
pub fn scope_permits(scope: Option<&KeyScope>, provider: &str) -> (r: bool)
    ensures
        r == scope_allows(opt_scope(scope), provider@),
{
    match scope {
        Some(s) => s.allows_provider(provider),
        None => true,
    }
}

/// The first `n` providers that may be used.
pub open spec fn allowed(list: Seq<Seq<char>>, scope: Option<ScopeV>, n: nat) -> Seq<Seq<char>>
    decreases n,
{
    if n == 0 {
        Seq::empty()
    } else {
        let before = allowed(list, scope, (n - 1) as nat);
        if scope_allows(scope, list[n - 1]) {
            before.push(list[n - 1])
        } else {
            before
        }
    }
}

/// The providers that a request may go to, or why there are none: the model is
/// closed, nobody carries it, or the key is not good for those that do.
pub open spec fn candidates_of(
    list: Seq<Seq<char>>,
    closed: bool,
    scope: Option<ScopeV>,
    model: Seq<char>,
) -> Result<Seq<Seq<char>>, ErrorV> {
    if list.len() == 0 {
        if closed {
            Err(
                ErrorV {
                    code: Some("model_not_found"@),
                    ..errors::plain_error(
                        404,
                        "模型已在网关中关闭: "@ + model + "。完整列表见 GET /v1/models"@,
                    )
                },
            )
        } else {
            Err(errors::plain_error(500, "没有可用的提供商，无法转发"@))
        }
    } else {
        let kept = allowed(list, scope, list.len());
        if kept.len() > 0 {
            Ok(kept)
        } else {
            Err(
                ErrorV {
                    code: Some("model_not_found"@),
                    ..errors::plain_error(
                        404,
                        "模型 '"@ + model
                            + "' 不可用：提供它的提供商都不在这把网关 Key 的可用提供商列表里（"@
                            + (match scope {
                            Some(s) => s.description,
                            None => Seq::empty(),
                        }) + "）"@,
                    )
                },
            )
        }
    }
}

/// What came of the choice of providers.
pub open spec fn chosen(r: Result<Vec<String>, GatewayError>) -> Result<Seq<Seq<char>>, ErrorV> {
    match r {
        Ok(v) => Ok(protocol::texts(v@)),
        Err(e) => Err(e@),
    }
}

/// Without a limit every provider that carries the model may be used.
pub proof fn unlimited_keeps_all(list: Seq<Seq<char>>, scope: Option<ScopeV>, n: nat)
    requires
        n <= list.len(),
        scope matches Some(s) ==> !s.restricted,
    ensures
        allowed(list, scope, n) == list.take(n as int),
    decreases n,
{
    if n > 0 {
        unlimited_keeps_all(list, scope, (n - 1) as nat);
        assert(list.take(n - 1).push(list[n - 1]) =~= list.take(n as int));
    } else {
        assert(list.take(0) =~= Seq::empty());
    }
}

/// The providers that a request may go to. `candidates` are those that carry the
/// model, `closed` says whether it is closed everywhere.
pub fn filter_by_key_scope(
    candidates: &Vec<String>,
    closed: bool,
    scope: Option<&KeyScope>,
    model: &str,
) -> (r: Result<Vec<String>, GatewayError>)
    ensures
        chosen(r) == candidates_of(protocol::texts(candidates@), closed, opt_scope(scope), model@),
{
    if candidates.len() == 0 {
        if closed {
            let message = text::join3("模型已在网关中关闭: ", model, "。完整列表见 GET /v1/models");
            return Err(GatewayError::with_status(404, message).with_code("model_not_found"));
        }
        return Err(GatewayError::new("没有可用的提供商，无法转发".to_owned()));
    }
    let ghost list = protocol::texts(candidates@);
    let mut kept: Vec<String> = Vec::new();
    let mut i: usize = 0;
    proof {
        assert(protocol::texts(kept@) =~= Seq::empty());
    }
    while i < candidates.len()
        invariant
            i <= candidates@.len(),
            list == protocol::texts(candidates@),
            protocol::texts(kept@) == allowed(list, opt_scope(scope), i as nat),
        decreases candidates@.len() - i,
    {
        if scope_permits(scope, candidates[i].as_str()) {
            let one = candidates[i].clone();
            proof {
                protocol::texts_push(kept@, one);
            }
            kept.push(one);
        }
        i = i + 1;
    }
    if kept.len() > 0 {
        return Ok(kept);
    }
    let mut message = text::join3(
        "模型 '",
        model,
        "' 不可用：提供它的提供商都不在这把网关 Key 的可用提供商列表里（",
    );
    proof {
        assert(message@ + Seq::<char>::empty() =~= message@);
    }
    if let Some(s) = scope {
        message.append(s.description.as_str());
    }
    message.append("）");
    Err(GatewayError::with_status(404, message).with_code("model_not_found"))
}

// -------------------------------------------------------------------- labels

/// The model that a request names; an empty name where it names none.
pub open spec fn named_model(body: Jv) -> Seq<char> {
    json::str_or_empty(body.get("model"@))
}

/// The model that a request names.
pub fn model_of(body: &Json) -> (r: String)
    ensures
        r@ == named_model(body@),
{
    json::str_or(body.get("model"))
}

/// How a model is told of: by the name that the upstream knows, with the name of
/// the request before it where that is another.
pub open spec fn model_label(requested: Seq<char>, wire: Seq<char>) -> Seq<char> {
    let asked = text::trimmed(requested);
    let sent = text::trimmed(wire);
    if sent.len() == 0 {
        protocol::or_else(asked, "(默认)"@)
    } else if asked.len() == 0 || text::same_fold(asked, sent) {
        sent
    } else {
        asked + " → "@ + sent
    }
}

/// How a model is told of.
pub fn limit_model_label(requested: &str, wire: &str) -> (r: String)
    ensures
        r@ == model_label(requested@, wire@),
{
    let asked = text::trim(requested);
    let sent = text::trim(wire);
    if sent.as_str().is_empty() {
        return protocol::or_text(asked, "(默认)");
    }
    if asked.as_str().is_empty() || text::eq_fold(asked.as_str(), sent.as_str()) {
        return sent;
    }
    text::join3(asked.as_str(), " → ", sent.as_str())
}

/// The name under which the model appears in the answer, where the provider gives
/// it another: that of the request.
pub fn model_rewrite_of(rewrites: bool, model: &str) -> (r: Option<String>)
    ensures
        json::opt_string(r) == (if rewrites {
            Some(model@)
        } else {
            None
        }),
{
    if rewrites {
        Some(model.to_owned())
    } else {
        None
    }
}

/// The event that an account can be used again, where it could not: it has a
/// limit, and a request of it succeeded.
pub open spec fn recovery(label: Seq<char>, model: Seq<char>, had_limit: bool) -> Option<Seq<char>> {
    if had_limit {
        Some("账号「"@ + label + "」对模型 "@ + model + " 已恢复可用"@)
    } else {
        None
    }
}

/// The event that an account can be used again.
pub fn cap_cleared(label: &str, model_label: &str, had_limit: bool) -> (r: Option<String>)
    ensures
        json::opt_string(r) == recovery(label@, model_label@, had_limit),
{
    if !had_limit {
        return None;
    }
    let mut out = text::join3("账号「", label, "」对模型 ");
    out.append(model_label);
    out.append(" 已恢复可用");
    Some(out)
}

} // verus!
