//! The way of a request from account to account until it is answered or given up.

use crate::errors::ErrorV;
use crate::providers;
use crate::upstream::journey::{ActionV, EventV, JourneyV, PhaseV};
use crate::upstream::journey;
use crate::upstream::provider_loop::FailureV;
use crate::upstream::provider_loop;
use crate::upstream::usage::TelemetryV;
use vstd::prelude::*;

verus! {

/// A request begins by choosing an account, with all its attempts and all its switches; the
/// prompt is a neutral one only where that may be.
pub proof fn requests_begin(
    model: Seq<char>,
    resends: nat,
    switches: nat,
    degraded: bool,
    degradable: bool,
)
    ensures
        ({
            let j = journey::begun_journey(
                provider_loop::fresh_queue(model, resends, switches, degraded, degradable),
            );
            &&& j.phase is Choosing
            &&& j.account is None
            &&& j.queue.tried.len() == 0
            &&& j.queue.budget.remaining == resends && j.queue.budget.total == resends
            &&& j.queue.switches_left == switches
            &&& j.queue.degraded == (degraded && degradable)
            &&& j.queue.degradable == degradable
            &&& j.queue.rounds == 1
            &&& !j.queue.refreshed
            &&& j.queue.model == model
        }),
{
}

/// A chosen account is asked in the way of its provider, with the prompt that is in force.
pub proof fn chosen_account_is_asked(
    j: JourneyV,
    t: TelemetryV,
    account: Option<Seq<char>>,
    provider: Seq<char>,
    stateful: bool,
    anonymous: bool,
)
    requires
        j.phase is Choosing,
    ensures
        ({
            let event = EventV::Chosen { account, provider, stateful, anonymous };
            let (after, u, action, told) = journey::journey_step(j, t, event);
            let custom = providers::is_custom(provider);
            let known = providers::kind_of(provider) is Some;
            let neutral = j.queue.degraded;
            &&& after.account == account
            &&& after.queue == j.queue
            &&& u == t && !told
            &&& custom ==> action == (ActionV::SendCustom { neutral }) && after.phase is Elsewhere
                && after.custom
            &&& !custom && known && stateful ==> action == (ActionV::Converse { neutral })
                && after.phase is Elsewhere && !after.custom
            &&& !custom && known && !stateful && (account is Some || anonymous) ==> action == (
            ActionV::Send { neutral }) && after.phase is Sending
            &&& !custom && (!known || (!stateful && account is None && !anonymous)) ==> (action matches ActionV::Fail(
                e,
            ) && e.status == 503) && after.phase is Over
        }),
{
}

/// An answer is handed on, and the request is over.
pub proof fn answers_are_handed_on(j: JourneyV, t: TelemetryV, status: int)
    ensures
        j.phase is Sending ==> ({
            let (after, _, action, _) = journey::journey_step(j, t, EventV::Answered { status });
            action is Finish && after.phase is Over
        }),
        j.phase is Elsewhere ==> ({
            let (after, _, action, _) = journey::journey_step(j, t, EventV::ElsewhereDone);
            action is Finish && after.phase is Over
        }),
{
}

/// What follows a failure: a neutral prompt, a fresh token, rest for the account, or the next
/// account.
pub proof fn failures_are_met(j: JourneyV, t: TelemetryV, f: FailureV)
    requires
        j.phase is Sending,
    ensures
        ({
            let (after, _, action, _) = journey::journey_step(j, t, EventV::Failed(f));
            &&& f.class is ContentBlocked && j.queue.degradable && !j.queue.degraded
                ==> action is SendNeutral && after.phase is Sending && after.queue.degraded
                && after.queue.tried == j.queue.tried
            &&& f.class is TokenExpired && !j.queue.refreshed ==> action is Renew && after.phase
                == PhaseV::Renewing(f) && after.queue.refreshed && after.queue.tried == j.queue.tried
            &&& (j.account matches Some(id) ==> f.class is QuotaLimited && !j.queue.tried.contains(id)
                ==> (action matches ActionV::Rest { account, status, code, reset_at } && account == id
                && status == f.class->QuotaLimited_status && code
                == f.class->QuotaLimited_upstream_code && reset_at
                == f.class->QuotaLimited_reset_at) && after.phase == PhaseV::Limited(f)
                && after.queue.tried == j.queue.tried.push(id))
            &&& f.class is Fatal ==> action is Look && after.phase == PhaseV::Looking(f.error)
            &&& after.account == j.account
        }),
{
}

/// A fresh token is used with the same account; where there is none, the next account is looked
/// for with the error of the failure.
pub proof fn renewed_token_is_used(j: JourneyV, t: TelemetryV, f: FailureV)
    requires
        j.phase == PhaseV::Renewing(f),
        f.class is TokenExpired,
    ensures
        ({
            let (after, u, action, _) = journey::journey_step(j, t, EventV::Renewed(true));
            &&& action == (ActionV::Send { neutral: j.queue.degraded })
            &&& after == (JourneyV { phase: PhaseV::Sending, ..j })
            &&& u == t
        }),
        ({
            let (after, _, action, _) = journey::journey_step(j, t, EventV::Renewed(false));
            &&& action is Look
            &&& after.phase == PhaseV::Looking(f.error)
            &&& (j.account matches Some(id) ==> after.queue.tried.contains(id))
        }),
{
    let after = journey::journey_step(j, t, EventV::Renewed(false)).0;
    if let Some(id) = j.account {
        if !j.queue.tried.contains(id) {
            assert(after.queue.tried[j.queue.tried.len() as int] == id);
        }
    }
}

/// After a limit another account costs no switch; without one the request is given up with the
/// status of the limit.
pub proof fn limits_go_to_the_next(j: JourneyV, t: TelemetryV, f: FailureV)
    requires
        j.phase == PhaseV::Limited(f),
        f.class is QuotaLimited,
    ensures
        j.queue.rounds <= 32 ==> ({
            let (after, _, action, _) = journey::journey_step(j, t, EventV::Next(true));
            &&& action is Choose
            &&& after.phase is Choosing
            &&& after.queue.rounds == j.queue.rounds + 1
            &&& after.queue.switches_left == j.queue.switches_left
            &&& after.queue.tried == j.queue.tried
            &&& !after.queue.refreshed
        }),
        ({
            let (after, _, action, _) = journey::journey_step(j, t, EventV::Next(false));
            &&& action matches ActionV::Fail(e) && e.status == f.class->QuotaLimited_status
                && e.upstream_code == f.class->QuotaLimited_upstream_code
            &&& after.phase is Over
        }),
{
}

/// After any other failure another account costs one switch; without a switch or an account the
/// request is given up with the error itself.
pub proof fn failures_go_to_the_next(j: JourneyV, t: TelemetryV, e: ErrorV, found: bool)
    requires
        j.phase == PhaseV::Looking(e),
    ensures
        ({
            let (after, _, action, _) = journey::journey_step(j, t, EventV::Next(found));
            &&& found && j.queue.switches_left > 0 && j.queue.rounds <= 32 ==> action is Choose
                && after.phase is Choosing && after.queue.switches_left == j.queue.switches_left - 1
                && after.queue.rounds == j.queue.rounds + 1 && after.queue.tried == j.queue.tried
            &&& !found || j.queue.switches_left == 0 ==> action == ActionV::Fail(e)
                && after.phase is Over
        }),
{
}

/// A conversation or a custom provider that fails is done with; a custom account that says that
/// there are too many requests rests.
pub proof fn others_fail_too(j: JourneyV, t: TelemetryV, e: ErrorV, id: Seq<char>)
    requires
        j.phase is Elsewhere,
        j.account == Some(id),
    ensures
        ({
            let (after, _, action, _) = journey::journey_step(j, t, EventV::ElsewhereFailed(e));
            let rests = j.custom && e.status == 429 && !j.queue.tried.contains(id);
            &&& after.phase == PhaseV::Looking(e)
            &&& after.queue.tried.contains(id)
            &&& rests ==> (action matches ActionV::Rest { account, status, code, reset_at } && account == id
                && status == 429 && code == e.upstream_code && reset_at is None)
            &&& !rests ==> action is Look
        }),
{
    let after = journey::journey_step(j, t, EventV::ElsewhereFailed(e)).0;
    if !j.queue.tried.contains(id) {
        assert(after.queue.tried[j.queue.tried.len() as int] == id);
    }
}

/// What cannot be sent is given up at once, with what is wrong.
pub proof fn hopeless_is_given_up(j: JourneyV, t: TelemetryV, e: ErrorV)
    ensures
        j.phase is Choosing ==> journey::journey_step(j, t, EventV::NotChosen(e)).2 == ActionV::Fail(e)
            && journey::journey_step(j, t, EventV::NotChosen(e)).0.phase is Over,
        j.phase is Sending ==> journey::journey_step(j, t, EventV::Unready(e)).2 == ActionV::Fail(e)
            && journey::journey_step(j, t, EventV::Unready(e)).0.phase is Over,
        j.phase is Sending ==> journey::journey_step(j, t, EventV::Unbuilt(e)).2 == ActionV::Fail(e)
            && journey::journey_step(j, t, EventV::Unbuilt(e)).0.phase is Over,
{
}

/// What was not waited for changes nothing.
pub proof fn unexpected_is_ignored(j: JourneyV, t: TelemetryV, event: EventV)
    requires
        match event {
            EventV::Chosen { .. } => j.phase !is Choosing,
            EventV::NotChosen(_) => j.phase !is Choosing,
            EventV::Unready(_) => j.phase !is Sending,
            EventV::Unbuilt(_) => j.phase !is Sending,
            EventV::Answered { .. } => j.phase !is Sending,
            EventV::Failed(_) => j.phase !is Sending,
            EventV::Renewed(_) => j.phase !is Renewing,
            EventV::ElsewhereDone => j.phase !is Elsewhere,
            EventV::ElsewhereFailed(_) => j.phase !is Elsewhere,
            EventV::Next(_) => j.phase !is Limited && j.phase !is Looking,
        },
    ensures
        journey::journey_step(j, t, event) == (j, t, ActionV::Ignore, false),
{
}

} // verus!
