//! The way of one request, from the first account to its end.
//!
//! Each step takes what has just happened, and gives what is to be done next. Choosing
//! an account, sending, renewing a token and looking whether another account is left
//! lie with the caller.

use crate::errors::{ErrorV, GatewayError};
use crate::json;
use crate::providers;
use crate::upstream::provider_loop::{AttemptQueue, ClassV, Dispatch, DispatchV, FailureV, OutboundFailure, QueueStep, QueueV, StepV};
use crate::upstream::provider_loop;
use crate::upstream::usage::{RequestTelemetry, TelemetryV};
use vstd::prelude::*;
use vstd::string::*;

verus! {

/// What a request is waiting for.
pub enum Phase {
    /// An account.
    Choosing,
    /// The answer to a plain request.
    Sending,
    /// The outcome of a conversation, or of a provider that a user has added.
    Elsewhere,
    /// A fresh token after a failure.
    Renewing(OutboundFailure),
    /// Another account after a limit.
    Limited(OutboundFailure),
    /// Another account after any other failure.
    Looking(GatewayError),
    /// Nothing any more.
    Over,
}

/// What a request is waiting for.
#[verifier::ext_equal]
pub enum PhaseV {
    Choosing,
    Sending,
    Elsewhere,
    Renewing(FailureV),
    Limited(FailureV),
    Looking(ErrorV),
    Over,
}

impl View for Phase {
    type V = PhaseV;

    open spec fn view(&self) -> PhaseV {
        match self {
            Phase::Choosing => PhaseV::Choosing,
            Phase::Sending => PhaseV::Sending,
            Phase::Elsewhere => PhaseV::Elsewhere,
            Phase::Renewing(f) => PhaseV::Renewing(f@),
            Phase::Limited(f) => PhaseV::Limited(f@),
            Phase::Looking(e) => PhaseV::Looking(e@),
            Phase::Over => PhaseV::Over,
        }
    }
}

/// What has happened.
pub enum Event {
    /// An account was chosen, or the session without one: its provider, whether that
    /// one holds conversations, and whether it has a session without an account.
    Chosen { account: Option<String>, provider: String, stateful: bool, anonymous: bool },
    /// No account could be chosen.
    NotChosen(GatewayError),
    /// There are no credentials for the account.
    Unready(GatewayError),
    /// The request to the upstream could not be made.
    Unbuilt(GatewayError),
    /// The upstream has answered.
    Answered { status: u16 },
    /// The request has failed for good with this account.
    Failed(OutboundFailure),
    /// The token was renewed, or could not be.
    Renewed(bool),
    /// A conversation, or a provider that a user has added, has answered.
    ElsewhereDone,
    /// It has failed.
    ElsewhereFailed(GatewayError),
    /// Whether another account is left.
    Next(bool),
}

/// What has happened.
#[verifier::ext_equal]
pub enum EventV {
    Chosen { account: Option<Seq<char>>, provider: Seq<char>, stateful: bool, anonymous: bool },
    NotChosen(ErrorV),
    Unready(ErrorV),
    Unbuilt(ErrorV),
    Answered { status: int },
    Failed(FailureV),
    Renewed(bool),
    ElsewhereDone,
    ElsewhereFailed(ErrorV),
    Next(bool),
}

impl View for Event {
    type V = EventV;

    open spec fn view(&self) -> EventV {
        match self {
            Event::Chosen { account, provider, stateful, anonymous } => EventV::Chosen {
                account: json::opt_string(*account),
                provider: provider@,
                stateful: *stateful,
                anonymous: *anonymous,
            },
            Event::NotChosen(e) => EventV::NotChosen(e@),
            Event::Unready(e) => EventV::Unready(e@),
            Event::Unbuilt(e) => EventV::Unbuilt(e@),
            Event::Answered { status } => EventV::Answered { status: *status as int },
            Event::Failed(f) => EventV::Failed(f@),
            Event::Renewed(ok) => EventV::Renewed(*ok),
            Event::ElsewhereDone => EventV::ElsewhereDone,
            Event::ElsewhereFailed(e) => EventV::ElsewhereFailed(e@),
            Event::Next(found) => EventV::Next(*found),
        }
    }
}

/// What is to be done.
pub enum Action {
    /// Choose an account.
    Choose,
    /// Send the request plainly; `neutral` is whether the neutral prompt goes with it.
    Send { neutral: bool },
    /// Send it to the provider that a user has added.
    SendCustom { neutral: bool },
    /// Send it in a conversation.
    Converse { neutral: bool },
    /// Put the neutral prompt into force, and send the request with it.
    SendNeutral,
    /// Renew the token.
    Renew,
    /// Let the account rest, then look whether another one is left.
    Rest { account: String, status: i32, code: Option<i64>, reset_at: Option<u64> },
    /// Look whether another account is left.
    Look,
    /// Hand the answer on.
    Finish,
    /// Give the request up with this error.
    Fail(GatewayError),
    /// Nothing: what has happened was not waited for.
    Ignore,
}

/// What is to be done.
#[verifier::ext_equal]
pub enum ActionV {
    Choose,
    Send { neutral: bool },
    SendCustom { neutral: bool },
    Converse { neutral: bool },
    SendNeutral,
    Renew,
    Rest { account: Seq<char>, status: int, code: Option<i64>, reset_at: Option<u64> },
    Look,
    Finish,
    Fail(ErrorV),
    Ignore,
}

impl View for Action {
    type V = ActionV;

    open spec fn view(&self) -> ActionV {
        match self {
            Action::Choose => ActionV::Choose,
            Action::Send { neutral } => ActionV::Send { neutral: *neutral },
            Action::SendCustom { neutral } => ActionV::SendCustom { neutral: *neutral },
            Action::Converse { neutral } => ActionV::Converse { neutral: *neutral },
            Action::SendNeutral => ActionV::SendNeutral,
            Action::Renew => ActionV::Renew,
            Action::Rest { account, status, code, reset_at } => ActionV::Rest {
                account: account@,
                status: *status as int,
                code: *code,
                reset_at: *reset_at,
            },
            Action::Look => ActionV::Look,
            Action::Finish => ActionV::Finish,
            Action::Fail(e) => ActionV::Fail(e@),
            Action::Ignore => ActionV::Ignore,
        }
    }
}

/// The way of a request: the accounts behind it, the account it is with, whether a user
/// has added that one's provider, and what it is waiting for.
pub struct Journey {
    pub queue: AttemptQueue,
    pub account: Option<String>,
    pub custom: bool,
    pub phase: Phase,
}

/// The way of a request.
#[verifier::ext_equal]
pub struct JourneyV {
    pub queue: QueueV,
    pub account: Option<Seq<char>>,
    pub custom: bool,
    pub phase: PhaseV,
}

impl View for Journey {
    type V = JourneyV;

    open spec fn view(&self) -> JourneyV {
        JourneyV {
            queue: self.queue@,
            account: json::opt_string(self.account),
            custom: self.custom,
            phase: self.phase@,
        }
    }
}

/// The request is given up.
pub open spec fn given_up(j: JourneyV, e: ErrorV) -> (JourneyV, ActionV) {
    (JourneyV { phase: PhaseV::Over, ..j }, ActionV::Fail(e))
}

/// One more account is asked, unless too many were.
pub open spec fn another_round(j: JourneyV) -> (JourneyV, ActionV) {
    match provider_loop::round_step(j.queue) {
        (q, None) => (JourneyV { queue: q, phase: PhaseV::Choosing, ..j }, ActionV::Choose),
        (q, Some(e)) => given_up(JourneyV { queue: q, ..j }, e),
    }
}

/// An account was chosen.
pub open spec fn chosen_step(
    j: JourneyV,
    account: Option<Seq<char>>,
    provider: Seq<char>,
    stateful: bool,
    anonymous: bool,
) -> (JourneyV, ActionV) {
    let neutral = j.queue.degraded;
    let next = JourneyV { account, custom: providers::is_custom(provider), ..j };
    match provider_loop::dispatch_of(provider, stateful, account is Some, anonymous) {
        DispatchV::Custom => (
            JourneyV { phase: PhaseV::Elsewhere, ..next },
            ActionV::SendCustom { neutral },
        ),
        DispatchV::Conversation => (
            JourneyV { phase: PhaseV::Elsewhere, ..next },
            ActionV::Converse { neutral },
        ),
        DispatchV::Plain => (JourneyV { phase: PhaseV::Sending, ..next }, ActionV::Send { neutral }),
        DispatchV::Refused(e) => given_up(next, e),
    }
}

/// What follows a failure, as the queue says.
pub open spec fn failure_step(j: JourneyV, q: QueueV, step: StepV, f: FailureV) -> (
    JourneyV,
    ActionV,
) {
    let next = JourneyV { queue: q, ..j };
    match step {
        StepV::Degrade => (JourneyV { phase: PhaseV::Sending, ..next }, ActionV::SendNeutral),
        StepV::Refresh => (JourneyV { phase: PhaseV::Renewing(f), ..next }, ActionV::Renew),
        StepV::Limit { account, status, code, reset_at } => (
            JourneyV { phase: PhaseV::Limited(f), ..next },
            ActionV::Rest { account, status: status as int, code, reset_at },
        ),
        StepV::Next => (JourneyV { phase: PhaseV::Looking(f.error), ..next }, ActionV::Look),
    }
}

/// A conversation, or a provider that a user has added, has failed. Only the latter lets
/// its account rest.
pub open spec fn elsewhere_step(j: JourneyV, e: ErrorV) -> (JourneyV, ActionV) {
    let next = JourneyV {
        queue: provider_loop::with_tried(j.queue, j.account),
        phase: PhaseV::Looking(e),
        ..j
    };
    if j.custom && provider_loop::custom_rests(j.queue, j.account, e) {
        (
            next,
            ActionV::Rest {
                account: j.account->0,
                status: e.status,
                code: e.upstream_code,
                reset_at: None,
            },
        )
    } else {
        (next, ActionV::Look)
    }
}

/// What follows something that has happened: the way, the record, what is to be done,
/// and whether the record is to be shown.
pub open spec fn journey_step(j: JourneyV, t: TelemetryV, event: EventV) -> (
    JourneyV,
    TelemetryV,
    ActionV,
    bool,
) {
    match (j.phase, event) {
        (PhaseV::Choosing, EventV::Chosen { account, provider, stateful, anonymous }) => {
            let (k, a) = chosen_step(j, account, provider, stateful, anonymous);
            (k, t, a, false)
        },
        (PhaseV::Choosing, EventV::NotChosen(e)) => {
            let (k, a) = given_up(j, e);
            (k, t, a, false)
        },
        (PhaseV::Sending, EventV::Unready(e)) => {
            let (k, a) = given_up(j, e);
            (k, t, a, false)
        },
        (PhaseV::Sending, EventV::Unbuilt(e)) => {
            let (u, show) = provider_loop::ending_noted(t, Some(e.status as i64), Some(e.message));
            let (k, a) = given_up(j, e);
            (k, u, a, show)
        },
        (PhaseV::Sending, EventV::Answered { status }) => {
            let (u, show) = provider_loop::ending_noted(t, Some(status as i64), None);
            (JourneyV { phase: PhaseV::Over, ..j }, u, ActionV::Finish, show)
        },
        (PhaseV::Sending, EventV::Failed(f)) => {
            let (q, u, step, show) = provider_loop::failed_step(j.queue, t, j.account, f);
            let (k, a) = failure_step(j, q, step, f);
            (k, u, a, show)
        },
        (PhaseV::Renewing(f), EventV::Renewed(ok)) => if ok {
            (
                JourneyV { phase: PhaseV::Sending, ..j },
                t,
                ActionV::Send { neutral: j.queue.degraded },
                false,
            )
        } else {
            let (q, u, step, show) = provider_loop::settle_step(j.queue, t, j.account, f);
            let (k, a) = failure_step(j, q, step, f);
            (k, u, a, show)
        },
        (PhaseV::Elsewhere, EventV::ElsewhereDone) => (
            JourneyV { phase: PhaseV::Over, ..j },
            t,
            ActionV::Finish,
            false,
        ),
        (PhaseV::Elsewhere, EventV::ElsewhereFailed(e)) => {
            let (k, a) = elsewhere_step(j, e);
            (k, t, a, false)
        },
        (PhaseV::Limited(f), EventV::Next(found)) => {
            let (k, a) = match provider_loop::limited_next(j.queue, f, found) {
                None => another_round(j),
                Some(e) => given_up(j, e),
            };
            (k, t, a, false)
        },
        (PhaseV::Looking(e), EventV::Next(found)) => {
            let (k, a) = match provider_loop::other_next(j.queue, e, found) {
                (q, None) => another_round(JourneyV { queue: q, ..j }),
                (q, Some(err)) => given_up(JourneyV { queue: q, ..j }, err),
            };
            (k, t, a, false)
        },
        _ => (j, t, ActionV::Ignore, false),
    }
}

impl Journey {
    /// The beginning of the way: an account is to be chosen.
    pub fn start(
        model: &str,
        resends: usize,
        switches: usize,
        degraded: bool,
        degradable: bool,
    ) -> (r: Journey)
        ensures
            r@ == begun_journey(
                provider_loop::fresh_queue(model@, resends as nat, switches as nat, degraded, degradable),
            ),
    {
        let mut queue = AttemptQueue::new(model, resends, switches, degraded, degradable);
        let _ = queue.begin_round();
        Journey { queue, account: None, custom: false, phase: Phase::Choosing }
    }

    fn give_up(&mut self, e: GatewayError) -> (r: Action)
        ensures
            (final(self)@, r@) == given_up(old(self)@, e@),
    {
        self.phase = Phase::Over;
        Action::Fail(e)
    }

    fn next_round(&mut self) -> (r: Action)
        ensures
            (final(self)@, r@) == another_round(old(self)@),
    {
        match self.queue.begin_round() {
            Ok(_) => {
                self.phase = Phase::Choosing;
                Action::Choose
            },
            Err(e) => self.give_up(e),
        }
    }

    fn take_account(
        &mut self,
        account: Option<String>,
        provider: String,
        stateful: bool,
        anonymous: bool,
    ) -> (r: Action)
        ensures
            (final(self)@, r@) == chosen_step(
                old(self)@,
                json::opt_string(account),
                provider@,
                stateful,
                anonymous,
            ),
    {
        let neutral = self.queue.degraded;
        let has = account.is_some();
        self.account = account;
        self.custom = providers::is_custom_provider_id(provider.as_str());
        match provider_loop::dispatch(provider.as_str(), stateful, has, anonymous) {
            Dispatch::Custom => {
                self.phase = Phase::Elsewhere;
                Action::SendCustom { neutral }
            },
            Dispatch::Conversation => {
                self.phase = Phase::Elsewhere;
                Action::Converse { neutral }
            },
            Dispatch::Plain => {
                self.phase = Phase::Sending;
                Action::Send { neutral }
            },
            Dispatch::Refused(e) => self.give_up(e),
        }
    }

    fn follow(&mut self, step: QueueStep, f: OutboundFailure) -> (r: Action)
        ensures
            (final(self)@, r@) == failure_step(old(self)@, old(self)@.queue, step@, f@),
    {
        match step {
            QueueStep::Degrade => {
                self.phase = Phase::Sending;
                Action::SendNeutral
            },
            QueueStep::Refresh => {
                self.phase = Phase::Renewing(f);
                Action::Renew
            },
            QueueStep::Limit { account, status, code, reset_at } => {
                self.phase = Phase::Limited(f);
                Action::Rest { account, status: status as i32, code, reset_at }
            },
            QueueStep::Next => {
                self.phase = Phase::Looking(f.error);
                Action::Look
            },
        }
    }

    fn failed_elsewhere(&mut self, e: GatewayError) -> (r: Action)
        ensures
            (final(self)@, r@) == elsewhere_step(old(self)@, e@),
    {
        let account: Option<&str> = match &self.account {
            Some(id) => Some(id.as_str()),
            None => None,
        };
        let rests = if self.custom {
            self.queue.custom_failed(account, &e)
        } else {
            self.queue.note_tried(account);
            false
        };
        let status = e.status_code;
        let code = e.upstream_code;
        let action = match &self.account {
            Some(id) => if rests {
                Action::Rest { account: id.clone(), status, code, reset_at: None }
            } else {
                Action::Look
            },
            None => Action::Look,
        };
        self.phase = Phase::Looking(e);
        action
    }

    /// What is to be done after something has happened. The flag says whether the record
    /// is to be shown.
    pub fn advance(&mut self, telemetry: &mut RequestTelemetry, event: Event) -> (r: (Action, bool))
        ensures
            (final(self)@, final(telemetry)@, r.0@, r.1) == journey_step(
                old(self)@,
                old(telemetry)@,
                event@,
            ),
    {
        let mut phase = Phase::Over;
        std::mem::swap(&mut phase, &mut self.phase);
        match (phase, event) {
            (Phase::Choosing, Event::Chosen { account, provider, stateful, anonymous }) => {
                self.phase = Phase::Choosing;
                (self.take_account(account, provider, stateful, anonymous), false)
            },
            (Phase::Choosing, Event::NotChosen(e)) => (self.give_up(e), false),
            (Phase::Sending, Event::Unready(e)) => (self.give_up(e), false),
            (Phase::Sending, Event::Unbuilt(e)) => {
                let show = provider_loop::attempt_failed(telemetry, &e);
                (self.give_up(e), show)
            },
            (Phase::Sending, Event::Answered { status }) => {
                let show = provider_loop::attempt_succeeded(telemetry, Some(status as i64));
                (Action::Finish, show)
            },
            (Phase::Sending, Event::Failed(f)) => {
                let account: Option<&str> = match &self.account {
                    Some(id) => Some(id.as_str()),
                    None => None,
                };
                let (step, show) = self.queue.failed(telemetry, account, &f);
                self.phase = Phase::Sending;
                (self.follow(step, f), show)
            },
            (Phase::Renewing(f), Event::Renewed(ok)) => {
                if ok {
                    self.phase = Phase::Sending;
                    (Action::Send { neutral: self.queue.degraded }, false)
                } else {
                    let account: Option<&str> = match &self.account {
                        Some(id) => Some(id.as_str()),
                        None => None,
                    };
                    let (step, show) = self.queue.settle(telemetry, account, &f);
                    (self.follow(step, f), show)
                }
            },
            (Phase::Elsewhere, Event::ElsewhereDone) => (Action::Finish, false),
            (Phase::Elsewhere, Event::ElsewhereFailed(e)) => (self.failed_elsewhere(e), false),
            (Phase::Limited(f), Event::Next(found)) => match self.queue.next_after_limit(
                &f,
                found,
            ) {
                Ok(_) => (self.next_round(), false),
                Err(e) => (self.give_up(e), false),
            },
            (Phase::Looking(e), Event::Next(found)) => match self.queue.next_after_error(
                e,
                found,
            ) {
                Ok(_) => (self.next_round(), false),
                Err(err) => (self.give_up(err), false),
            },
            (phase, _) => {
                self.phase = phase;
                (Action::Ignore, false)
            },
        }
    }
}

/// The beginning of the way.
pub open spec fn begun_journey(q: QueueV) -> JourneyV {
    JourneyV {
        queue: provider_loop::round_step(q).0,
        account: None,
        custom: false,
        phase: PhaseV::Choosing,
    }
}

// ----------------------------------------------------------------------- laws

/// How much may still happen before a request is over.
pub open spec fn still_ahead(j: JourneyV) -> int {
    (provider_loop::MAX_ROUTE_ATTEMPTS + 1 - j.queue.rounds) * 20 + (match j.phase {
        PhaseV::Choosing => 13int,
        PhaseV::Sending => 3 * (provider_loop::patience(j.queue) as int) + 5,
        PhaseV::Elsewhere => 11,
        PhaseV::Renewing(_) => 3 * (provider_loop::patience(j.queue) as int) + 6,
        PhaseV::Limited(_) => 2,
        PhaseV::Looking(_) => 2,
        PhaseV::Over => 0,
    })
}

/// Whether the way is in order.
pub open spec fn on_course(j: JourneyV) -> bool {
    provider_loop::orderly(j.queue) && j.queue.rounds >= 1
}

/// The way begins in order.
pub proof fn journey_begins_on_course(
    model: Seq<char>,
    resends: nat,
    switches: nat,
    degraded: bool,
    degradable: bool,
)
    ensures
        on_course(begun_journey(provider_loop::fresh_queue(model, resends, switches, degraded, degradable))),
{
}

/// Every step keeps the way in order, and unless it is one that was not waited for, less
/// lies ahead afterwards. So a request comes to its end.
pub proof fn journey_ends(j: JourneyV, t: TelemetryV, event: EventV)
    requires
        on_course(j),
    ensures
        on_course(journey_step(j, t, event).0),
        journey_step(j, t, event).2 !is Ignore ==> 0 <= still_ahead(
            journey_step(j, t, event).0,
        ) < still_ahead(j),
        journey_step(j, t, event).2 is Ignore ==> journey_step(j, t, event).0 == j,
{
    match event {
        EventV::Failed(f) => {
            provider_loop::steps_are_orderly(j.queue, t, j.account, f, true);
            provider_loop::asking_again_costs_patience(j.queue, t, j.account, f);
        },
        EventV::Renewed(ok) => {
            if let PhaseV::Renewing(f) = j.phase {
                provider_loop::steps_are_orderly(j.queue, t, j.account, f, true);
            }
        },
        EventV::ElsewhereFailed(e) => {
            let f = FailureV { class: ClassV::TokenExpired { message: e.message }, error: e };
            provider_loop::steps_are_orderly(j.queue, t, j.account, f, true);
        },
        _ => {},
    }
}

/// A request is over exactly when it is finished or given up, and nothing that happens
/// later changes that.
pub proof fn over_is_over(j: JourneyV, t: TelemetryV, event: EventV)
    ensures
        j.phase is Over ==> journey_step(j, t, event) == (j, t, ActionV::Ignore, false),
        j.phase !is Over ==> (journey_step(j, t, event).0.phase is Over <==> journey_step(
            j,
            t,
            event,
        ).2 is Finish || journey_step(j, t, event).2 is Fail),
{
}

/// After the limit of a plain request the next account is asked without cost; after any
/// other failure, that of a conversation or of a provider which a user has added among
/// them, it costs one of the switches, and where none are left the client gets the error
/// of that failure.
pub proof fn limits_cost_no_switch(j: JourneyV, t: TelemetryV, found: bool)
    ensures
        j.phase is Limited ==> journey_step(j, t, EventV::Next(found)).0.queue.switches_left
            == j.queue.switches_left,
        j.phase is Looking && journey_step(j, t, EventV::Next(found)).2 is Choose
            ==> journey_step(j, t, EventV::Next(found)).0.queue.switches_left + 1
            == j.queue.switches_left,
        j.phase matches PhaseV::Looking(e) ==> (!found || j.queue.switches_left == 0)
            ==> journey_step(j, t, EventV::Next(found)).2 == ActionV::Fail(e),
{
}

} // verus!
