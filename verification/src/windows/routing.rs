//! Routing the sound to the enabled endpoints, one call into the audio session
//! interface at a time.
//!
//! With one endpoint enabled, it becomes the default. With two or more, the
//! primary is the default and the engine mirrors it to the others. With none,
//! the default endpoint is muted ("silent mode"), and its mute is lifted later
//! if it is ours.

use vstd::prelude::*;
use crate::seq_laws::lemma_filter_keeps_what_it_should;
use crate::text::{copy_names, flat, has_name, in_context, same};
use crate::windows::endpoints::{is_telephony, Endpoint, EndpointView};

verus! {

/// Nanoseconds that at least lie between two rebuilds of an engine that died,
/// so that a device that keeps failing cannot drive a loop of restarts.
pub const ENGINE_RESTART_COOLDOWN_NANOS: u128 = 2_000_000_000;

/// Nanoseconds by which a deferred rebuild comes after the cooldown.
pub const NUDGE_SLACK_NANOS: u128 = 100_000_000;

// ---------------------------------------------------------------------------
// State
// ---------------------------------------------------------------------------

/// The endpoints that an engine joins: the primary is mirrored to the
/// secondaries. `T` is the type of text, `L` that of lists of texts.
#[derive(Debug)]
pub struct Fanout<T, L> {
    pub primary: T,
    pub secondaries: L,
}

impl DeepView for Fanout<String, Vec<String>> {
    type V = Fanout<Seq<char>, Seq<Seq<char>>>;

    open spec fn deep_view(&self) -> Fanout<Seq<char>, Seq<Seq<char>>> {
        Fanout { primary: self.primary@, secondaries: self.secondaries.deep_view() }
    }
}

/// The tracked state of the Windows backend.
#[derive(Debug)]
pub struct WindowsBackend {
    /// Ids of the endpoints that are enabled, as last applied.
    pub enabled: Vec<String>,
    /// What the engine joins, if one was started.
    pub engine: Option<Fanout<String, Vec<String>>>,
    /// The applied set is empty: the default endpoint is to stay muted.
    pub desired_silent: bool,
    /// The endpoint that we muted; none also where the user had muted it, since
    /// that mute is not ours to undo.
    pub silent_muted: Option<String>,
    /// When the engine was last rebuilt after a failure, in nanoseconds of a
    /// steady clock.
    pub last_engine_restart: Option<u128>,
}

/// What a [`WindowsBackend`] tracks, in terms of text.
pub struct BackendView {
    pub enabled: Seq<Seq<char>>,
    pub engine: Option<Fanout<Seq<char>, Seq<Seq<char>>>>,
    pub desired_silent: bool,
    pub silent_muted: Option<Seq<char>>,
    pub last_engine_restart: Option<u128>,
}

impl DeepView for WindowsBackend {
    type V = BackendView;

    open spec fn deep_view(&self) -> BackendView {
        BackendView {
            enabled: self.enabled.deep_view(),
            engine: self.engine.deep_view(),
            desired_silent: self.desired_silent,
            silent_muted: self.silent_muted.deep_view(),
            last_engine_restart: self.last_engine_restart,
        }
    }
}

/// Why a call failed.
#[derive(Debug)]
pub struct Failure<T> {
    /// The outermost context alone.
    pub headline: T,
    /// All of it, from the outermost context in.
    pub chain: T,
}

impl DeepView for Failure<String> {
    type V = Failure<Seq<char>>;

    open spec fn deep_view(&self) -> Failure<Seq<char>> {
        Failure { headline: self.headline@, chain: self.chain@ }
    }
}

/// A call into the audio session interface.
#[derive(Debug)]
pub enum Action<T, L> {
    /// List the active render endpoints.
    ListEndpoints,
    /// Ask for the id of the default endpoint.
    GetDefault,
    /// Ask which endpoint is the default, and whether it is muted.
    ReadDefaultMute,
    /// Mute the endpoint given.
    Mute(T),
    /// Lift the mute of the endpoint given.
    Unmute(T),
    /// Make the endpoint given the default.
    SetDefault(T),
    /// Ask whether all streams of the engine live.
    IsRunning,
    /// Stop the engine.
    StopEngine,
    /// Start an engine.
    StartEngine(Fanout<T, L>),
    /// Tell the user of a problem.
    Emit(T),
    /// List the devices again after the nanoseconds given.
    Nudge(u128),
}

impl DeepView for Action<String, Vec<String>> {
    type V = Action<Seq<char>, Seq<Seq<char>>>;

    open spec fn deep_view(&self) -> Action<Seq<char>, Seq<Seq<char>>> {
        match *self {
            Action::ListEndpoints => Action::ListEndpoints,
            Action::GetDefault => Action::GetDefault,
            Action::ReadDefaultMute => Action::ReadDefaultMute,
            Action::Mute(id) => Action::Mute(id@),
            Action::Unmute(id) => Action::Unmute(id@),
            Action::SetDefault(id) => Action::SetDefault(id@),
            Action::IsRunning => Action::IsRunning,
            Action::StopEngine => Action::StopEngine,
            Action::StartEngine(fanout) => Action::StartEngine(fanout.deep_view()),
            Action::Emit(message) => Action::Emit(message@),
            Action::Nudge(delay) => Action::Nudge(delay),
        }
    }
}

/// What a call came to. `E` is the type of lists of endpoints.
#[derive(Debug)]
pub enum Outcome<T, E> {
    /// The endpoints.
    Endpoints(E),
    /// The id of the default endpoint, if there is one.
    Default(Option<T>),
    /// There is no default endpoint that could be muted.
    NoDefault,
    /// The id of the default endpoint, and whether it is muted.
    DefaultMute(T, bool),
    /// Whether all streams of the engine live.
    Running(bool),
    /// It is done.
    Done,
    /// It failed.
    Failed(Failure<T>),
}

impl DeepView for Outcome<String, Vec<Endpoint>> {
    type V = Outcome<Seq<char>, Seq<EndpointView>>;

    open spec fn deep_view(&self) -> Outcome<Seq<char>, Seq<EndpointView>> {
        match *self {
            Outcome::Endpoints(endpoints) => Outcome::Endpoints(endpoints.deep_view()),
            Outcome::Default(id) => Outcome::Default(id.deep_view()),
            Outcome::NoDefault => Outcome::NoDefault,
            Outcome::DefaultMute(id, muted) => Outcome::DefaultMute(id@, muted),
            Outcome::Running(running) => Outcome::Running(running),
            Outcome::Done => Outcome::Done,
            Outcome::Failed(why) => Outcome::Failed(why.deep_view()),
        }
    }
}

/// `outcome` is of the kind that `action` has.
pub open spec fn fits(
    action: Action<Seq<char>, Seq<Seq<char>>>,
    outcome: Outcome<Seq<char>, Seq<EndpointView>>,
) -> bool {
    match action {
        Action::ListEndpoints => outcome is Endpoints || outcome is Failed,
        Action::GetDefault => outcome is Default,
        Action::ReadDefaultMute => outcome is DefaultMute || outcome is NoDefault
            || outcome is Failed,
        Action::Mute(_) | Action::Unmute(_) | Action::SetDefault(_) | Action::StartEngine(_) => {
            outcome is Done || outcome is Failed
        },
        Action::IsRunning => outcome is Running,
        Action::StopEngine | Action::Emit(_) | Action::Nudge(_) => outcome is Done,
    }
}

/// Why an operation failed.
#[derive(Debug)]
pub enum RoutingError<T> {
    /// The endpoints could not be listed.
    Listing(Failure<T>),
    /// The default endpoint could not be muted.
    Silence(Failure<T>),
    /// The engine could not be started.
    Engine(Failure<T>),
}

impl DeepView for RoutingError<String> {
    type V = RoutingError<Seq<char>>;

    open spec fn deep_view(&self) -> RoutingError<Seq<char>> {
        match *self {
            RoutingError::Listing(why) => RoutingError::Listing(why.deep_view()),
            RoutingError::Silence(why) => RoutingError::Silence(why.deep_view()),
            RoutingError::Engine(why) => RoutingError::Engine(why.deep_view()),
        }
    }
}

/// The outermost context of an error.
pub open spec fn headline(why: RoutingError<Seq<char>>) -> Seq<char> {
    match why {
        RoutingError::Listing(f) => f.headline,
        RoutingError::Silence(f) => f.headline,
        RoutingError::Engine(_) => "start loopback fan-out engine"@,
    }
}

/// All that an error says.
pub open spec fn error_text(why: RoutingError<Seq<char>>) -> Seq<char> {
    match why {
        RoutingError::Listing(f) => f.chain,
        RoutingError::Silence(f) => f.chain,
        RoutingError::Engine(f) => flat(seq!["start loopback fan-out engine: "@, f.chain]),
    }
}

impl RoutingError<String> {
    /// The outermost context.
    pub fn headline(&self) -> (r: String)
        ensures
            r@ == headline(self.deep_view()),
    {
        match self {
            RoutingError::Listing(f) => f.headline.clone(),
            RoutingError::Silence(f) => f.headline.clone(),
            RoutingError::Engine(_) => "start loopback fan-out engine".to_owned(),
        }
    }

    /// All that it says.
    pub fn message(&self) -> (r: String)
        ensures
            r@ == error_text(self.deep_view()),
    {
        match self {
            RoutingError::Listing(f) => f.chain.clone(),
            RoutingError::Silence(f) => f.chain.clone(),
            RoutingError::Engine(f) => in_context(
                "start loopback fan-out engine: ",
                f.chain.as_str(),
            ),
        }
    }
}

/// What the listing of endpoints is for.
#[derive(Debug, Clone, Copy, PartialEq, Eq, Structural)]
pub enum Goal {
    /// An enabled set is applied.
    Apply,
    /// An engine that died is rebuilt.
    Rebuild,
    /// The default moved to another enabled endpoint, which becomes the
    /// primary.
    Reanchor,
    /// Only silent mode is still to be seen to.
    Heal,
}

/// What happens next.
#[derive(Debug)]
pub enum Phase<T, L> {
    /// Does the engine live?
    CheckEngine,
    /// The engine lives: is its primary still the default?
    CheckDefault,
    /// The engine died within the cooldown: a later look is arranged.
    Nudging(u128),
    /// The engine died: it is stopped.
    StopDead,
    /// The endpoints are listed.
    Listing,
    /// The engine is stopped, for silence.
    StopForSilence,
    /// The engine is stopped, for a single endpoint.
    StopForSingle,
    /// We hold the mute of the endpoint given: is it still the default?
    CheckMuted(T),
    /// It is not: its mute is lifted.
    MoveMute(T),
    /// Is the default endpoint muted?
    ReadMute,
    /// The default endpoint, given, is muted.
    TakeMute(T),
    /// Silent mode ends, for a single endpoint: our mute is lifted.
    LeaveForSingle(T),
    /// Silent mode ends, for two or more: our mute is lifted.
    LeaveForMany(T),
    /// The only endpoint becomes the default.
    DefaultSingle,
    /// That failed: the user is told.
    TellSingle(T),
    /// Which endpoint is the default?
    PickPrimary,
    /// The primary becomes the default.
    DefaultPrimary(Fanout<T, L>),
    /// That failed: the user is told.
    TellPrimary(T, Fanout<T, L>),
    /// There is an engine: does it live?
    CheckSame(Fanout<T, L>),
    /// It is stopped.
    StopOld(Fanout<T, L>),
    /// The engine is started.
    Start(Fanout<T, L>),
    /// A rebuild failed: the user is told.
    TellRebuild(T),
    /// All is done.
    Done,
    /// It failed.
    Failed(RoutingError<T>),
}

impl DeepView for Phase<String, Vec<String>> {
    type V = Phase<Seq<char>, Seq<Seq<char>>>;

    open spec fn deep_view(&self) -> Phase<Seq<char>, Seq<Seq<char>>> {
        match *self {
            Phase::CheckEngine => Phase::CheckEngine,
            Phase::CheckDefault => Phase::CheckDefault,
            Phase::Nudging(delay) => Phase::Nudging(delay),
            Phase::StopDead => Phase::StopDead,
            Phase::Listing => Phase::Listing,
            Phase::StopForSilence => Phase::StopForSilence,
            Phase::StopForSingle => Phase::StopForSingle,
            Phase::CheckMuted(id) => Phase::CheckMuted(id@),
            Phase::MoveMute(id) => Phase::MoveMute(id@),
            Phase::ReadMute => Phase::ReadMute,
            Phase::TakeMute(id) => Phase::TakeMute(id@),
            Phase::LeaveForSingle(id) => Phase::LeaveForSingle(id@),
            Phase::LeaveForMany(id) => Phase::LeaveForMany(id@),
            Phase::DefaultSingle => Phase::DefaultSingle,
            Phase::TellSingle(message) => Phase::TellSingle(message@),
            Phase::PickPrimary => Phase::PickPrimary,
            Phase::DefaultPrimary(f) => Phase::DefaultPrimary(f.deep_view()),
            Phase::TellPrimary(message, f) => Phase::TellPrimary(message@, f.deep_view()),
            Phase::CheckSame(f) => Phase::CheckSame(f.deep_view()),
            Phase::StopOld(f) => Phase::StopOld(f.deep_view()),
            Phase::Start(f) => Phase::Start(f.deep_view()),
            Phase::TellRebuild(message) => Phase::TellRebuild(message@),
            Phase::Done => Phase::Done,
            Phase::Failed(why) => Phase::Failed(why.deep_view()),
        }
    }
}

/// An operation under way.
#[derive(Debug)]
pub struct Operation {
    /// The tracked state, kept true to what the system was told.
    pub backend: WindowsBackend,
    /// The ids to apply.
    pub requested: Vec<String>,
    /// When the operation began, in nanoseconds of a steady clock.
    pub now: u128,
    /// A later look at the devices may be arranged: somebody listens for it,
    /// and none is pending.
    pub may_nudge: bool,
    pub goal: Goal,
    pub phase: Phase<String, Vec<String>>,
}

/// What an [`Operation`] says, in terms of text.
pub struct OperationView {
    pub backend: BackendView,
    pub requested: Seq<Seq<char>>,
    pub now: u128,
    pub may_nudge: bool,
    pub goal: Goal,
    pub phase: Phase<Seq<char>, Seq<Seq<char>>>,
}

impl DeepView for Operation {
    type V = OperationView;

    open spec fn deep_view(&self) -> OperationView {
        OperationView {
            backend: self.backend.deep_view(),
            requested: self.requested.deep_view(),
            now: self.now,
            may_nudge: self.may_nudge,
            goal: self.goal,
            phase: self.phase.deep_view(),
        }
    }
}

// ---------------------------------------------------------------------------
// Rules
// ---------------------------------------------------------------------------

/// `id` names an active endpoint that may be routed to.
pub open spec fn routable(endpoints: Seq<EndpointView>, id: Seq<char>) -> bool {
    exists|i: int|
        0 <= i < endpoints.len() && (#[trigger] endpoints[i]).id == id && !is_telephony(
            endpoints[i],
        )
}

/// The requested ids that may be routed to, in the order of the request.
pub open spec fn applicable(requested: Seq<Seq<char>>, endpoints: Seq<EndpointView>) -> Seq<
    Seq<char>,
> {
    requested.filter(|id: Seq<char>| routable(endpoints, id))
}

/// Nanoseconds since `since`; a clock that went back counts as no time.
pub open spec fn elapsed(since: u128, now: u128) -> int {
    if now >= since {
        now - since
    } else {
        0
    }
}

/// The last rebuild was less than the cooldown ago.
pub open spec fn cooling_down(last: Option<u128>, now: u128) -> bool {
    last is Some && elapsed(last->0, now) < ENGINE_RESTART_COOLDOWN_NANOS
}

/// How long to wait with a deferred rebuild: until the cooldown is over, and a
/// little more.
pub open spec fn nudge_delay(last: Option<u128>, now: u128) -> int {
    let left = match last {
        Some(since) => if elapsed(since, now) < ENGINE_RESTART_COOLDOWN_NANOS {
            ENGINE_RESTART_COOLDOWN_NANOS - elapsed(since, now)
        } else {
            0
        },
        None => ENGINE_RESTART_COOLDOWN_NANOS as int,
    };
    left + NUDGE_SLACK_NANOS
}

/// The primary is the default where that stays enabled, since it is what the
/// user hears now; else the first enabled endpoint. The others follow in order.
pub open spec fn fanout(enabled: Seq<Seq<char>>, default_id: Option<Seq<char>>) -> Fanout<
    Seq<char>,
    Seq<Seq<char>>,
> {
    let primary = if default_id is Some && enabled.contains(default_id->0) {
        default_id->0
    } else {
        enabled[0]
    };
    Fanout { primary, secondaries: without(enabled, primary) }
}

/// The endpoints other than the primary.
pub open spec fn without(enabled: Seq<Seq<char>>, primary: Seq<char>) -> Seq<Seq<char>> {
    enabled.filter(|id: Seq<char>| id != primary)
}

/// What the user is told when the default could not be set.
pub open spec fn default_trouble(why: Failure<Seq<char>>) -> Seq<char> {
    flat(seq!["Failed to set default output device: "@, why.headline])
}

/// What the user is told when a rebuild failed.
pub open spec fn rebuild_trouble(why: RoutingError<Seq<char>>) -> Seq<char> {
    flat(seq!["Could not restore multi-output routing: "@, headline(why)])
}

impl OperationView {
    /// What each phase relies on.
    pub open spec fn wf(self) -> bool {
        &&& self.phase is DefaultSingle ==> self.backend.enabled.len() == 1
        &&& self.phase is LeaveForSingle ==> self.backend.enabled.len() == 1
        &&& self.phase is StopForSingle ==> self.backend.enabled.len() == 1
        &&& self.phase is PickPrimary ==> self.backend.enabled.len() >= 2
        &&& self.phase is LeaveForMany ==> self.backend.enabled.len() >= 2
    }

    /// The operation has ended.
    pub open spec fn ended(self) -> bool {
        self.phase is Done || self.phase is Failed
    }

    /// The next call.
    pub open spec fn action(self) -> Action<Seq<char>, Seq<Seq<char>>>
        recommends
            !self.ended(),
    {
        match self.phase {
            Phase::CheckEngine => Action::IsRunning,
            Phase::CheckDefault => Action::GetDefault,
            Phase::Nudging(delay) => Action::Nudge(delay),
            Phase::StopDead => Action::StopEngine,
            Phase::Listing => Action::ListEndpoints,
            Phase::StopForSilence => Action::StopEngine,
            Phase::StopForSingle => Action::StopEngine,
            Phase::CheckMuted(_) => Action::GetDefault,
            Phase::MoveMute(id) => Action::Unmute(id),
            Phase::ReadMute => Action::ReadDefaultMute,
            Phase::TakeMute(id) => Action::Mute(id),
            Phase::LeaveForSingle(id) => Action::Unmute(id),
            Phase::LeaveForMany(id) => Action::Unmute(id),
            Phase::DefaultSingle => Action::SetDefault(self.backend.enabled[0]),
            Phase::TellSingle(message) => Action::Emit(message),
            Phase::PickPrimary => Action::GetDefault,
            Phase::DefaultPrimary(f) => Action::SetDefault(f.primary),
            Phase::TellPrimary(message, _) => Action::Emit(message),
            Phase::CheckSame(_) => Action::IsRunning,
            Phase::StopOld(_) => Action::StopEngine,
            Phase::Start(f) => Action::StartEngine(f),
            Phase::TellRebuild(message) => Action::Emit(message),
            Phase::Done => arbitrary(),
            Phase::Failed(_) => arbitrary(),
        }
    }

    /// The same operation in another phase.
    pub open spec fn at(self, phase: Phase<Seq<char>, Seq<Seq<char>>>) -> OperationView {
        OperationView { phase, ..self }
    }

    /// The same operation with another mute held.
    pub open spec fn holding(self, silent_muted: Option<Seq<char>>) -> OperationView {
        OperationView { backend: BackendView { silent_muted, ..self.backend }, ..self }
    }

    /// The same operation with another engine.
    pub open spec fn with_engine(
        self,
        engine: Option<Fanout<Seq<char>, Seq<Seq<char>>>>,
    ) -> OperationView {
        OperationView { backend: BackendView { engine, ..self.backend }, ..self }
    }

    /// Silent mode is brought in line with the present default. Keyed off the
    /// present state, so that a mute that failed is tried again and follows the
    /// default.
    pub open spec fn enforce(self) -> OperationView {
        match self.backend.silent_muted {
            Some(id) => self.at(Phase::CheckMuted(id)),
            None => self.at(Phase::ReadMute),
        }
    }

    /// Routing is as it should be: silent mode is seen to.
    pub open spec fn heal(self) -> OperationView {
        let healing = OperationView { goal: Goal::Heal, ..self };
        if self.backend.desired_silent {
            healing.enforce()
        } else {
            healing.at(Phase::Done)
        }
    }

    /// The endpoints that were to be applied are, or silent mode was seen to.
    pub open spec fn succeed(self) -> OperationView {
        match self.goal {
            Goal::Apply => self.at(Phase::Done),
            Goal::Rebuild => self.heal(),
            Goal::Reanchor => self.heal(),
            Goal::Heal => self.at(Phase::Done),
        }
    }

    /// That failed. Of self-healing only a failed rebuild is told.
    pub open spec fn fail(self, why: RoutingError<Seq<char>>) -> OperationView {
        match self.goal {
            Goal::Apply => self.at(Phase::Failed(why)),
            Goal::Rebuild => self.at(Phase::TellRebuild(rebuild_trouble(why))),
            Goal::Reanchor => self.heal(),
            Goal::Heal => self.at(Phase::Done),
        }
    }

    /// The enabled set is applied again, for the goal given.
    pub open spec fn apply_again(self, goal: Goal) -> OperationView {
        OperationView { requested: self.backend.enabled, goal, ..self.at(Phase::Listing) }
    }

    /// One endpoint is enabled: silent mode ends, if we hold a mute.
    pub open spec fn leave_for_single(self) -> OperationView {
        match self.backend.silent_muted {
            Some(id) => self.holding(None).at(Phase::LeaveForSingle(id)),
            None => self.at(Phase::DefaultSingle),
        }
    }

    /// Two or more are enabled: silent mode ends, if we hold a mute.
    pub open spec fn leave_for_many(self) -> OperationView {
        match self.backend.silent_muted {
            Some(id) => self.holding(None).at(Phase::LeaveForMany(id)),
            None => self.at(Phase::PickPrimary),
        }
    }

    /// The engine is to join these endpoints.
    pub open spec fn join(self, f: Fanout<Seq<char>, Seq<Seq<char>>>) -> OperationView {
        if self.backend.engine is Some {
            self.at(Phase::CheckSame(f))
        } else {
            self.at(Phase::Start(f))
        }
    }

    /// The endpoints are known: what the request calls for.
    pub open spec fn listed(self, endpoints: Seq<EndpointView>) -> OperationView {
        let enabled = applicable(self.requested, endpoints);
        let routing = OperationView {
            backend: BackendView {
                enabled,
                desired_silent: enabled.len() == 0,
                ..self.backend
            },
            ..self
        };
        if enabled.len() == 0 {
            if self.backend.engine is Some {
                routing.at(Phase::StopForSilence)
            } else {
                routing.enforce()
            }
        } else if enabled.len() == 1 {
            if self.backend.engine is Some {
                routing.at(Phase::StopForSingle)
            } else {
                routing.leave_for_single()
            }
        } else {
            routing.leave_for_many()
        }
    }

    /// The engine lives, or it does not.
    pub open spec fn checked_engine(self, running: bool) -> OperationView {
        if running {
            self.at(Phase::CheckDefault)
        } else if cooling_down(self.backend.last_engine_restart, self.now) {
            if self.may_nudge {
                self.at(
                    Phase::Nudging(nudge_delay(self.backend.last_engine_restart, self.now) as u128),
                )
            } else {
                self.heal()
            }
        } else {
            OperationView {
                backend: BackendView { last_engine_restart: Some(self.now), ..self.backend },
                ..self
            }.at(Phase::StopDead)
        }
    }

    /// The default endpoint beside a living engine. A default outside the
    /// enabled set is the user routing around the app, and left alone.
    pub open spec fn checked_default(self, default_id: Option<Seq<char>>) -> OperationView {
        if default_id is Some && self.backend.engine is Some && default_id->0
            != self.backend.engine->0.primary && self.backend.enabled.contains(default_id->0) {
            self.apply_again(Goal::Reanchor)
        } else {
            self.heal()
        }
    }

    /// What the outcome leads to while routing is looked over.
    pub open spec fn next_look(
        self,
        outcome: Outcome<Seq<char>, Seq<EndpointView>>,
    ) -> OperationView {
        match self.phase {
            Phase::CheckEngine => self.checked_engine(outcome->Running_0),
            Phase::CheckDefault => self.checked_default(outcome->Default_0),
            Phase::Nudging(_) => self.heal(),
            Phase::StopDead => self.with_engine(None).apply_again(Goal::Rebuild),
            Phase::Listing => match outcome {
                Outcome::Endpoints(endpoints) => self.listed(endpoints),
                Outcome::Failed(why) => self.fail(RoutingError::Listing(why)),
                _ => arbitrary(),
            },
            Phase::TellRebuild(_) => self.heal(),
            _ => self,
        }
    }

    /// What the outcome leads to on the way to silence or to a single endpoint.
    pub open spec fn next_plain(
        self,
        outcome: Outcome<Seq<char>, Seq<EndpointView>>,
    ) -> OperationView {
        match self.phase {
            Phase::StopForSilence => self.with_engine(None).enforce(),
            Phase::StopForSingle => self.with_engine(None).leave_for_single(),
            Phase::CheckMuted(id) => if outcome->Default_0 == Some(id) {
                self.succeed()
            } else {
                self.holding(None).at(Phase::MoveMute(id))
            },
            Phase::MoveMute(_) => self.at(Phase::ReadMute),
            Phase::ReadMute => match outcome {
                Outcome::NoDefault => self.succeed(),
                Outcome::DefaultMute(id, muted) => if muted {
                    self.succeed()
                } else {
                    self.at(Phase::TakeMute(id))
                },
                Outcome::Failed(why) => self.fail(RoutingError::Silence(why)),
                _ => arbitrary(),
            },
            Phase::TakeMute(id) => match outcome {
                Outcome::Failed(why) => self.fail(RoutingError::Silence(why)),
                _ => self.holding(Some(id)).succeed(),
            },
            Phase::LeaveForSingle(_) => self.at(Phase::DefaultSingle),
            Phase::LeaveForMany(_) => self.at(Phase::PickPrimary),
            Phase::DefaultSingle => match outcome {
                Outcome::Failed(why) => self.at(Phase::TellSingle(default_trouble(why))),
                _ => self.succeed(),
            },
            Phase::TellSingle(_) => self.succeed(),
            _ => self,
        }
    }

    /// What the outcome leads to on the way to two or more endpoints.
    pub open spec fn next_fanout(
        self,
        outcome: Outcome<Seq<char>, Seq<EndpointView>>,
    ) -> OperationView {
        match self.phase {
            Phase::PickPrimary => self.at(
                Phase::DefaultPrimary(fanout(self.backend.enabled, outcome->Default_0)),
            ),
            Phase::DefaultPrimary(f) => match outcome {
                Outcome::Failed(why) => self.at(Phase::TellPrimary(default_trouble(why), f)),
                _ => self.join(f),
            },
            Phase::TellPrimary(_, f) => self.join(f),
            Phase::CheckSame(f) => if outcome->Running_0 && self.backend.engine == Some(f) {
                self.succeed()
            } else {
                self.at(Phase::StopOld(f))
            },
            Phase::StopOld(f) => self.with_engine(None).at(Phase::Start(f)),
            Phase::Start(f) => match outcome {
                Outcome::Failed(why) => self.fail(RoutingError::Engine(why)),
                _ => self.with_engine(Some(f)).succeed(),
            },
            _ => self,
        }
    }

    /// The phase is on the way to two or more endpoints.
    pub open spec fn joins(self) -> bool {
        self.phase is PickPrimary || self.phase is DefaultPrimary || self.phase is TellPrimary
            || self.phase is CheckSame || self.phase is StopOld || self.phase is Start
    }

    /// The phase is on the way to silence or to a single endpoint.
    pub open spec fn plain(self) -> bool {
        !self.looks() && !self.joins() && !self.ended()
    }

    /// The phase looks routing over.
    pub open spec fn looks(self) -> bool {
        self.phase is CheckEngine || self.phase is CheckDefault || self.phase is Nudging
            || self.phase is StopDead || self.phase is Listing || self.phase is TellRebuild
    }

    /// What the outcome of the call leads to.
    pub open spec fn next(self, outcome: Outcome<Seq<char>, Seq<EndpointView>>) -> OperationView
        recommends
            !self.ended(),
            fits(self.action(), outcome),
    {
        if self.looks() {
            self.next_look(outcome)
        } else if self.joins() {
            self.next_fanout(outcome)
        } else {
            self.next_plain(outcome)
        }
    }
}

/// The operation that begins to bring routing in line: with an engine that is
/// looked at first, without one silent mode is seen to.
pub open spec fn healing(backend: BackendView, now: u128, may_nudge: bool) -> OperationView {
    let begun = OperationView {
        backend,
        requested: Seq::empty(),
        now,
        may_nudge,
        goal: Goal::Heal,
        phase: Phase::CheckEngine,
    };
    if backend.engine is Some {
        begun
    } else {
        begun.heal()
    }
}

// ---------------------------------------------------------------------------
// Execution
// ---------------------------------------------------------------------------

impl Fanout<String, Vec<String>> {
    fn copy(&self) -> (r: Fanout<String, Vec<String>>)
        ensures
            r.deep_view() == self.deep_view(),
    {
        Fanout { primary: self.primary.clone(), secondaries: copy_names(&self.secondaries) }
    }

    fn is_same(&self, other: &Fanout<String, Vec<String>>) -> (r: bool)
        ensures
            r == (self.deep_view() == other.deep_view()),
    {
        if !same(self.primary.as_str(), other.primary.as_str()) || self.secondaries.len()
            != other.secondaries.len() {
            assert(self.deep_view().secondaries.len() == self.secondaries.len());
            assert(other.deep_view().secondaries.len() == other.secondaries.len());
            return false;
        }
        let mut i: usize = 0;
        while i < self.secondaries.len()
            invariant
                i <= self.secondaries.len(),
                self.secondaries.len() == other.secondaries.len(),
                forall|j: int|
                    0 <= j < i ==> self.deep_view().secondaries[j]
                        == other.deep_view().secondaries[j],
            decreases self.secondaries.len() - i,
        {
            assert(self.deep_view().secondaries[i as int] == self.secondaries[i as int]@);
            assert(other.deep_view().secondaries[i as int] == other.secondaries[i as int]@);
            if !same(self.secondaries[i].as_str(), other.secondaries[i].as_str()) {
                return false;
            }
            i += 1;
        }
        assert(self.deep_view().secondaries =~= other.deep_view().secondaries);
        true
    }
}

fn is_routable(endpoints: &Vec<Endpoint>, id: &str) -> (r: bool)
    ensures
        r == routable(endpoints.deep_view(), id@),
{
    let ghost model = endpoints.deep_view();
    let mut i: usize = 0;
    while i < endpoints.len()
        invariant
            i <= endpoints.len(),
            model == endpoints.deep_view(),
            forall|j: int|
                0 <= j < i ==> !((#[trigger] model[j]).id == id@ && !is_telephony(model[j])),
        decreases endpoints.len() - i,
    {
        assert(model[i as int] == endpoints[i as int].deep_view());
        if same(endpoints[i].id.as_str(), id) && !endpoints[i].device_is_handsfree() {
            return true;
        }
        i += 1;
    }
    false
}

fn applicable_ids(requested: &Vec<String>, endpoints: &Vec<Endpoint>) -> (r: Vec<String>)
    ensures
        r.deep_view() == applicable(requested.deep_view(), endpoints.deep_view()),
{
    let ghost model = requested.deep_view();
    let ghost keep = |id: Seq<char>| routable(endpoints.deep_view(), id);
    let mut r: Vec<String> = Vec::new();
    let mut i: usize = 0;
    assert(r.deep_view() =~= model.take(0).filter(keep)) by {
        reveal(Seq::filter);
    }
    while i < requested.len()
        invariant
            i <= requested.len(),
            model == requested.deep_view(),
            keep == (|id: Seq<char>| routable(endpoints.deep_view(), id)),
            r.deep_view() == model.take(i as int).filter(keep),
        decreases requested.len() - i,
    {
        let ghost before = r.deep_view();
        proof {
            reveal(Seq::filter);
            assert(model.take(i + 1).drop_last() =~= model.take(i as int));
            assert(model.take(i + 1).last() == requested[i as int]@);
        }
        if is_routable(endpoints, requested[i].as_str()) {
            r.push(requested[i].clone());
            assert(r.deep_view() =~= before.push(requested[i as int]@));
        }
        i += 1;
    }
    assert(model.take(i as int) =~= model);
    r
}

fn others(enabled: &Vec<String>, primary: &str) -> (r: Vec<String>)
    ensures
        r.deep_view() == without(enabled.deep_view(), primary@),
{
    let ghost model = enabled.deep_view();
    let ghost keep = |id: Seq<char>| id != primary@;
    let mut r: Vec<String> = Vec::new();
    let mut i: usize = 0;
    assert(r.deep_view() =~= model.take(0).filter(keep)) by {
        reveal(Seq::filter);
    }
    while i < enabled.len()
        invariant
            i <= enabled.len(),
            model == enabled.deep_view(),
            keep == (|id: Seq<char>| id != primary@),
            r.deep_view() == model.take(i as int).filter(keep),
        decreases enabled.len() - i,
    {
        let ghost before = r.deep_view();
        proof {
            reveal(Seq::filter);
            assert(model.take(i + 1).drop_last() =~= model.take(i as int));
            assert(model.take(i + 1).last() == enabled[i as int]@);
        }
        if !same(enabled[i].as_str(), primary) {
            r.push(enabled[i].clone());
            assert(r.deep_view() =~= before.push(enabled[i as int]@));
        }
        i += 1;
    }
    assert(model.take(i as int) =~= model);
    r
}

/// The endpoints that an engine joins.
pub fn plan_fanout(enabled: &Vec<String>, default_id: Option<String>) -> (r: Fanout<
    String,
    Vec<String>,
>)
    requires
        enabled.len() > 0,
    ensures
        r.deep_view() == fanout(enabled.deep_view(), default_id.deep_view()),
        enabled.deep_view().contains(r.deep_view().primary),
        forall|id: Seq<char>| #[trigger]
            r.deep_view().secondaries.contains(id) <==> enabled.deep_view().contains(id) && id
                != r.deep_view().primary,
{
    let mut primary = enabled[0].clone();
    assert(enabled.deep_view()[0] == enabled[0]@);
    if let Some(id) = default_id {
        if has_name(enabled, id.as_str()) {
            primary = id;
        }
    }
    let secondaries = others(enabled, primary.as_str());
    proof {
        let ids = enabled.deep_view();
        assert(ids.contains(ids[0]));
        assert forall|id: Seq<char>| #[trigger] secondaries.deep_view().contains(id)
            <==> ids.contains(id) && id != primary@ by {
            lemma_filter_keeps_what_it_should(ids, |other: Seq<char>| other != primary@, id);
        }
    }
    Fanout { primary, secondaries }
}

/// Whether the last rebuild was less than the cooldown ago.
pub fn is_cooling_down(last: Option<u128>, now: u128) -> (r: bool)
    ensures
        r == cooling_down(last, now),
{
    match last {
        Some(since) => now < since || now - since < ENGINE_RESTART_COOLDOWN_NANOS,
        None => false,
    }
}

/// How many nanoseconds to wait with a deferred rebuild.
pub fn restart_nudge_delay(last: Option<u128>, now: u128) -> (r: u128)
    ensures
        r == nudge_delay(last, now),
{
    let left: u128 = match last {
        Some(since) => {
            let passed: u128 = if now >= since {
                now - since
            } else {
                0
            };
            if passed < ENGINE_RESTART_COOLDOWN_NANOS {
                ENGINE_RESTART_COOLDOWN_NANOS - passed
            } else {
                0
            }
        },
        None => ENGINE_RESTART_COOLDOWN_NANOS,
    };
    left + NUDGE_SLACK_NANOS
}

impl WindowsBackend {
    /// A backend with the default endpoint, if there is one, enabled.
    pub fn new(default_id: Option<String>) -> (r: WindowsBackend)
        ensures
            r.deep_view() == (BackendView {
                enabled: match default_id.deep_view() {
                    Some(id) => seq![id],
                    None => Seq::empty(),
                },
                engine: None,
                desired_silent: false,
                silent_muted: None,
                last_engine_restart: None,
            }),
    {
        let mut enabled: Vec<String> = Vec::new();
        let ghost seed = default_id.deep_view();
        if let Some(id) = default_id {
            enabled.push(id);
        }
        assert(enabled.deep_view() =~= match seed {
            Some(id) => seq![id],
            None => Seq::empty(),
        });
        WindowsBackend {
            enabled,
            engine: None,
            desired_silent: false,
            silent_muted: None,
            last_engine_restart: None,
        }
    }

    /// The user sets the mute of an endpoint. To lift the mute that silent mode
    /// holds takes it away from us and ends silent mode, until an enabled set
    /// is applied again: the user's choice is not fought.
    pub fn set_muted(&mut self, id: &str, muted: bool)
        ensures
            final(self).deep_view() == if !muted && old(self).deep_view().silent_muted == Some(
                id@,
            ) {
                BackendView {
                    silent_muted: None,
                    desired_silent: false,
                    ..old(self).deep_view()
                }
            } else {
                old(self).deep_view()
            },
    {
        let held = match &self.silent_muted {
            Some(held) => same(held.as_str(), id),
            None => false,
        };
        if !muted && held {
            self.silent_muted = None;
            self.desired_silent = false;
        }
    }

    /// Takes the backend down: the engine is gone, silent mode is over, and the
    /// endpoint whose mute is ours, if there is one and endpoints can be
    /// reached, is given back for its mute to be lifted.
    pub fn cleanup(&mut self, reachable: bool) -> (r: Option<String>)
        ensures
            r.deep_view() == if reachable {
                old(self).deep_view().silent_muted
            } else {
                None
            },
            final(self).deep_view() == (BackendView {
                engine: None,
                desired_silent: false,
                silent_muted: if reachable {
                    None
                } else {
                    old(self).deep_view().silent_muted
                },
                ..old(self).deep_view()
            }),
    {
        self.engine = None;
        self.desired_silent = false;
        if reachable {
            self.silent_muted.take()
        } else {
            None
        }
    }
}

fn copy_opt(id: &Option<String>) -> (r: Option<String>)
    ensures
        r.deep_view() == id.deep_view(),
{
    match id {
        Some(id) => Some(id.clone()),
        None => None,
    }
}

impl Operation {
    /// Begins to apply the enabled set `ids`.
    pub fn apply_enabled(backend: WindowsBackend, ids: Vec<String>) -> (r: Operation)
        ensures
            r.deep_view().wf(),
            r.deep_view() == (OperationView {
                backend: backend.deep_view(),
                requested: ids.deep_view(),
                now: 0,
                may_nudge: false,
                goal: Goal::Apply,
                phase: Phase::Listing,
            }),
    {
        Operation {
            backend,
            requested: ids,
            now: 0,
            may_nudge: false,
            goal: Goal::Apply,
            phase: Phase::Listing,
        }
    }

    /// Begins to bring routing in line with what the system is like now: an
    /// engine that died is rebuilt, a primary that is no longer the default is
    /// replaced, and silent mode is enforced.
    pub fn reconcile_routing(backend: WindowsBackend, now: u128, may_nudge: bool) -> (r: Operation)
        ensures
            r.deep_view().wf(),
            r.deep_view() == healing(backend.deep_view(), now, may_nudge),
    {
        let mut r = Operation {
            backend,
            requested: Vec::new(),
            now,
            may_nudge,
            goal: Goal::Heal,
            phase: Phase::CheckEngine,
        };
        assert(r.requested.deep_view() =~= Seq::empty());
        if r.backend.engine.is_none() {
            r.heal();
        }
        r
    }

    /// The next call; none when the operation has ended.
    pub fn action(&self) -> (r: Option<Action<String, Vec<String>>>)
        requires
            self.deep_view().wf(),
        ensures
            self.deep_view().ended() <==> r is None,
            r is Some ==> r->0.deep_view() == self.deep_view().action(),
    {
        match &self.phase {
            Phase::CheckEngine | Phase::CheckSame(_) => Some(Action::IsRunning),
            Phase::CheckDefault | Phase::CheckMuted(_) | Phase::PickPrimary => Some(
                Action::GetDefault,
            ),
            Phase::Nudging(delay) => Some(Action::Nudge(*delay)),
            Phase::StopDead | Phase::StopForSilence | Phase::StopForSingle | Phase::StopOld(
                _,
            ) => Some(Action::StopEngine),
            Phase::Listing => Some(Action::ListEndpoints),
            Phase::MoveMute(id) | Phase::LeaveForSingle(id) | Phase::LeaveForMany(id) => Some(
                Action::Unmute(id.clone()),
            ),
            Phase::ReadMute => Some(Action::ReadDefaultMute),
            Phase::TakeMute(id) => Some(Action::Mute(id.clone())),
            Phase::DefaultSingle => {
                assert(self.backend.enabled.deep_view()[0] == self.backend.enabled[0]@);
                Some(Action::SetDefault(self.backend.enabled[0].clone()))
            },
            Phase::TellSingle(message) | Phase::TellPrimary(message, _) | Phase::TellRebuild(
                message,
            ) => Some(Action::Emit(message.clone())),
            Phase::DefaultPrimary(f) => Some(Action::SetDefault(f.primary.clone())),
            Phase::Start(f) => Some(Action::StartEngine(f.copy())),
            Phase::Done | Phase::Failed(_) => None,
        }
    }

    fn enforce_silent_mode(&mut self)
        ensures
            final(self).deep_view() == old(self).deep_view().enforce(),
    {
        match copy_opt(&self.backend.silent_muted) {
            Some(id) => {
                self.phase = Phase::CheckMuted(id);
            },
            None => {
                self.phase = Phase::ReadMute;
            },
        }
    }

    fn heal(&mut self)
        ensures
            final(self).deep_view() == old(self).deep_view().heal(),
    {
        self.goal = Goal::Heal;
        if self.backend.desired_silent {
            self.enforce_silent_mode();
        } else {
            self.phase = Phase::Done;
        }
    }

    fn succeed(&mut self)
        ensures
            final(self).deep_view() == old(self).deep_view().succeed(),
    {
        match self.goal {
            Goal::Apply | Goal::Heal => {
                self.phase = Phase::Done;
            },
            Goal::Rebuild | Goal::Reanchor => self.heal(),
        }
    }

    fn fail(&mut self, why: RoutingError<String>)
        ensures
            final(self).deep_view() == old(self).deep_view().fail(why.deep_view()),
    {
        match self.goal {
            Goal::Apply => {
                self.phase = Phase::Failed(why);
            },
            Goal::Rebuild => {
                let cause = why.headline();
                self.phase = Phase::TellRebuild(
                    in_context("Could not restore multi-output routing: ", cause.as_str()),
                );
            },
            Goal::Reanchor => self.heal(),
            Goal::Heal => {
                self.phase = Phase::Done;
            },
        }
    }

    fn apply_again(&mut self, goal: Goal)
        ensures
            final(self).deep_view() == old(self).deep_view().apply_again(goal),
    {
        self.requested = copy_names(&self.backend.enabled);
        self.goal = goal;
        self.phase = Phase::Listing;
    }

    fn leave_for_single(&mut self)
        ensures
            final(self).deep_view() == old(self).deep_view().leave_for_single(),
    {
        match self.backend.silent_muted.take() {
            Some(id) => {
                self.phase = Phase::LeaveForSingle(id);
            },
            None => {
                self.phase = Phase::DefaultSingle;
            },
        }
    }

    fn leave_for_many(&mut self)
        ensures
            final(self).deep_view() == old(self).deep_view().leave_for_many(),
    {
        match self.backend.silent_muted.take() {
            Some(id) => {
                self.phase = Phase::LeaveForMany(id);
            },
            None => {
                self.phase = Phase::PickPrimary;
            },
        }
    }

    fn join(&mut self, f: Fanout<String, Vec<String>>)
        ensures
            final(self).deep_view() == old(self).deep_view().join(f.deep_view()),
    {
        if self.backend.engine.is_some() {
            self.phase = Phase::CheckSame(f);
        } else {
            self.phase = Phase::Start(f);
        }
    }

    fn plan(&mut self, endpoints: &Vec<Endpoint>)
        ensures
            final(self).deep_view() == old(self).deep_view().listed(endpoints.deep_view()),
    {
        let enabled = applicable_ids(&self.requested, endpoints);
        let count = enabled.len();
        self.backend.enabled = enabled;
        self.backend.desired_silent = count == 0;
        assert(self.deep_view().backend.enabled.len() == count);
        if count == 0 {
            if self.backend.engine.is_some() {
                self.phase = Phase::StopForSilence;
            } else {
                self.enforce_silent_mode();
            }
        } else if count == 1 {
            if self.backend.engine.is_some() {
                self.phase = Phase::StopForSingle;
            } else {
                self.leave_for_single();
            }
        } else {
            self.leave_for_many();
        }
    }

    fn judge_engine(&mut self, running: bool)
        ensures
            final(self).deep_view() == old(self).deep_view().checked_engine(running),
    {
        if running {
            self.phase = Phase::CheckDefault;
        } else if is_cooling_down(self.backend.last_engine_restart, self.now) {
            if self.may_nudge {
                self.phase = Phase::Nudging(
                    restart_nudge_delay(self.backend.last_engine_restart, self.now),
                );
            } else {
                self.heal();
            }
        } else {
            self.backend.last_engine_restart = Some(self.now);
            self.phase = Phase::StopDead;
        }
    }

    fn judge_default(&mut self, default_id: Option<String>)
        ensures
            final(self).deep_view() == old(self).deep_view().checked_default(
                default_id.deep_view(),
            ),
    {
        let moved = match (&self.backend.engine, &default_id) {
            (Some(engine), Some(id)) => !same(id.as_str(), engine.primary.as_str()) && has_name(
                &self.backend.enabled,
                id.as_str(),
            ),
            _ => false,
        };
        if moved {
            self.apply_again(Goal::Reanchor);
        } else {
            self.heal();
        }
    }

    fn step_look(
        &mut self,
        phase: Phase<String, Vec<String>>,
        outcome: Outcome<String, Vec<Endpoint>>,
    )
        requires
            old(self).deep_view().at(phase.deep_view()).wf(),
            old(self).deep_view().at(phase.deep_view()).looks(),
            fits(old(self).deep_view().at(phase.deep_view()).action(), outcome.deep_view()),
        ensures
            final(self).deep_view() == old(self).deep_view().at(phase.deep_view()).next_look(
                outcome.deep_view(),
            ),
    {
        match phase {
            Phase::CheckEngine => {
                if let Outcome::Running(running) = outcome {
                    self.judge_engine(running);
                }
            },
            Phase::CheckDefault => {
                if let Outcome::Default(id) = outcome {
                    self.judge_default(id);
                }
            },
            Phase::Nudging(_) => self.heal(),
            Phase::StopDead => {
                self.backend.engine = None;
                self.apply_again(Goal::Rebuild);
            },
            Phase::Listing => match outcome {
                Outcome::Endpoints(endpoints) => self.plan(&endpoints),
                Outcome::Failed(why) => self.fail(RoutingError::Listing(why)),
                _ => {},
            },
            Phase::TellRebuild(_) => self.heal(),
            _ => {},
        }
    }

    fn step_plain(
        &mut self,
        phase: Phase<String, Vec<String>>,
        outcome: Outcome<String, Vec<Endpoint>>,
    )
        requires
            old(self).deep_view().at(phase.deep_view()).wf(),
            old(self).deep_view().at(phase.deep_view()).plain(),
            fits(old(self).deep_view().at(phase.deep_view()).action(), outcome.deep_view()),
        ensures
            final(self).deep_view() == old(self).deep_view().at(phase.deep_view()).next_plain(
                outcome.deep_view(),
            ),
    {
        match phase {
            Phase::StopForSilence => {
                self.backend.engine = None;
                self.enforce_silent_mode();
            },
            Phase::StopForSingle => {
                self.backend.engine = None;
                self.leave_for_single();
            },
            Phase::CheckMuted(id) => {
                if let Outcome::Default(default_id) = outcome {
                    let in_place = match &default_id {
                        Some(d) => same(d.as_str(), id.as_str()),
                        None => false,
                    };
                    if in_place {
                        self.succeed();
                    } else {
                        self.backend.silent_muted = None;
                        self.phase = Phase::MoveMute(id);
                    }
                }
            },
            Phase::MoveMute(_) => {
                self.phase = Phase::ReadMute;
            },
            Phase::ReadMute => match outcome {
                Outcome::NoDefault => self.succeed(),
                Outcome::DefaultMute(id, muted) => {
                    if muted {
                        self.succeed();
                    } else {
                        self.phase = Phase::TakeMute(id);
                    }
                },
                Outcome::Failed(why) => self.fail(RoutingError::Silence(why)),
                _ => {},
            },
            Phase::TakeMute(id) => match outcome {
                Outcome::Failed(why) => self.fail(RoutingError::Silence(why)),
                _ => {
                    self.backend.silent_muted = Some(id);
                    self.succeed();
                },
            },
            Phase::LeaveForSingle(_) => {
                self.phase = Phase::DefaultSingle;
            },
            Phase::LeaveForMany(_) => {
                self.phase = Phase::PickPrimary;
            },
            Phase::DefaultSingle => match outcome {
                Outcome::Failed(why) => {
                    self.phase = Phase::TellSingle(
                        in_context(
                            "Failed to set default output device: ",
                            why.headline.as_str(),
                        ),
                    );
                },
                _ => self.succeed(),
            },
            Phase::TellSingle(_) => self.succeed(),
            _ => {},
        }
    }

    fn step_fanout(
        &mut self,
        phase: Phase<String, Vec<String>>,
        outcome: Outcome<String, Vec<Endpoint>>,
    )
        requires
            old(self).deep_view().at(phase.deep_view()).wf(),
            old(self).deep_view().at(phase.deep_view()).joins(),
            fits(old(self).deep_view().at(phase.deep_view()).action(), outcome.deep_view()),
        ensures
            final(self).deep_view() == old(self).deep_view().at(phase.deep_view()).next_fanout(
                outcome.deep_view(),
            ),
    {
        match phase {
            Phase::PickPrimary => {
                if let Outcome::Default(id) = outcome {
                    self.phase = Phase::DefaultPrimary(plan_fanout(&self.backend.enabled, id));
                }
            },
            Phase::DefaultPrimary(f) => match outcome {
                Outcome::Failed(why) => {
                    let message = in_context(
                        "Failed to set default output device: ",
                        why.headline.as_str(),
                    );
                    self.phase = Phase::TellPrimary(message, f);
                },
                _ => self.join(f),
            },
            Phase::TellPrimary(_, f) => self.join(f),
            Phase::CheckSame(f) => {
                if let Outcome::Running(running) = outcome {
                    let unchanged = running && match &self.backend.engine {
                        Some(engine) => engine.is_same(&f),
                        None => false,
                    };
                    if unchanged {
                        self.succeed();
                    } else {
                        self.phase = Phase::StopOld(f);
                    }
                }
            },
            Phase::StopOld(f) => {
                self.backend.engine = None;
                self.phase = Phase::Start(f);
            },
            Phase::Start(f) => match outcome {
                Outcome::Failed(why) => self.fail(RoutingError::Engine(why)),
                _ => {
                    self.backend.engine = Some(f);
                    self.succeed();
                },
            },
            _ => {},
        }
    }

    /// Takes the outcome of the call and goes on.
    pub fn step(self, outcome: Outcome<String, Vec<Endpoint>>) -> (r: Operation)
        requires
            self.deep_view().wf(),
            !self.deep_view().ended(),
            fits(self.deep_view().action(), outcome.deep_view()),
        ensures
            r.deep_view() == self.deep_view().next(outcome.deep_view()),
            r.deep_view().wf(),
    {
        proof {
            lemma_next_keeps_wf(self.deep_view(), outcome.deep_view());
        }
        let Operation { backend, requested, now, may_nudge, goal, phase } = self;
        let mut r = Operation { backend, requested, now, may_nudge, goal, phase: Phase::Done };
        match &phase {
            Phase::CheckEngine | Phase::CheckDefault | Phase::Nudging(_) | Phase::StopDead
            | Phase::Listing | Phase::TellRebuild(_) => r.step_look(phase, outcome),
            Phase::PickPrimary | Phase::DefaultPrimary(_) | Phase::TellPrimary(_, _)
            | Phase::CheckSame(_) | Phase::StopOld(_) | Phase::Start(_) => r.step_fanout(
                phase,
                outcome,
            ),
            _ => r.step_plain(phase, outcome),
        }
        r
    }
}

/// Each step keeps what the phases rely on.
pub proof fn lemma_next_keeps_wf(
    operation: OperationView,
    outcome: Outcome<Seq<char>, Seq<EndpointView>>,
)
    requires
        operation.wf(),
        !operation.ended(),
        fits(operation.action(), outcome),
    ensures
        operation.next(outcome).wf(),
{
}

} // verus!
