//! What routing promises over whole runs, against a model of the system.

use vstd::prelude::*;
use crate::seq_laws::{lemma_filter_keeps_the_order, lemma_filter_keeps_what_it_should};
use crate::text_laws::lemma_two_texts;
use crate::windows::endpoints::{is_telephony, EndpointView};
use crate::windows::routing::{
    applicable, cooling_down, default_trouble, error_text, fanout, fits, healing,
    lemma_next_keeps_wf, nudge_delay, rebuild_trouble, routable, without, Action, BackendView,
    Failure, Fanout, Goal, OperationView, Outcome, Phase, RoutingError,
};

verus! {

/// What matters of the system.
#[verifier::ext_equal]
pub struct System {
    /// The id of the default endpoint, if there is one.
    pub default_id: Option<Seq<char>>,
    /// The endpoints that are muted.
    pub muted: Set<Seq<char>>,
    /// Those of them that the user muted.
    pub by_user: Set<Seq<char>>,
    /// What the engine joins, if one runs.
    pub engine: Option<Fanout<Seq<char>, Seq<Seq<char>>>>,
}

impl System {
    /// The system may answer `action` with `outcome` and be `after` then. A call
    /// that fails changes nothing, a question is answered truly.
    pub open spec fn serves(
        self,
        action: Action<Seq<char>, Seq<Seq<char>>>,
        outcome: Outcome<Seq<char>, Seq<EndpointView>>,
        after: System,
    ) -> bool {
        match action {
            Action::GetDefault => {
                &&& after == self
                &&& outcome matches Outcome::Default(Some(id)) ==> self.default_id == Some(id)
            },
            Action::ReadDefaultMute => {
                &&& after == self
                &&& outcome is NoDefault ==> self.default_id is None
                &&& outcome matches Outcome::DefaultMute(id, muted) ==> self.default_id == Some(id)
                    && muted == self.muted.contains(id)
            },
            Action::Mute(id) => if outcome is Failed {
                after == self
            } else {
                after == (System { muted: self.muted.insert(id), ..self })
            },
            Action::Unmute(id) => if outcome is Failed {
                after == self
            } else {
                after == (System { muted: self.muted.remove(id), ..self })
            },
            Action::SetDefault(id) => if outcome is Failed {
                after == self
            } else {
                after == (System { default_id: Some(id), ..self })
            },
            Action::StopEngine => after == (System { engine: None, ..self }),
            Action::StartEngine(f) => if outcome is Failed {
                after == self
            } else {
                after == (System { engine: Some(f), ..self })
            },
            _ => after == self,
        }
    }

    /// The tracked state is true: the engine is as tracked, a mute that we hold
    /// is there and is not the user's, and the user's mutes are there.
    pub open spec fn agrees(self, backend: BackendView) -> bool {
        &&& self.engine == backend.engine
        &&& self.by_user.subset_of(self.muted)
        &&& backend.silent_muted matches Some(id) ==> self.muted.contains(id)
            && !self.by_user.contains(id)
    }
}

/// The outcome of a call, and the system as it is after it.
pub struct Step {
    pub outcome: Outcome<Seq<char>, Seq<EndpointView>>,
    pub system: System,
}

/// The operation after some steps.
pub open spec fn stepped(start: OperationView, steps: Seq<Step>) -> OperationView
    decreases steps.len(),
{
    if steps.len() == 0 {
        start
    } else {
        stepped(start, steps.drop_last()).next(steps.last().outcome)
    }
}

/// The system after some steps.
pub open spec fn served(start: System, steps: Seq<Step>) -> System {
    if steps.len() == 0 {
        start
    } else {
        steps.last().system
    }
}

/// The steps are those of a run: each outcome fits the call of its moment, and
/// the system does what it was told.
pub open spec fn is_run(start: OperationView, system: System, steps: Seq<Step>) -> bool
    decreases steps.len(),
{
    steps.len() > 0 ==> {
        let before = steps.drop_last();
        let operation = stepped(start, before);
        let step = steps.last();
        &&& is_run(start, system, before)
        &&& !operation.ended()
        &&& fits(operation.action(), step.outcome)
        &&& served(system, before).serves(operation.action(), step.outcome, step.system)
    }
}

/// No call so far failed.
pub open spec fn all_well(steps: Seq<Step>) -> bool {
    forall|i: int| 0 <= i < steps.len() ==> !((#[trigger] steps[i]).outcome is Failed)
}

/// The operation that begins to apply `ids`.
pub open spec fn applying(backend: BackendView, ids: Seq<Seq<char>>) -> OperationView {
    OperationView {
        backend,
        requested: ids,
        now: 0,
        may_nudge: false,
        goal: Goal::Apply,
        phase: Phase::Listing,
    }
}

/// What holds of the mutes and of the engine in each phase.
spec fn phase_holds(operation: OperationView, system: System) -> bool {
    let backend = operation.backend;
    &&& system.agrees(backend)
    &&& match operation.phase {
        Phase::MoveMute(id) | Phase::LeaveForSingle(id) | Phase::LeaveForMany(id) => {
            &&& backend.silent_muted is None
            &&& !system.by_user.contains(id)
        },
        Phase::ReadMute => backend.silent_muted is None,
        Phase::CheckMuted(id) => backend.silent_muted == Some(id),
        Phase::TakeMute(id) => {
            &&& backend.silent_muted is None
            &&& system.default_id == Some(id)
            &&& !system.muted.contains(id)
        },
        Phase::Start(_) => backend.engine is None,
        _ => true,
    }
}

proof fn lemma_step_holds(
    operation: OperationView,
    system: System,
    outcome: Outcome<Seq<char>, Seq<EndpointView>>,
    after: System,
)
    requires
        operation.wf(),
        !operation.ended(),
        fits(operation.action(), outcome),
        system.serves(operation.action(), outcome, after),
        phase_holds(operation, system),
    ensures
        phase_holds(operation.next(outcome), after),
        after.by_user == system.by_user,
{
}

proof fn lemma_run_holds(start: OperationView, system: System, steps: Seq<Step>)
    requires
        start.wf(),
        phase_holds(start, system),
        is_run(start, system, steps),
    ensures
        stepped(start, steps).wf(),
        phase_holds(stepped(start, steps), served(system, steps)),
        served(system, steps).by_user == system.by_user,
    decreases steps.len(),
{
    if steps.len() > 0 {
        let before = steps.drop_last();
        lemma_run_holds(start, system, before);
        lemma_next_keeps_wf(stepped(start, before), steps.last().outcome);
        lemma_step_holds(
            stepped(start, before),
            served(system, before),
            steps.last().outcome,
            steps.last().system,
        );
    }
}

/// A mute of the user is never lifted: whatever set is applied, and whatever
/// fails, the endpoints that the user muted stay muted, and the tracked state
/// stays true.
pub proof fn lemma_the_users_mutes_stay(
    backend: BackendView,
    ids: Seq<Seq<char>>,
    system: System,
    steps: Seq<Step>,
)
    requires
        system.agrees(backend),
        is_run(applying(backend, ids), system, steps),
    ensures
        served(system, steps).by_user == system.by_user,
        system.by_user.subset_of(served(system, steps).muted),
        served(system, steps).agrees(stepped(applying(backend, ids), steps).backend),
{
    lemma_run_holds(applying(backend, ids), system, steps);
}

/// The same holds when routing is brought in line with the system, with an
/// engine and without one.
pub proof fn lemma_the_users_mutes_stay_when_healing(
    backend: BackendView,
    now: u128,
    may_nudge: bool,
    system: System,
    steps: Seq<Step>,
)
    requires
        system.agrees(backend),
        is_run(healing(backend, now, may_nudge), system, steps),
    ensures
        served(system, steps).by_user == system.by_user,
        system.by_user.subset_of(served(system, steps).muted),
        served(system, steps).agrees(
            stepped(healing(backend, now, may_nudge), steps).backend,
        ),
{
    lemma_run_holds(healing(backend, now, may_nudge), system, steps);
}

/// What holds of an enabled set on its way, before it is applied.
spec fn on_the_way(
    enabled: Seq<Seq<char>>,
    operation: OperationView,
    system: System,
    well: bool,
) -> bool {
    let backend = operation.backend;
    let joined = |f: Fanout<Seq<char>, Seq<Seq<char>>>| {
        &&& enabled.len() >= 2
        &&& backend.silent_muted is None
        &&& enabled.contains(f.primary)
        &&& f.secondaries == without(enabled, f.primary)
    };
    match operation.phase {
        Phase::StopForSilence => enabled.len() == 0,
        Phase::CheckMuted(_) | Phase::MoveMute(_) | Phase::ReadMute | Phase::TakeMute(_) => {
            enabled.len() == 0 && backend.engine is None
        },
        Phase::StopForSingle => enabled.len() == 1,
        Phase::LeaveForSingle(_) | Phase::DefaultSingle => {
            enabled.len() == 1 && backend.engine is None && backend.silent_muted is None
        },
        Phase::TellSingle(_) => {
            &&& enabled.len() == 1
            &&& backend.engine is None
            &&& backend.silent_muted is None
            &&& !well
        },
        Phase::LeaveForMany(_) | Phase::PickPrimary => {
            enabled.len() >= 2 && backend.silent_muted is None
        },
        Phase::DefaultPrimary(f) => joined(f),
        Phase::TellPrimary(_, f) => joined(f) && !well,
        Phase::CheckSame(f) | Phase::StopOld(f) | Phase::Start(f) => {
            joined(f) && (well ==> system.default_id == Some(f.primary))
        },
        _ => false,
    }
}

/// What holds while an enabled set is applied for the user.
spec fn apply_holds(
    enabled: Seq<Seq<char>>,
    operation: OperationView,
    system: System,
    well: bool,
) -> bool {
    let backend = operation.backend;
    &&& operation.goal == Goal::Apply
    &&& backend.enabled == enabled
    &&& backend.desired_silent == (enabled.len() == 0)
    &&& match operation.phase {
        Phase::Done => applied(backend, system, well),
        Phase::Failed(_) => enabled.len() != 1,
        _ => on_the_way(enabled, operation, system, well),
    }
}

/// What success means. With nothing enabled there is no engine, and the default
/// endpoint is muted; with one endpoint it is the default, and neither an
/// engine nor a mute of ours is left; with more, the engine mirrors the primary
/// to all others. `well` says that no call failed.
pub open spec fn applied(backend: BackendView, system: System, well: bool) -> bool {
    if backend.enabled.len() == 0 {
        &&& system.engine is None
        &&& system.default_id matches Some(id) ==> system.muted.contains(id)
    } else if backend.enabled.len() == 1 {
        &&& system.engine is None
        &&& backend.silent_muted is None
        &&& well ==> system.default_id == Some(backend.enabled[0])
    } else {
        &&& backend.silent_muted is None
        &&& system.engine matches Some(f) && {
            &&& backend.enabled.contains(f.primary)
            &&& f.secondaries == without(backend.enabled, f.primary)
            &&& well ==> system.default_id == Some(f.primary)
        }
    }
}

proof fn lemma_apply_step(
    enabled: Seq<Seq<char>>,
    operation: OperationView,
    system: System,
    outcome: Outcome<Seq<char>, Seq<EndpointView>>,
    after: System,
    well: bool,
)
    requires
        operation.wf(),
        !operation.ended(),
        fits(operation.action(), outcome),
        system.serves(operation.action(), outcome, after),
        phase_holds(operation, system),
        apply_holds(enabled, operation, system, well),
    ensures
        apply_holds(enabled, operation.next(outcome), after, well && !(outcome is Failed)),
{
    if operation.phase is PickPrimary {
        assert(enabled.contains(enabled[0]));
    }
}

proof fn lemma_apply_holds(
    backend: BackendView,
    ids: Seq<Seq<char>>,
    system: System,
    steps: Seq<Step>,
)
    requires
        system.agrees(backend),
        is_run(applying(backend, ids), system, steps),
        steps.len() > 0,
        steps[0].outcome is Endpoints,
    ensures
        apply_holds(
            applicable(ids, steps[0].outcome->Endpoints_0),
            stepped(applying(backend, ids), steps),
            served(system, steps),
            all_well(steps),
        ),
    decreases steps.len(),
{
    let start = applying(backend, ids);
    let before = steps.drop_last();
    let enabled = applicable(ids, steps[0].outcome->Endpoints_0);
    lemma_run_holds(start, system, before);
    if before.len() > 0 {
        assert(before[0] == steps[0]);
        lemma_apply_holds(backend, ids, system, before);
        lemma_apply_step(
            enabled,
            stepped(start, before),
            served(system, before),
            steps.last().outcome,
            steps.last().system,
            all_well(before),
        );
        lemma_all_well(steps);
    } else {
        assert(before =~= Seq::empty());
        assert(steps.last() == steps[0]);
    }
}

/// Success means that the sound goes to the requested endpoints that are active
/// and no telephony side of a headset.
pub proof fn lemma_success_routes_to_the_request(
    backend: BackendView,
    ids: Seq<Seq<char>>,
    system: System,
    steps: Seq<Step>,
)
    requires
        system.agrees(backend),
        is_run(applying(backend, ids), system, steps),
        stepped(applying(backend, ids), steps).phase is Done,
    ensures
        ({
            let after = stepped(applying(backend, ids), steps).backend;
            &&& after.enabled == applicable(ids, steps[0].outcome->Endpoints_0)
            &&& after.desired_silent == (after.enabled.len() == 0)
            &&& applied(after, served(system, steps), all_well(steps))
        }),
{
    assert(steps.len() > 0);
    lemma_first_outcome(applying(backend, ids), system, steps);
    lemma_apply_holds(backend, ids, system, steps);
}

/// A failure to list changes nothing; any later failure leaves the request on
/// record, with silence wanted if nothing is enabled, so that a mute that
/// failed is tried again.
pub proof fn lemma_failure_records_the_request(
    backend: BackendView,
    ids: Seq<Seq<char>>,
    system: System,
    steps: Seq<Step>,
)
    requires
        system.agrees(backend),
        is_run(applying(backend, ids), system, steps),
        stepped(applying(backend, ids), steps).phase is Failed,
    ensures
        ({
            let after = stepped(applying(backend, ids), steps).backend;
            if steps[0].outcome is Failed {
                after == backend
            } else {
                &&& after.enabled == applicable(ids, steps[0].outcome->Endpoints_0)
                &&& after.desired_silent == (after.enabled.len() == 0)
            }
        }),
{
    assert(steps.len() > 0);
    lemma_first_outcome(applying(backend, ids), system, steps);
    if steps[0].outcome is Endpoints {
        lemma_apply_holds(backend, ids, system, steps);
    }
}

/// The endpoints that were listed last in a run, if any were.
pub open spec fn relisted(start: OperationView, steps: Seq<Step>) -> Option<Seq<EndpointView>>
    decreases steps.len(),
{
    if steps.len() == 0 {
        None
    } else {
        match steps.last().outcome {
            Outcome::Endpoints(endpoints) => if stepped(start, steps.drop_last()).phase is Listing {
                Some(endpoints)
            } else {
                relisted(start, steps.drop_last())
            },
            _ => relisted(start, steps.drop_last()),
        }
    }
}

/// The default endpoint, where there is one, is muted.
pub open spec fn is_silent(system: System) -> bool {
    system.default_id matches Some(id) ==> system.muted.contains(id)
}

/// What holds while routing is brought in line, before anything is applied
/// again.
spec fn look_holds(
    first: BackendView,
    operation: OperationView,
    system: System,
    well: bool,
) -> bool {
    let backend = operation.backend;
    &&& backend.enabled == first.enabled
    &&& backend.desired_silent == first.desired_silent
    &&& match operation.phase {
        Phase::CheckEngine | Phase::CheckDefault | Phase::Nudging(_) | Phase::StopDead => {
            operation.goal == Goal::Heal && backend.engine == first.engine
        },
        Phase::Listing => {
            &&& operation.requested == first.enabled
            &&& operation.goal == Goal::Rebuild || operation.goal == Goal::Reanchor
        },
        Phase::TellRebuild(_) => !well,
        Phase::CheckMuted(_) | Phase::MoveMute(_) | Phase::ReadMute | Phase::TakeMute(_) => {
            operation.goal == Goal::Heal && first.desired_silent && (well ==> backend.engine
                == first.engine)
        },
        Phase::Done => well ==> backend.engine == first.engine && (first.desired_silent
            ==> is_silent(system)),
        _ => false,
    }
}

/// What holds once the enabled endpoints were listed again.
spec fn mend_holds(
    enabled: Seq<Seq<char>>,
    operation: OperationView,
    system: System,
    well: bool,
) -> bool {
    let backend = operation.backend;
    &&& backend.enabled == enabled
    &&& backend.desired_silent == (enabled.len() == 0)
    &&& match operation.phase {
        Phase::TellRebuild(_) => operation.goal == Goal::Rebuild && !well,
        Phase::Done => well ==> applied(backend, system, well),
        Phase::CheckMuted(_) | Phase::MoveMute(_) | Phase::ReadMute | Phase::TakeMute(_) => {
            operation.goal != Goal::Apply && enabled.len() == 0 && (well ==> backend.engine
                is None)
        },
        _ => {
            &&& operation.goal == Goal::Rebuild || operation.goal == Goal::Reanchor
            &&& on_the_way(enabled, operation, system, well)
        },
    }
}

/// What holds of a healing run.
spec fn heal_holds(
    first: BackendView,
    listed: Option<Seq<EndpointView>>,
    operation: OperationView,
    system: System,
    well: bool,
) -> bool {
    match listed {
        None => look_holds(first, operation, system, well),
        Some(endpoints) => mend_holds(
            applicable(first.enabled, endpoints),
            operation,
            system,
            well,
        ),
    }
}

proof fn lemma_look_step(
    first: BackendView,
    operation: OperationView,
    system: System,
    outcome: Outcome<Seq<char>, Seq<EndpointView>>,
    after: System,
    well: bool,
)
    requires
        operation.wf(),
        !operation.ended(),
        fits(operation.action(), outcome),
        system.serves(operation.action(), outcome, after),
        phase_holds(operation, system),
        look_holds(first, operation, system, well),
    ensures
        ({
            let next = operation.next(outcome);
            let still = well && !(outcome is Failed);
            if operation.phase is Listing && outcome is Endpoints {
                mend_holds(
                    applicable(first.enabled, outcome->Endpoints_0),
                    next,
                    after,
                    still,
                )
            } else {
                look_holds(first, next, after, still)
            }
        }),
{
}

proof fn lemma_mend_step(
    enabled: Seq<Seq<char>>,
    operation: OperationView,
    system: System,
    outcome: Outcome<Seq<char>, Seq<EndpointView>>,
    after: System,
    well: bool,
)
    requires
        operation.wf(),
        !operation.ended(),
        fits(operation.action(), outcome),
        system.serves(operation.action(), outcome, after),
        phase_holds(operation, system),
        mend_holds(enabled, operation, system, well),
    ensures
        !(operation.phase is Listing),
        mend_holds(enabled, operation.next(outcome), after, well && !(outcome is Failed)),
{
    if operation.phase is PickPrimary {
        assert(enabled.contains(enabled[0]));
    }
}

proof fn lemma_all_well(steps: Seq<Step>)
    requires
        steps.len() > 0,
    ensures
        all_well(steps) <==> all_well(steps.drop_last()) && !(steps.last().outcome is Failed),
{
    let before = steps.drop_last();
    assert(steps[steps.len() - 1] == steps.last());
    if all_well(before) && !(steps.last().outcome is Failed) {
        assert forall|i: int| 0 <= i < steps.len() implies !((
        #[trigger] steps[i]).outcome is Failed) by {
            if i < before.len() {
                assert(before[i] == steps[i]);
            }
        }
    }
    if all_well(steps) {
        assert forall|i: int| 0 <= i < before.len() implies !((
        #[trigger] before[i]).outcome is Failed) by {
            assert(before[i] == steps[i]);
        }
    }
}

proof fn lemma_heal_holds(
    backend: BackendView,
    now: u128,
    may_nudge: bool,
    system: System,
    steps: Seq<Step>,
)
    requires
        system.agrees(backend),
        is_run(healing(backend, now, may_nudge), system, steps),
    ensures
        heal_holds(
            backend,
            relisted(healing(backend, now, may_nudge), steps),
            stepped(healing(backend, now, may_nudge), steps),
            served(system, steps),
            all_well(steps),
        ),
    decreases steps.len(),
{
    let start = healing(backend, now, may_nudge);
    if steps.len() > 0 {
        let before = steps.drop_last();
        lemma_heal_holds(backend, now, may_nudge, system, before);
        lemma_run_holds(start, system, before);
        lemma_all_well(steps);
        let operation = stepped(start, before);
        match relisted(start, before) {
            None => lemma_look_step(
                backend,
                operation,
                served(system, before),
                steps.last().outcome,
                steps.last().system,
                all_well(before),
            ),
            Some(endpoints) => lemma_mend_step(
                applicable(backend.enabled, endpoints),
                operation,
                served(system, before),
                steps.last().outcome,
                steps.last().system,
                all_well(before),
            ),
        }
    }
}

/// What a healing run ends in. It never fails as a whole. Where no call failed:
/// if a dead engine was rebuilt or the engine re-anchored, the sound goes to the
/// enabled endpoints that are still active; if not, the enabled set and the
/// engine are as they were; and where silence is wanted, the default endpoint
/// is muted.
pub proof fn lemma_healing_ends_in_line(
    backend: BackendView,
    now: u128,
    may_nudge: bool,
    system: System,
    steps: Seq<Step>,
)
    requires
        system.agrees(backend),
        is_run(healing(backend, now, may_nudge), system, steps),
        stepped(healing(backend, now, may_nudge), steps).ended(),
    ensures
        ({
            let start = healing(backend, now, may_nudge);
            let end = stepped(start, steps);
            let after = served(system, steps);
            &&& end.phase is Done
            &&& match relisted(start, steps) {
                Some(endpoints) => {
                    &&& end.backend.enabled == applicable(backend.enabled, endpoints)
                    &&& end.backend.desired_silent == (end.backend.enabled.len() == 0)
                    &&& all_well(steps) ==> applied(end.backend, after, true)
                },
                None => {
                    &&& end.backend.enabled == backend.enabled
                    &&& end.backend.desired_silent == backend.desired_silent
                    &&& all_well(steps) ==> end.backend.engine == backend.engine
                    &&& all_well(steps) && backend.desired_silent ==> is_silent(after)
                },
            }
        }),
{
    lemma_heal_holds(backend, now, may_nudge, system, steps);
}

proof fn lemma_first_outcome(start: OperationView, system: System, steps: Seq<Step>)
    requires
        start.goal == Goal::Apply,
        start.phase is Listing,
        is_run(start, system, steps),
        steps.len() > 0,
    ensures
        fits(start.action(), steps[0].outcome),
        steps[0].outcome is Failed ==> stepped(start, steps).phase is Failed && stepped(
            start,
            steps,
        ).backend == start.backend,
    decreases steps.len(),
{
    let before = steps.drop_last();
    if before.len() > 0 {
        assert(before[0] == steps[0]);
        lemma_first_outcome(start, system, before);
    } else {
        assert(before =~= Seq::empty());
        assert(steps.last() == steps[0]);
    }
}

/// Only endpoints that are active, and no telephony side of a headset, are ever
/// enabled, and only those that were asked for.
pub proof fn lemma_only_routable_endpoints_are_enabled(
    ids: Seq<Seq<char>>,
    endpoints: Seq<EndpointView>,
    id: Seq<char>,
)
    ensures
        applicable(ids, endpoints).contains(id) <==> ids.contains(id) && routable(endpoints, id),
{
    let keep = |id: Seq<char>| routable(endpoints, id);
    let kept = applicable(ids, endpoints);
    if kept.contains(id) {
        let i = choose|i: int| 0 <= i < kept.len() && kept[i] == id;
        ids.lemma_filter_pred(keep, i);
        ids.lemma_filter_contains_rev(keep, id);
    }
    if ids.contains(id) && routable(endpoints, id) {
        let i = choose|i: int| 0 <= i < ids.len() && ids[i] == id;
        ids.lemma_filter_contains(keep, i);
    }
}

/// The questions of a run were answered in full: which endpoint is the default
/// where there is one, and that the engine lives.
pub open spec fn answered(start: OperationView, system: System, steps: Seq<Step>) -> bool
    decreases steps.len(),
{
    steps.len() > 0 ==> {
        let before = steps.drop_last();
        let action = stepped(start, before).action();
        let outcome = steps.last().outcome;
        &&& answered(start, system, before)
        &&& action is GetDefault ==> outcome == Outcome::<Seq<char>, Seq<EndpointView>>::Default(
            served(system, before).default_id,
        )
        &&& action is IsRunning ==> outcome == Outcome::<Seq<char>, Seq<EndpointView>>::Running(
            true,
        )
    }
}

/// The call changes neither an engine nor a mute.
pub open spec fn is_gentle(action: Action<Seq<char>, Seq<Seq<char>>>) -> bool {
    !(action is StopEngine) && !(action is StartEngine) && !(action is Mute)
        && !(action is Unmute)
}

/// All calls of a run are gentle.
pub open spec fn goes_gently(start: OperationView, steps: Seq<Step>) -> bool
    decreases steps.len(),
{
    steps.len() > 0 ==> goes_gently(start, steps.drop_last()) && is_gentle(
        stepped(start, steps.drop_last()).action(),
    )
}

/// The tracked state is applied, for good: a mute that we hold is that of the
/// default endpoint.
pub open spec fn settled(backend: BackendView, system: System) -> bool {
    &&& system.agrees(backend)
    &&& applied(backend, system, true)
    &&& backend.desired_silent == (backend.enabled.len() == 0)
    &&& backend.silent_muted is Some ==> system.default_id == backend.silent_muted
}

/// What holds while what is applied is applied again.
spec fn again_holds(
    backend: BackendView,
    system: System,
    operation: OperationView,
    now: System,
) -> bool {
    &&& now == system
    &&& operation.backend == backend
    &&& operation.goal == Goal::Apply
    &&& match operation.phase {
        Phase::CheckMuted(id) => backend.silent_muted == Some(id),
        Phase::ReadMute => backend.enabled.len() == 0,
        Phase::DefaultSingle => backend.enabled.len() == 1,
        Phase::PickPrimary => backend.enabled.len() >= 2,
        Phase::DefaultPrimary(f) | Phase::CheckSame(f) => {
            backend.enabled.len() >= 2 && backend.engine == Some(f)
        },
        Phase::Done => true,
        _ => false,
    }
}

proof fn lemma_again_step(
    backend: BackendView,
    system: System,
    operation: OperationView,
    outcome: Outcome<Seq<char>, Seq<EndpointView>>,
    after: System,
)
    requires
        settled(backend, system),
        !operation.ended(),
        fits(operation.action(), outcome),
        !(outcome is Failed),
        system.serves(operation.action(), outcome, after),
        again_holds(backend, system, operation, system),
        operation.action() is GetDefault ==> outcome == Outcome::<
            Seq<char>,
            Seq<EndpointView>,
        >::Default(system.default_id),
        operation.action() is IsRunning ==> outcome == Outcome::<
            Seq<char>,
            Seq<EndpointView>,
        >::Running(true),
    ensures
        is_gentle(operation.action()),
        again_holds(backend, system, operation.next(outcome), after),
{
    assert(after =~= system);
}

proof fn lemma_again_holds(
    backend: BackendView,
    ids: Seq<Seq<char>>,
    system: System,
    steps: Seq<Step>,
)
    requires
        settled(backend, system),
        is_run(applying(backend, ids), system, steps),
        answered(applying(backend, ids), system, steps),
        all_well(steps),
        steps.len() > 0,
        steps[0].outcome matches Outcome::Endpoints(endpoints) && applicable(ids, endpoints)
            == backend.enabled,
    ensures
        again_holds(
            backend,
            system,
            stepped(applying(backend, ids), steps),
            served(system, steps),
        ),
        goes_gently(applying(backend, ids), steps),
    decreases steps.len(),
{
    let start = applying(backend, ids);
    let before = steps.drop_last();
    lemma_all_well(steps);
    if before.len() > 0 {
        assert(before[0] == steps[0]);
        lemma_again_holds(backend, ids, system, before);
        lemma_again_step(
            backend,
            system,
            stepped(start, before),
            steps.last().outcome,
            steps.last().system,
        );
    } else {
        assert(before =~= Seq::empty());
        assert(steps.last() == steps[0]);
        assert(steps.last().system =~= system);
        assert(goes_gently(start, before));
    }
}

/// Applying again what is applied changes nothing, whatever the number of
/// endpoints: no engine is started or stopped, no mute is set or lifted, and
/// neither the system nor the tracked state is another after any step.
pub proof fn lemma_applying_again_restarts_nothing(
    backend: BackendView,
    ids: Seq<Seq<char>>,
    system: System,
    steps: Seq<Step>,
)
    requires
        settled(backend, system),
        is_run(applying(backend, ids), system, steps),
        answered(applying(backend, ids), system, steps),
        all_well(steps),
        steps.len() > 0,
        steps[0].outcome matches Outcome::Endpoints(endpoints) && applicable(ids, endpoints)
            == backend.enabled,
    ensures
        goes_gently(applying(backend, ids), steps),
        served(system, steps) == system,
        stepped(applying(backend, ids), steps).backend == backend,
        !(stepped(applying(backend, ids), steps).phase is Failed),
{
    lemma_again_holds(backend, ids, system, steps);
}

/// With no engine to begin with, applying none or one of the endpoints starts
/// none and stops none, whatever the calls come to.
pub proof fn lemma_none_or_one_needs_no_engine(
    backend: BackendView,
    ids: Seq<Seq<char>>,
    system: System,
    steps: Seq<Step>,
)
    requires
        backend.engine is None,
        system.agrees(backend),
        is_run(applying(backend, ids), system, steps),
        steps.len() > 0,
        steps[0].outcome matches Outcome::Endpoints(endpoints) ==> applicable(ids, endpoints).len()
            <= 1,
    ensures
        stepped(applying(backend, ids), steps).backend.engine is None,
        !stepped(applying(backend, ids), steps).ended() ==> !(stepped(
            applying(backend, ids),
            steps,
        ).action() is StopEngine) && !(stepped(
            applying(backend, ids),
            steps,
        ).action() is StartEngine),
    decreases steps.len(),
{
    let start = applying(backend, ids);
    let before = steps.drop_last();
    lemma_first_outcome(start, system, steps);
    if before.len() > 0 {
        assert(before[0] == steps[0]);
        lemma_none_or_one_needs_no_engine(backend, ids, system, before);
        if steps[0].outcome is Endpoints {
            lemma_apply_holds(backend, ids, system, before);
            lemma_apply_holds(backend, ids, system, steps);
        }
    } else {
        assert(before =~= Seq::empty());
        assert(steps.last() == steps[0]);
    }
}

/// An engine that died is rebuilt only when the last rebuild is long enough ago;
/// and a rebuild that is put off is arranged for a time when it is.
pub proof fn lemma_rebuilds_keep_their_distance(operation: OperationView)
    requires
        operation.phase is CheckEngine,
        operation.backend.last_engine_restart matches Some(since) ==> since <= operation.now,
    ensures
        ({
            let last = operation.backend.last_engine_restart;
            let next = operation.next(Outcome::Running(false));
            let cooling = cooling_down(last, operation.now);
            &&& next.phase is StopDead <==> !cooling
            &&& !cooling ==> next.backend.last_engine_restart == Some(operation.now)
            &&& cooling && operation.may_nudge ==> next.action() == Action::<
                Seq<char>,
                Seq<Seq<char>>,
            >::Nudge(nudge_delay(last, operation.now) as u128)
            &&& forall|later: u128|
                later >= operation.now + nudge_delay(last, operation.now) ==> !#[trigger]
                    cooling_down(last, later)
        }),
{
}

/// A living engine is re-anchored exactly when the default moved to another
/// enabled endpoint; a default outside the enabled set is left alone.
pub proof fn lemma_only_an_enabled_default_reanchors(
    operation: OperationView,
    default_id: Option<Seq<char>>,
)
    requires
        operation.phase is CheckDefault,
        operation.backend.engine is Some,
        operation.goal == Goal::Heal,
    ensures
        ({
            let next = operation.next(Outcome::Default(default_id));
            &&& next.goal == Goal::Reanchor <==> default_id is Some && default_id->0
                != operation.backend.engine->0.primary && operation.backend.enabled.contains(
                default_id->0,
            )
            &&& next.goal == Goal::Reanchor ==> next.requested == operation.backend.enabled
            &&& next.backend == operation.backend
        }),
{
}

// ---------------------------------------------------------------------------
// Which endpoints play
// ---------------------------------------------------------------------------

/// Which endpoints an engine joins. The primary is the default endpoint if that
/// is enabled, else the first enabled one; every other enabled endpoint is a
/// secondary, and nothing else is.
pub proof fn lemma_the_primary_and_all_others_are_joined(
    enabled: Seq<Seq<char>>,
    default_id: Option<Seq<char>>,
)
    requires
        enabled.len() > 0,
    ensures
        ({
            let f = fanout(enabled, default_id);
            &&& default_id matches Some(id) ==> enabled.contains(id) ==> f.primary == id
            &&& (default_id is None || !enabled.contains(default_id->0)) ==> f.primary
                == enabled[0]
            &&& enabled.contains(f.primary)
            &&& forall|id: Seq<char>| #[trigger]
                f.secondaries.contains(id) <==> enabled.contains(id) && id != f.primary
        }),
{
    let f = fanout(enabled, default_id);
    assert(enabled.contains(enabled[0]));
    assert forall|id: Seq<char>| #[trigger] f.secondaries.contains(id) <==> enabled.contains(id)
        && id != f.primary by {
        lemma_filter_keeps_what_it_should(enabled, |other: Seq<char>| other != f.primary, id);
    }
}

/// Each enabled endpoint is joined once: the secondaries are the enabled ones
/// without the primary, one for one; and each that was asked for and may be
/// routed to is enabled once for each time that it was asked for.
pub proof fn lemma_each_endpoint_is_taken_once(
    enabled: Seq<Seq<char>>,
    default_id: Option<Seq<char>>,
    ids: Seq<Seq<char>>,
    endpoints: Seq<EndpointView>,
)
    ensures
        ({
            let f = fanout(enabled, default_id);
            f.secondaries == enabled.filter(|id: Seq<char>| id != f.primary)
        }),
        applicable(ids, endpoints) == ids.filter(
            |id: Seq<char>|
                exists|k: int|
                    0 <= k < endpoints.len() && (#[trigger] endpoints[k]).id == id
                        && !is_telephony(endpoints[k]),
        ),
{
    let may = |id: Seq<char>|
        exists|k: int|
            0 <= k < endpoints.len() && (#[trigger] endpoints[k]).id == id && !is_telephony(
                endpoints[k],
            );
    let keep = |id: Seq<char>| routable(endpoints, id);
    assert(may =~= keep);
}

/// The secondaries stand in the order of the enabled endpoints.
pub proof fn lemma_secondaries_keep_the_order(
    enabled: Seq<Seq<char>>,
    default_id: Option<Seq<char>>,
    i: int,
    j: int,
)
    requires
        0 <= i < j < enabled.len(),
        enabled[i] != fanout(enabled, default_id).primary,
        enabled[j] != fanout(enabled, default_id).primary,
    ensures
        exists|p: int, q: int|
            0 <= p < q < fanout(enabled, default_id).secondaries.len() && #[trigger] fanout(
                enabled,
                default_id,
            ).secondaries[p] == enabled[i] && #[trigger] fanout(
                enabled,
                default_id,
            ).secondaries[q] == enabled[j],
{
    let f = fanout(enabled, default_id);
    let keep = |other: Seq<char>| other != f.primary;
    lemma_filter_keeps_the_order(enabled, keep, i, j);
    let kept = enabled.filter(keep);
    assert(f.secondaries == kept);
    let (p, q) = choose|p: int, q: int|
        0 <= p < q < kept.len() && #[trigger] kept[p] == enabled[i] && #[trigger] kept[q]
            == enabled[j];
    assert(f.secondaries[p] == enabled[i] && f.secondaries[q] == enabled[j]);
}

/// The enabled endpoints stand in the order in which they were asked for, and
/// one that was asked for is there exactly if an active endpoint with its id is
/// no telephony side of a headset.
pub proof fn lemma_what_is_enabled_goes_by_the_endpoints(
    ids: Seq<Seq<char>>,
    endpoints: Seq<EndpointView>,
)
    ensures
        forall|id: Seq<char>| #[trigger]
            applicable(ids, endpoints).contains(id) <==> ids.contains(id) && exists|k: int|
                0 <= k < endpoints.len() && (#[trigger] endpoints[k]).id == id && !is_telephony(
                    endpoints[k],
                ),
        forall|i: int, j: int|
            0 <= i < j < ids.len() && applicable(ids, endpoints).contains(#[trigger] ids[i])
                && applicable(ids, endpoints).contains(#[trigger] ids[j]) ==> exists|
                p: int,
                q: int,
            |
                0 <= p < q < applicable(ids, endpoints).len() && #[trigger] applicable(
                    ids,
                    endpoints,
                )[p] == ids[i] && #[trigger] applicable(ids, endpoints)[q] == ids[j],
{
    let keep = |id: Seq<char>| routable(endpoints, id);
    assert forall|id: Seq<char>| #[trigger] applicable(ids, endpoints).contains(id)
        <==> ids.contains(id) && exists|k: int|
        0 <= k < endpoints.len() && (#[trigger] endpoints[k]).id == id && !is_telephony(
            endpoints[k],
        ) by {
        lemma_only_routable_endpoints_are_enabled(ids, endpoints, id);
    }
    assert forall|i: int, j: int|
        0 <= i < j < ids.len() && applicable(ids, endpoints).contains(#[trigger] ids[i])
            && applicable(ids, endpoints).contains(#[trigger] ids[j]) implies exists|
        p: int,
        q: int,
    |
        0 <= p < q < applicable(ids, endpoints).len() && #[trigger] applicable(ids, endpoints)[p]
            == ids[i] && #[trigger] applicable(ids, endpoints)[q] == ids[j] by {
        lemma_only_routable_endpoints_are_enabled(ids, endpoints, ids[i]);
        lemma_only_routable_endpoints_are_enabled(ids, endpoints, ids[j]);
        lemma_filter_keeps_the_order(ids, keep, i, j);
    }
}

/// When a set is applied, the enabled endpoints are exactly those asked for that
/// are active and no telephony side of a headset. With two or more of them an
/// engine runs that is tracked, plays from one of them and has every other one,
/// and nothing else, as a secondary; with fewer no engine runs.
pub proof fn lemma_success_plays_on_every_enabled_endpoint(
    backend: BackendView,
    ids: Seq<Seq<char>>,
    system: System,
    steps: Seq<Step>,
)
    requires
        system.agrees(backend),
        is_run(applying(backend, ids), system, steps),
        stepped(applying(backend, ids), steps).phase is Done,
    ensures
        steps.len() > 0 && steps[0].outcome is Endpoints,
        ({
            let after = stepped(applying(backend, ids), steps).backend;
            let now = served(system, steps);
            let endpoints = steps[0].outcome->Endpoints_0;
            &&& forall|id: Seq<char>| #[trigger]
                after.enabled.contains(id) <==> ids.contains(id) && exists|k: int|
                    0 <= k < endpoints.len() && (#[trigger] endpoints[k]).id == id
                        && !is_telephony(endpoints[k])
            &&& after.engine == now.engine
            &&& after.enabled.len() < 2 ==> now.engine is None
            &&& after.enabled.len() >= 2 ==> (now.engine matches Some(f) && {
                &&& after.enabled.contains(f.primary)
                &&& forall|id: Seq<char>| #[trigger]
                    f.secondaries.contains(id) <==> after.enabled.contains(id) && id != f.primary
            })
        }),
{
    lemma_success_routes_to_the_request(backend, ids, system, steps);
    lemma_run_holds(applying(backend, ids), system, steps);
    lemma_first_outcome(applying(backend, ids), system, steps);
    let after = stepped(applying(backend, ids), steps).backend;
    let now = served(system, steps);
    lemma_what_is_enabled_goes_by_the_endpoints(ids, steps[0].outcome->Endpoints_0);
    if after.enabled.len() >= 2 {
        let f = now.engine->0;
        assert forall|id: Seq<char>| #[trigger] f.secondaries.contains(id)
            <==> after.enabled.contains(id) && id != f.primary by {
            lemma_filter_keeps_what_it_should(
                after.enabled,
                |other: Seq<char>| other != f.primary,
                id,
            );
        }
    }
}

/// An engine that died, or that joins other endpoints, is stopped and started
/// anew over the endpoints that are to be joined; one that lives and joins just
/// those is left alone.
pub proof fn lemma_a_dead_or_another_engine_is_replaced(
    operation: OperationView,
    f: Fanout<Seq<char>, Seq<Seq<char>>>,
    running: bool,
)
    requires
        operation.phase == Phase::CheckSame(f),
    ensures
        ({
            let next = operation.next(Outcome::Running(running));
            let stopped = next.next(Outcome::Done);
            let started = stopped.next(Outcome::Done);
            if running && operation.backend.engine == Some(f) {
                next.backend == operation.backend && !(next.phase is StopOld)
            } else {
                &&& !next.ended() && next.action() is StopEngine
                &&& stopped.backend.engine is None
                &&& !stopped.ended() && stopped.action() == Action::StartEngine(f)
                &&& started.backend.engine == Some(f)
            }
        }),
{
}

// ---------------------------------------------------------------------------
// Mutes
// ---------------------------------------------------------------------------

/// Every endpoint that is muted was muted by the user or is the one whose mute
/// is tracked as ours.
pub open spec fn accounts_for_mutes(backend: BackendView, system: System) -> bool {
    forall|id: Seq<char>| #[trigger]
        system.muted.contains(id) ==> system.by_user.contains(id) || backend.silent_muted == Some(
            id,
        )
}

/// The mute of this endpoint is about to be lifted.
spec fn is_lifting(operation: OperationView, id: Seq<char>) -> bool {
    match operation.phase {
        Phase::MoveMute(x) | Phase::LeaveForSingle(x) | Phase::LeaveForMany(x) => x == id,
        _ => false,
    }
}

spec fn mutes_hold(operation: OperationView, system: System) -> bool {
    forall|id: Seq<char>| #[trigger]
        system.muted.contains(id) ==> system.by_user.contains(id)
            || operation.backend.silent_muted == Some(id) || is_lifting(operation, id)
}

proof fn lemma_mutes_step(
    operation: OperationView,
    system: System,
    outcome: Outcome<Seq<char>, Seq<EndpointView>>,
    after: System,
)
    requires
        operation.wf(),
        !operation.ended(),
        fits(operation.action(), outcome),
        system.serves(operation.action(), outcome, after),
        phase_holds(operation, system),
        mutes_hold(operation, system),
        !(outcome is Failed),
    ensures
        mutes_hold(operation.next(outcome), after),
{
    let next = operation.next(outcome);
    assert forall|id: Seq<char>| #[trigger] after.muted.contains(id) implies after.by_user.contains(
        id,
    ) || next.backend.silent_muted == Some(id) || is_lifting(next, id) by {
        assert(system.muted.contains(id) || operation.action() == Action::<
            Seq<char>,
            Seq<Seq<char>>,
        >::Mute(id));
    }
}

proof fn lemma_mutes_hold(start: OperationView, system: System, steps: Seq<Step>)
    requires
        start.wf(),
        phase_holds(start, system),
        mutes_hold(start, system),
        is_run(start, system, steps),
        all_well(steps),
    ensures
        mutes_hold(stepped(start, steps), served(system, steps)),
    decreases steps.len(),
{
    if steps.len() > 0 {
        let before = steps.drop_last();
        lemma_all_well(steps);
        lemma_mutes_hold(start, system, before);
        lemma_run_holds(start, system, before);
        lemma_mutes_step(
            stepped(start, before),
            served(system, before),
            steps.last().outcome,
            steps.last().system,
        );
    }
}

/// No mute of ours is left behind: when a set was applied and no call failed,
/// every muted endpoint is one that the user muted or the one whose mute is
/// tracked. So with any endpoint enabled only the user's mutes are left, and
/// with none the default endpoint is muted by the user or by us.
pub proof fn lemma_no_mute_of_ours_is_left_behind(
    backend: BackendView,
    ids: Seq<Seq<char>>,
    system: System,
    steps: Seq<Step>,
)
    requires
        system.agrees(backend),
        accounts_for_mutes(backend, system),
        is_run(applying(backend, ids), system, steps),
        stepped(applying(backend, ids), steps).phase is Done,
        all_well(steps),
    ensures
        ({
            let after = stepped(applying(backend, ids), steps).backend;
            let now = served(system, steps);
            &&& accounts_for_mutes(after, now)
            &&& after.enabled.len() > 0 ==> now.muted == system.by_user
            &&& after.enabled.len() == 0 ==> (now.default_id matches Some(id)
                ==> now.muted.contains(id) && (system.by_user.contains(id) || after.silent_muted
                == Some(id)))
        }),
{
    let start = applying(backend, ids);
    lemma_mutes_hold(start, system, steps);
    lemma_run_holds(start, system, steps);
    lemma_success_routes_to_the_request(backend, ids, system, steps);
    let after = stepped(start, steps).backend;
    let now = served(system, steps);
    assert forall|id: Seq<char>| #[trigger] now.muted.contains(id) implies now.by_user.contains(id)
        || after.silent_muted == Some(id) by {
        assert(!is_lifting(stepped(start, steps), id));
    }
    if after.enabled.len() > 0 {
        assert(now.muted =~= system.by_user);
    }
}

/// The same holds when routing is brought in line with the system.
pub proof fn lemma_no_mute_of_ours_is_left_behind_when_healing(
    backend: BackendView,
    now: u128,
    may_nudge: bool,
    system: System,
    steps: Seq<Step>,
)
    requires
        system.agrees(backend),
        accounts_for_mutes(backend, system),
        is_run(healing(backend, now, may_nudge), system, steps),
        stepped(healing(backend, now, may_nudge), steps).ended(),
        all_well(steps),
    ensures
        accounts_for_mutes(
            stepped(healing(backend, now, may_nudge), steps).backend,
            served(system, steps),
        ),
{
    let start = healing(backend, now, may_nudge);
    lemma_mutes_hold(start, system, steps);
    let end = stepped(start, steps);
    assert forall|id: Seq<char>| #[trigger] served(system, steps).muted.contains(id) implies served(
        system,
        steps,
    ).by_user.contains(id) || end.backend.silent_muted == Some(id) by {
        assert(!is_lifting(end, id));
    }
}

/// Without an engine, to bring routing in line is to see to silent mode where
/// silence is wanted, and nothing else; with one, the engine is looked at first.
pub proof fn lemma_what_healing_begins_with(backend: BackendView, now: u128, may_nudge: bool)
    ensures
        ({
            let start = healing(backend, now, may_nudge);
            &&& start.backend == backend
            &&& backend.engine is Some ==> !start.ended() && start.action() is IsRunning
            &&& backend.engine is None && !backend.desired_silent ==> start.phase is Done
            &&& backend.engine is None && backend.desired_silent ==> !start.ended() && (
            if backend.silent_muted is Some {
                start.action() is GetDefault
            } else {
                start.action() is ReadDefaultMute
            })
        }),
{
}

/// A mute of ours that is no longer on the default endpoint is lifted before
/// another is set; one that still is stays as it is.
pub proof fn lemma_our_mute_follows_the_default(
    operation: OperationView,
    held: Seq<char>,
    default_id: Option<Seq<char>>,
)
    requires
        operation.phase == Phase::<Seq<char>, Seq<Seq<char>>>::CheckMuted(held),
        operation.goal == Goal::Apply || operation.goal == Goal::Heal,
        operation.backend.silent_muted == Some(held),
    ensures
        ({
            let next = operation.next(Outcome::Default(default_id));
            if default_id == Some(held) {
                next.phase is Done && next.backend == operation.backend
            } else {
                &&& !next.ended() && next.action() == Action::<Seq<char>, Seq<Seq<char>>>::Unmute(
                    held,
                )
                &&& next.backend.silent_muted is None
                &&& !next.next(Outcome::Done).ended()
                &&& next.next(Outcome::Done).action() is ReadDefaultMute
            }
        }),
{
}

/// The default endpoint is muted for silence unless it is muted already, in which
/// case the mute is not ours; without a default there is nothing to mute.
pub proof fn lemma_silence_mutes_the_default(operation: OperationView, id: Seq<char>)
    requires
        operation.phase is ReadMute,
        operation.goal == Goal::Apply || operation.goal == Goal::Heal,
    ensures
        ({
            let muting = operation.next(Outcome::DefaultMute(id, false));
            &&& !muting.ended() && muting.action() == Action::<Seq<char>, Seq<Seq<char>>>::Mute(id)
            &&& muting.next(Outcome::Done).phase is Done
            &&& muting.next(Outcome::Done).backend.silent_muted == Some(id)
            &&& operation.next(Outcome::DefaultMute(id, true)).phase is Done
            &&& operation.next(Outcome::DefaultMute(id, true)).backend == operation.backend
            &&& operation.next(Outcome::NoDefault).phase is Done
            &&& operation.next(Outcome::NoDefault).backend == operation.backend
        }),
{
}

// ---------------------------------------------------------------------------
// Times and messages
// ---------------------------------------------------------------------------

/// An engine is not rebuilt within two seconds of the last rebuild, and only
/// then; a rebuild that is put off comes a tenth of a second after those two
/// seconds.
pub proof fn lemma_rebuilds_are_two_seconds_apart(since: u128, now: u128)
    requires
        since <= now,
    ensures
        cooling_down(Some(since), now) <==> now < since + 2_000_000_000,
        !cooling_down(None, now),
        cooling_down(Some(since), now) ==> now + nudge_delay(Some(since), now) == since
            + 2_100_000_000,
        nudge_delay(None, now) == 2_100_000_000,
{
}

/// A clock that went back counts as one that stood still.
pub proof fn lemma_a_clock_that_went_back_stood_still(since: u128, now: u128)
    requires
        now < since,
    ensures
        cooling_down(Some(since), now) <==> cooling_down(Some(since), since),
        nudge_delay(Some(since), now) == nudge_delay(Some(since), since),
{
}

/// While the last rebuild is too recent, a dead engine is left as it is.
pub proof fn lemma_a_recent_rebuild_is_left_alone(operation: OperationView)
    requires
        operation.phase is CheckEngine,
        operation.backend.last_engine_restart matches Some(since) && since <= operation.now
            && operation.now < since + 2_000_000_000,
    ensures
        operation.next(Outcome::Running(false)).backend == operation.backend,
        operation.may_nudge ==> operation.next(Outcome::Running(false)).action() is Nudge,
        operation.may_nudge ==> operation.next(Outcome::Running(false)).next(
            Outcome::Done,
        ).backend == operation.backend,
        !operation.backend.desired_silent ==> {
            let next = operation.next(Outcome::Running(false));
            if operation.may_nudge {
                next.next(Outcome::Done).phase is Done
            } else {
                next.phase is Done
            }
        },
{
}

/// What the user is told: a default that could not be set, or an engine that
/// could not be rebuilt, each with the outermost reason.
pub proof fn lemma_what_the_user_is_told(
    why: Failure<Seq<char>>,
    f: Fanout<Seq<char>, Seq<Seq<char>>>,
    operation: OperationView,
)
    ensures
        default_trouble(why) == "Failed to set default output device: "@ + why.headline,
        rebuild_trouble(RoutingError::Listing(why)) == "Could not restore multi-output routing: "@
            + why.headline,
        rebuild_trouble(RoutingError::Silence(why)) == "Could not restore multi-output routing: "@
            + why.headline,
        rebuild_trouble(RoutingError::Engine(why)) == "Could not restore multi-output routing: "@
            + "start loopback fan-out engine"@,
        error_text(RoutingError::Listing(why)) == why.chain,
        error_text(RoutingError::Silence(why)) == why.chain,
        error_text(RoutingError::Engine(why)) == "start loopback fan-out engine: "@ + why.chain,
        operation.phase is DefaultSingle ==> operation.next(Outcome::Failed(why)).action()
            == Action::<Seq<char>, Seq<Seq<char>>>::Emit(
            "Failed to set default output device: "@ + why.headline,
        ),
        operation.phase == Phase::DefaultPrimary(f) ==> operation.next(
            Outcome::Failed(why),
        ).action() == Action::<Seq<char>, Seq<Seq<char>>>::Emit(
            "Failed to set default output device: "@ + why.headline,
        ),
{
    lemma_two_texts("Failed to set default output device: "@, why.headline);
    lemma_two_texts("Could not restore multi-output routing: "@, why.headline);
    lemma_two_texts(
        "Could not restore multi-output routing: "@,
        "start loopback fan-out engine"@,
    );
    lemma_two_texts("start loopback fan-out engine: "@, why.chain);
}

/// A default that could not be set stops nothing: after the user is told, routing
/// goes on as if it had been set.
pub proof fn lemma_a_default_that_stays_stops_nothing(
    operation: OperationView,
    why: Failure<Seq<char>>,
    f: Fanout<Seq<char>, Seq<Seq<char>>>,
)
    ensures
        operation.phase is DefaultSingle ==> operation.next(Outcome::Failed(why)).next(
            Outcome::Done,
        ) == operation.next(Outcome::Done),
        operation.phase == Phase::DefaultPrimary(f) ==> operation.next(Outcome::Failed(why)).next(
            Outcome::Done,
        ) == operation.next(Outcome::Done),
{
}

/// A set that could not be applied fails with what went wrong: the listing, the
/// mute of the default endpoint, or the engine.
pub proof fn lemma_failures_carry_their_cause(operation: OperationView, why: Failure<Seq<char>>)
    requires
        operation.goal == Goal::Apply,
    ensures
        operation.phase is Listing ==> operation.next(Outcome::Failed(why)).phase == Phase::<
            Seq<char>,
            Seq<Seq<char>>,
        >::Failed(RoutingError::Listing(why)),
        operation.phase is ReadMute || operation.phase is TakeMute ==> operation.next(
            Outcome::Failed(why),
        ).phase == Phase::<Seq<char>, Seq<Seq<char>>>::Failed(RoutingError::Silence(why)),
        operation.phase is Start ==> operation.next(Outcome::Failed(why)).phase == Phase::<
            Seq<char>,
            Seq<Seq<char>>,
        >::Failed(RoutingError::Engine(why)),
        operation.next(Outcome::Failed(why)).phase is Failed ==> operation.next(
            Outcome::Failed(why),
        ).backend == operation.backend,
{
}

/// A rebuild that failed is told, with the outermost reason, and silent mode is
/// then seen to; a re-anchoring that failed is not told. Neither fails the
/// operation.
pub proof fn lemma_only_a_failed_rebuild_is_told(operation: OperationView, why: Failure<Seq<char>>)
    ensures
        operation.goal == Goal::Rebuild && operation.phase is Listing ==> operation.next(
            Outcome::Failed(why),
        ).action() == Action::<Seq<char>, Seq<Seq<char>>>::Emit(
            "Could not restore multi-output routing: "@ + why.headline,
        ),
        operation.goal == Goal::Rebuild && operation.phase is Start ==> operation.next(
            Outcome::Failed(why),
        ).action() == Action::<Seq<char>, Seq<Seq<char>>>::Emit(
            "Could not restore multi-output routing: "@ + "start loopback fan-out engine"@,
        ),
        operation.goal == Goal::Reanchor && (operation.phase is Listing
            || operation.phase is Start) ==> {
            let next = operation.next(Outcome::Failed(why));
            &&& next.backend == operation.backend
            &&& !operation.backend.desired_silent ==> next.phase is Done
            &&& operation.backend.desired_silent ==> next.phase is CheckMuted
                || next.phase is ReadMute
        },
        operation.phase is TellRebuild ==> {
            let next = operation.next(Outcome::Done);
            &&& next.backend == operation.backend
            &&& !operation.backend.desired_silent ==> next.phase is Done
            &&& operation.backend.desired_silent ==> next.phase is CheckMuted
                || next.phase is ReadMute
        },
        operation.goal == Goal::Heal && (operation.phase is ReadMute
            || operation.phase is TakeMute) ==> operation.next(Outcome::Failed(why)).phase is Done,
{
    lemma_what_the_user_is_told(
        why,
        Fanout { primary: Seq::empty(), secondaries: Seq::empty() },
        operation,
    );
}

/// An engine that died, and may be rebuilt, is stopped, and then the enabled
/// endpoints are listed to be applied again; the time of the rebuild is noted.
pub proof fn lemma_a_dead_engine_is_rebuilt_from_the_enabled_set(operation: OperationView)
    requires
        operation.phase is CheckEngine,
        operation.backend.last_engine_restart is None || (
        operation.backend.last_engine_restart->0 <= operation.now && operation.now
            >= operation.backend.last_engine_restart->0 + 2_000_000_000),
    ensures
        ({
            let dead = operation.next(Outcome::Running(false));
            let again = dead.next(Outcome::Done);
            &&& !dead.ended() && dead.action() is StopEngine
            &&& dead.backend.last_engine_restart == Some(operation.now)
            &&& !again.ended() && again.action() is ListEndpoints
            &&& again.requested == operation.backend.enabled
            &&& again.backend.engine is None
            &&& again.backend.enabled == operation.backend.enabled
            &&& again.backend.silent_muted == operation.backend.silent_muted
        }),
{
}

/// A living engine is held against the default endpoint. When that is another
/// enabled endpoint than the primary, the enabled endpoints are listed to be
/// applied again; in any other case nothing is changed but for silent mode.
pub proof fn lemma_a_living_engine_is_held_against_the_default(
    backend: BackendView,
    now: u128,
    may_nudge: bool,
    default_id: Option<Seq<char>>,
)
    requires
        backend.engine is Some,
    ensures
        ({
            let alive = healing(backend, now, may_nudge).next(Outcome::Running(true));
            let checked = alive.next(Outcome::Default(default_id));
            let moved = default_id is Some && default_id->0 != backend.engine->0.primary
                && backend.enabled.contains(default_id->0);
            &&& !alive.ended() && alive.action() is GetDefault
            &&& alive.backend == backend && checked.backend == backend
            &&& moved ==> !checked.ended() && checked.action() is ListEndpoints
                && checked.requested == backend.enabled
            &&& !moved && !backend.desired_silent ==> checked.phase is Done
            &&& !moved && backend.desired_silent ==> checked.phase is CheckMuted
                || checked.phase is ReadMute
        }),
{
}

} // verus!
