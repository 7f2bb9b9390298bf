//! What a cleanup promises over whole runs, against a model of the sound
//! server.

use vstd::prelude::*;
use crate::linux::backend::{lemma_real_names_are_not_ours, BackendView};
use crate::linux::cleanup::{
    first_wanted, restored, CleanupError, CleanupPhase, CleanupView,
};
use crate::linux::modules::{our_rows, ours};
use crate::linux::pactl::{answers, unload_verdict, Command, ReplyView, UnloadStage};
use crate::linux::routing_laws::{served, Server, Step};
use crate::linux::sinks::{real_names, SinkView};
use crate::text::trimmed;

verus! {

/// A cleanup after some steps.
pub open spec fn cleaned(start: CleanupView, steps: Seq<Step>) -> CleanupView
    decreases steps.len(),
{
    if steps.len() == 0 {
        start
    } else {
        cleaned(start, steps.drop_last()).next(steps.last().reply)
    }
}

/// The steps are those of a run: each reply answers the command of its moment,
/// the server does what it was told, and the listed modules can be counted.
pub open spec fn is_cleanup(start: CleanupView, server: Server, steps: Seq<Step>) -> bool
    decreases steps.len(),
{
    steps.len() > 0 ==> {
        let before = steps.drop_last();
        let cleanup = cleaned(start, before);
        let step = steps.last();
        &&& is_cleanup(start, server, before)
        &&& !(cleanup.phase is Ended)
        &&& answers(cleanup.command(), step.reply)
        &&& served(server, before).serves(cleanup.command(), step.reply, step.server)
        &&& cleaned(start, steps).wf()
    }
}

/// The cleanup that begins with `backend`.
pub open spec fn begun(backend: BackendView) -> CleanupView {
    CleanupView {
        backend,
        default_sink: None,
        trouble: None,
        leftovers: Seq::empty(),
        phase: CleanupPhase::Default,
    }
}

/// No reply so far was a failure.
pub open spec fn all_well(steps: Seq<Step>) -> bool {
    forall|i: int| 0 <= i < steps.len() ==> !((#[trigger] steps[i]).reply is Failed)
}

/// The sinks were listed, and a real one was among them.
pub open spec fn saw_real_sink(steps: Seq<Step>) -> bool {
    &&& steps.len() >= 2
    &&& steps[1].reply matches ReplyView::Sinks(sinks) && real_names(sinks).len() > 0
}

proof fn lemma_restored_is_real(sinks: Seq<SinkView>, enabled: Seq<Seq<char>>)
    ensures
        real_names(sinks).len() > 0 <==> restored(real_names(sinks), enabled) is Some,
        restored(real_names(sinks), enabled) matches Some(name) ==> !ours(name),
{
    let names = real_names(sinks);
    if let Some(name) = restored(names, enabled) {
        assert(names.contains(name));
        lemma_real_names_are_not_ours(sinks, name);
    }
}

/// What holds of the server in each phase.
spec fn phase_holds(
    cleanup: CleanupView,
    server: Server,
    seen: bool,
    well: bool,
) -> bool {
    match cleanup.phase {
        CleanupPhase::Default => !seen && cleanup.trouble is None,
        CleanupPhase::Sinks => {
            &&& !seen
            &&& cleanup.trouble is None ==> cleanup.default_sink == Some(server.default_sink)
        },
        CleanupPhase::Restore(sink) => !ours(sink),
        CleanupPhase::Combine(_, _) | CleanupPhase::Null(_, _) | CleanupPhase::Modules => {
            seen && cleanup.trouble is None ==> !ours(server.default_sink)
        },
        CleanupPhase::Sweep(at) => {
            &&& seen && cleanup.trouble is None ==> !ours(server.default_sink)
            &&& well ==> forall|id: u32| #[trigger]
                server.modules.contains_key(id) ==> cleanup.leftovers.skip(at as int).contains(id)
        },
        CleanupPhase::Ended => {
            &&& seen && cleanup.trouble is None ==> !ours(server.default_sink)
            &&& well ==> server.modules.dom() =~= Set::empty()
            &&& well ==> cleanup.backend.combine_module is None
                && cleanup.backend.null_module is None
        },
    }
}

proof fn lemma_cleanup_holds(backend: BackendView, server: Server, steps: Seq<Step>)
    requires
        is_cleanup(begun(backend), server, steps),
    ensures
        ({
            let cleanup = cleaned(begun(backend), steps);
            &&& phase_holds(
                cleanup,
                served(server, steps),
                saw_real_sink(steps),
                all_well(steps),
            )
            &&& all_well(steps) ==> cleanup.trouble is None
            &&& cleanup.backend.enabled == backend.enabled
            &&& cleanup.phase is Default <==> steps.len() == 0
            &&& cleanup.phase is Sinks <==> steps.len() == 1
            &&& cleanup.wf()
        }),
    decreases steps.len(),
{
    if steps.len() > 0 {
        let before = steps.drop_last();
        lemma_cleanup_holds(backend, server, before);
        let cleanup = cleaned(begun(backend), before);
        let next = cleaned(begun(backend), steps);
        let reply = steps.last().reply;
        assert(forall|i: int| 0 <= i < before.len() ==> before[i] == #[trigger] steps[i]);
        assert(steps[steps.len() - 1] == steps.last());
        if all_well(steps) {
            assert(all_well(before));
        }
        if cleanup.phase is Sinks && reply is Sinks {
            lemma_restored_is_real(reply->Sinks_0, cleanup.backend.enabled);
        }
        match cleanup.phase {
            CleanupPhase::Modules => {
                assert(next.leftovers.skip(0) =~= next.leftovers);
            },
            CleanupPhase::Sweep(at) => {
                let rest = cleanup.leftovers.skip(at as int);
                let left = cleanup.leftovers.skip(at + 1);
                if all_well(steps) {
                    assert forall|id: u32| #[trigger]
                        steps.last().server.modules.contains_key(id) implies left.contains(id) by {
                        assert(served(server, before).modules.contains_key(id));
                        assert(rest[0] == cleanup.leftovers[at as int]);
                        let k = choose|k: int| 0 <= k < rest.len() && rest[k] == id;
                        assert(left[k - 1] == id);
                    }
                    if next.phase is Ended {
                        assert(left.len() == 0);
                    }
                }
            },
            _ => {},
        }
    }
}

/// The default moves off our sinks before any of them is unloaded: when the
/// cleanup unloads a module, and nothing went wrong before that is reported,
/// the default is a real sink, if there is one.
pub proof fn lemma_cleanup_moves_the_default_first(
    backend: BackendView,
    server: Server,
    steps: Seq<Step>,
)
    requires
        is_cleanup(begun(backend), server, steps),
        ({
            let cleanup = cleaned(begun(backend), steps);
            cleanup.phase is Combine || cleanup.phase is Null || cleanup.phase is Sweep
                || cleanup.phase is Ended
        }),
        cleaned(begun(backend), steps).trouble is None,
        saw_real_sink(steps),
    ensures
        !ours(served(server, steps).default_sink),
{
    lemma_cleanup_holds(backend, server, steps);
}

/// A cleanup in which no command fails leaves no module of ours on the server,
/// tracks none, and reports no trouble.
pub proof fn lemma_cleanup_leaves_nothing(backend: BackendView, server: Server, steps: Seq<Step>)
    requires
        is_cleanup(begun(backend), server, steps),
        cleaned(begun(backend), steps).phase is Ended,
        all_well(steps),
    ensures
        served(server, steps).modules.dom() == Set::<u32>::empty(),
        cleaned(begun(backend), steps).trouble is None,
        cleaned(begun(backend), steps).backend.combine_module is None,
        cleaned(begun(backend), steps).backend.null_module is None,
{
    lemma_cleanup_holds(backend, server, steps);
}

// ---------------------------------------------------------------------------
// What each moment calls for
// ---------------------------------------------------------------------------

proof fn lemma_first_wanted(names: Seq<Seq<char>>, wanted: Seq<Seq<char>>)
    ensures
        first_wanted(names, wanted) <= names.len(),
        first_wanted(names, wanted) < names.len() ==> wanted.contains(
            names[first_wanted(names, wanted) as int],
        ),
        forall|j: int|
            0 <= j < first_wanted(names, wanted) ==> !wanted.contains(#[trigger] names[j]),
    decreases names.len(),
{
    if names.len() > 0 && !wanted.contains(names.first()) {
        let rest = names.drop_first();
        lemma_first_wanted(rest, wanted);
        assert forall|j: int| 0 <= j < first_wanted(names, wanted) implies !wanted.contains(
            #[trigger] names[j],
        ) by {
            if j > 0 {
                assert(rest[j - 1] == names[j]);
            }
        }
    }
}

/// The sink that becomes the default again is a real one if there is any: the
/// first that is enabled, and the first of all if none is.
pub proof fn lemma_an_enabled_sink_is_restored_first(
    names: Seq<Seq<char>>,
    enabled: Seq<Seq<char>>,
)
    ensures
        restored(names, enabled) is None <==> names.len() == 0,
        names.len() > 0 ==> exists|i: int|
            0 <= i < names.len() && restored(names, enabled) == Some(#[trigger] names[i]) && (
            enabled.contains(names[i]) || i == 0) && (forall|j: int|
                0 <= j < i ==> !enabled.contains(#[trigger] names[j])) && (enabled.contains(
                names[i],
            ) || forall|j: int| 0 <= j < names.len() ==> !enabled.contains(#[trigger] names[j])),
{
    lemma_first_wanted(names, enabled);
    let at = first_wanted(names, enabled) as int;
    if names.len() > 0 {
        let i: int = if at < names.len() {
            at
        } else {
            0
        };
        assert(restored(names, enabled) == Some(names[i]));
    }
}

/// The next command once no combined sink is in the way: the null sink goes if
/// one is tracked, else the modules are listed.
pub open spec fn goes_on_to_null(cleanup: CleanupView) -> bool {
    match cleanup.backend.null_module {
        Some(id) => {
            &&& cleanup.phase == CleanupPhase::<Seq<char>>::Null(id, UnloadStage::Unloading)
            &&& cleanup.command() == Command::<Seq<char>>::Unload(id)
        },
        None => {
            &&& cleanup.phase is Modules
            &&& cleanup.command() == Command::<Seq<char>>::ListModules
        },
    }
}

/// The next command once the default is seen to: the combined sink goes if one is
/// tracked, else the null sink if one is, else the modules are listed.
pub open spec fn takes_down(cleanup: CleanupView) -> bool {
    match cleanup.backend.combine_module {
        Some(id) => {
            &&& cleanup.phase == CleanupPhase::<Seq<char>>::Combine(id, UnloadStage::Unloading)
            &&& cleanup.command() == Command::<Seq<char>>::Unload(id)
        },
        None => goes_on_to_null(cleanup),
    }
}

/// A cleanup asks for the default and then for the sinks. A default that is one
/// of this app's sinks is replaced by a real sink before anything is taken down;
/// any other default is left alone.
pub proof fn lemma_only_a_default_of_ours_is_replaced(
    backend: BackendView,
    default_text: Seq<char>,
    sinks: Seq<SinkView>,
    reply: ReplyView,
)
    requires
        reply is Output || reply is Failed,
    ensures
        ({
            let told = begun(backend).next(ReplyView::Output(default_text));
            let seen = told.next(ReplyView::Sinks(sinks));
            let is_ours = "sound_multiplexer"@.is_prefix_of(trimmed(default_text));
            let target = restored(real_names(sinks), backend.enabled);
            &&& begun(backend).command() is GetDefault
            &&& !(told.phase is Ended) && told.command() is ListSinks
            &&& is_ours && target is Some ==> {
                &&& !(seen.phase is Ended)
                &&& seen.command() == Command::SetDefault(target->0)
                &&& takes_down(seen.next(reply))
            }
            &&& !is_ours || target is None ==> takes_down(seen)
            &&& seen.backend == backend
        }),
{
}

/// Without an answer to either question the tracked modules are taken down all
/// the same, and no default is set.
pub proof fn lemma_an_unanswered_question_stops_nothing(
    backend: BackendView,
    why: Seq<char>,
    later: Seq<char>,
    sinks: Seq<SinkView>,
)
    ensures
        begun(backend).next(ReplyView::Failed(why)).command() is ListSinks,
        takes_down(begun(backend).next(ReplyView::Failed(why)).next(ReplyView::Sinks(sinks))),
        takes_down(begun(backend).next(ReplyView::Failed(why)).next(ReplyView::Failed(later))),
{
}

/// A tracked module that is gone is tracked no longer, and one that may still be
/// there stays tracked. After the combined sink the null sink goes, and after
/// that the modules are listed.
pub proof fn lemma_tracked_modules_go_one_by_one(
    cleanup: CleanupView,
    id: u32,
    stage: UnloadStage,
    reply: ReplyView,
)
    ensures
        cleanup.phase == CleanupPhase::<Seq<char>>::Combine(id, stage) ==> match unload_verdict(
            stage,
            id,
            reply,
        ) {
            Some(gone) => {
                let next = cleanup.next(reply);
                &&& next.backend.combine_module == if gone {
                    None
                } else {
                    cleanup.backend.combine_module
                }
                &&& next.backend.null_module == cleanup.backend.null_module
                &&& goes_on_to_null(next)
            },
            None => cleanup.next(reply) == cleanup.at(
                CleanupPhase::Combine(id, UnloadStage::Verifying),
            ),
        },
        cleanup.phase == CleanupPhase::<Seq<char>>::Null(id, stage) ==> match unload_verdict(
            stage,
            id,
            reply,
        ) {
            Some(gone) => {
                let next = cleanup.next(reply);
                &&& next.backend.null_module == if gone {
                    None
                } else {
                    cleanup.backend.null_module
                }
                &&& next.backend.combine_module == cleanup.backend.combine_module
                &&& next.phase is Modules
            },
            None => cleanup.next(reply) == cleanup.at(
                CleanupPhase::Null(id, UnloadStage::Verifying),
            ),
        },
{
}

/// Every module of ours in the listing is unloaded, one after the other, whether
/// or not an unload works; after the last one the cleanup ends, and no module is
/// tracked.
pub proof fn lemma_every_listed_module_of_ours_is_unloaded(
    cleanup: CleanupView,
    listing: Seq<char>,
    at: usize,
    reply: ReplyView,
)
    requires
        cleanup.wf(),
        cleanup.phase is Modules,
        our_rows(listing).len() <= usize::MAX,
        at < our_rows(listing).len(),
    ensures
        ({
            let swept = cleanup.next(ReplyView::Output(listing));
            let here = swept.at(CleanupPhase::Sweep(at));
            let next = here.next(reply);
            &&& swept.phase == CleanupPhase::<Seq<char>>::Sweep(0)
            &&& here.command() == Command::<Seq<char>>::Unload(our_rows(listing)[at as int].id)
            &&& at + 1 < our_rows(listing).len() ==> next == swept.at(
                CleanupPhase::Sweep((at + 1) as usize),
            )
            &&& at + 1 == our_rows(listing).len() ==> next.phase is Ended
                && next.backend.combine_module is None && next.backend.null_module is None
        }),
{
}

/// Where the listing shows none of ours the cleanup ends with none tracked; where
/// it could not be had, what is tracked stays tracked.
pub proof fn lemma_how_a_cleanup_ends_without_leftovers(
    cleanup: CleanupView,
    listing: Seq<char>,
    why: Seq<char>,
)
    requires
        cleanup.phase is Modules,
        our_rows(listing).len() == 0,
    ensures
        cleanup.next(ReplyView::Output(listing)).phase is Ended,
        cleanup.next(ReplyView::Output(listing)).backend.combine_module is None,
        cleanup.next(ReplyView::Output(listing)).backend.null_module is None,
        cleanup.next(ReplyView::Failed(why)).phase is Ended,
        cleanup.next(ReplyView::Failed(why)).backend == cleanup.backend,
{
}

/// The first trouble is the one that is reported: a question that failed, a
/// listing that failed or a default that could not be set. An unload that fails
/// is no trouble.
pub proof fn lemma_the_first_trouble_is_reported(
    cleanup: CleanupView,
    reply: ReplyView,
    why: Seq<char>,
)
    requires
        !(cleanup.phase is Ended),
        answers(cleanup.command(), reply),
    ensures
        cleanup.trouble is Some ==> cleanup.next(reply).trouble == cleanup.trouble,
        !(reply is Failed) ==> cleanup.next(reply).trouble == cleanup.trouble,
        cleanup.phase is Combine || cleanup.phase is Null || cleanup.phase is Sweep
            ==> cleanup.next(reply).trouble == cleanup.trouble,
        cleanup.trouble is None && reply == ReplyView::Failed(why) && (cleanup.phase is Default
            || cleanup.phase is Sinks || cleanup.phase is Modules) ==> cleanup.next(reply).trouble
            == Some(CleanupError::Pactl(why)),
        cleanup.trouble is None && reply == ReplyView::Failed(why) ==> (cleanup.phase matches
            CleanupPhase::Restore(sink) ==> cleanup.next(reply).trouble == Some(
            CleanupError::Default(sink, why),
        )),
{
}

} // verus!
