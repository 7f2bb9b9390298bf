//! What routing promises over whole runs, against a model of the sound server.

use vstd::prelude::*;
use crate::linux::backend::{
    lemma_selection_is_what_exists_each_once, selection, BackendView,
};
use crate::linux::cleanup::ids_of;
use crate::linux::modules::{our_rows, ours, row_ids, COMBINED_SINK, NULL_SINK};
use crate::linux::pactl::{answers, loaded, Command, LoadFailure, ReplyView, UnloadStage};
use crate::linux::routing::{
    alive, lemma_next_keeps_wf, same_names, Phase, Purpose, RoutingError, RoutingView,
};
use crate::linux::sinks::{owner_alive, real_names, SinkView};
use crate::linux::sinks_laws::{lemma_real_names_are_listed, lemma_the_first_owned_sink};
use crate::seq_laws::lemma_same_items;
use crate::text::{joined, trimmed};
use crate::volume::Level;

verus! {

/// A module of ours on the sound server.
pub enum OwnModule {
    /// The sink that plays nowhere.
    Null,
    /// The sink that plays on the sinks given, listed with commas.
    Combine(Seq<char>),
}

impl OwnModule {
    /// The name of the sink that the module provides.
    pub open spec fn sink(self) -> Seq<char> {
        match self {
            OwnModule::Null => NULL_SINK@,
            OwnModule::Combine(_) => COMBINED_SINK@,
        }
    }
}

/// What matters of the sound server.
#[verifier::ext_equal]
pub struct Server {
    /// The name of the default sink.
    pub default_sink: Seq<char>,
    /// Our modules that are loaded.
    pub modules: Map<u32, OwnModule>,
    /// The module ids that were ever given out.
    pub issued: Set<u32>,
}

impl Server {
    /// A module of ours is loaded under an id that was never given out.
    pub open spec fn gains(self, id: u32, module: OwnModule, after: Server) -> bool {
        &&& !self.issued.contains(id)
        &&& after == (Server {
            modules: self.modules.insert(id, module),
            issued: self.issued.insert(id),
            ..self
        })
    }

    /// The server may answer `command` with `reply` and be `after` then. A
    /// command that fails changes nothing, a listing shows what is there.
    pub open spec fn serves(
        self,
        command: Command<Seq<char>>,
        reply: ReplyView,
        after: Server,
    ) -> bool {
        match command {
            Command::LoadNull => match loaded(reply) {
                Ok(id) => self.gains(id, OwnModule::Null, after),
                Err(_) => after == self,
            },
            Command::LoadCombine(slaves) => match loaded(reply) {
                Ok(id) => self.gains(id, OwnModule::Combine(slaves), after),
                Err(_) => after == self,
            },
            Command::Unload(id) => if reply is Failed {
                after == self
            } else {
                after == (Server { modules: self.modules.remove(id), ..self })
            },
            Command::SetDefault(sink) => if reply is Failed {
                after == self
            } else {
                after == (Server { default_sink: sink, ..self })
            },
            Command::ListModules => {
                &&& after == self
                &&& reply matches ReplyView::Output(listing) ==> forall|id: u32| #[trigger]
                    self.modules.contains_key(id) ==> row_ids(listing).contains(id) && ids_of(
                        our_rows(listing),
                    ).contains(id)
            },
            Command::GetDefault => {
                &&& after == self
                &&& reply matches ReplyView::Output(text) ==> trimmed(text) == self.default_sink
            },
            Command::ListSinks => {
                &&& after == self
                &&& reply matches ReplyView::Sinks(sinks) ==> forall|id: u32|
                    self.issued.contains(id) && #[trigger] owner_alive(sinks, id)
                        ==> self.modules.contains_key(id)
            },
            _ => after == self,
        }
    }

    /// Every module of ours on the server is tracked for what it is, and every
    /// tracked id was given out once.
    pub open spec fn tracked_by(self, backend: BackendView) -> bool {
        &&& forall|id: u32| #[trigger]
            self.modules.contains_key(id) ==> match self.modules[id] {
                OwnModule::Null => backend.null_module == Some(id),
                OwnModule::Combine(_) => backend.combine_module == Some(id),
            }
        &&& backend.null_module matches Some(id) ==> self.issued.contains(id)
        &&& backend.combine_module matches Some(id) ==> self.issued.contains(id)
        &&& backend.null_module is Some ==> backend.null_module != backend.combine_module
    }

    /// Every tracked module is on the server.
    pub open spec fn loads_all(self, backend: BackendView) -> bool {
        &&& backend.null_module matches Some(id) ==> self.modules.contains_key(id)
        &&& backend.combine_module matches Some(id) ==> self.modules.contains_key(id)
    }

    /// A module other than `id` provides the sink `name`.
    pub open spec fn another_provides(self, id: u32, name: Seq<char>) -> bool {
        exists|other: u32| #[trigger]
            self.modules.contains_key(other) && other != id && self.modules[other].sink() == name
    }
}

/// A reply, and the server as it is after the command.
pub struct Step {
    pub reply: ReplyView,
    pub server: Server,
}

/// Routing after some steps.
pub open spec fn routed(start: RoutingView, steps: Seq<Step>) -> RoutingView
    decreases steps.len(),
{
    if steps.len() == 0 {
        start
    } else {
        routed(start, steps.drop_last()).next(steps.last().reply)
    }
}

/// The server after some steps.
pub open spec fn served(start: Server, steps: Seq<Step>) -> Server {
    if steps.len() == 0 {
        start
    } else {
        steps.last().server
    }
}

/// The steps are those of a run: each reply answers the command of its moment,
/// and the server does what it was told.
pub open spec fn is_run(start: RoutingView, server: Server, steps: Seq<Step>) -> bool
    decreases steps.len(),
{
    steps.len() > 0 ==> {
        let before = steps.drop_last();
        let routing = routed(start, before);
        let step = steps.last();
        &&& is_run(start, server, before)
        &&& !routing.ended()
        &&& answers(routing.command(), step.reply)
        &&& served(server, before).serves(routing.command(), step.reply, step.server)
    }
}

/// The routing that begins to apply `ids`.
pub open spec fn begun(backend: BackendView, ids: Seq<Seq<char>>) -> RoutingView {
    RoutingView {
        backend,
        requested: ids,
        selected: Seq::empty(),
        master: None,
        phase: Phase::Listing,
    }
}

/// What holds of the server in each phase, given how routing began.
spec fn phase_holds(
    start: BackendView,
    first: Server,
    nothing_stale: bool,
    routing: RoutingView,
    server: Server,
) -> bool {
    let backend = routing.backend;
    let untouched = backend == start && server == first;
    let slaves = joined(routing.selected, ","@);
    let none_stale = nothing_stale ==> server.loads_all(backend);
    match routing.phase {
        Phase::Listing => {
            &&& untouched
            &&& server.tracked_by(backend)
            &&& none_stale
        },
        Phase::Unload(id, stage, purpose) => match purpose {
            Purpose::StaleNull => {
                &&& untouched
                &&& backend.null_module == Some(id)
                &&& routing.selected.len() == 0
                &&& server.tracked_by(backend)
                &&& none_stale
            },
            Purpose::CombineAfterNull => {
                &&& backend.combine_module == Some(id)
                &&& server.default_sink == NULL_SINK@
                &&& backend.null_module is Some
                &&& server.modules.contains_key(backend.null_module->0)
                &&& routing.selected.len() == 0
                &&& server.tracked_by(backend)
                &&& none_stale
            },
            Purpose::CombineAfterSingle => {
                &&& backend.combine_module == Some(id)
                &&& routing.selected.len() == 1
                &&& server.default_sink == routing.selected[0]
                &&& server.tracked_by(backend)
                &&& none_stale
            },
            Purpose::NullAfterSingle => {
                &&& backend.null_module == Some(id)
                &&& routing.selected.len() == 1
                &&& server.default_sink == routing.selected[0]
                &&& server.tracked_by(backend)
                &&& none_stale
            },
            Purpose::Retry(_) => {
                &&& untouched
                &&& backend.combine_module == Some(id)
                &&& server.tracked_by(backend)
                &&& none_stale
            },
            Purpose::Retire(new) => {
                &&& backend == start
                &&& backend.combine_module == Some(id)
                &&& id != new
                &&& backend.null_module != Some(new)
                &&& first.gains(new, OwnModule::Combine(slaves), server)
                &&& first.tracked_by(backend)
                &&& nothing_stale ==> first.loads_all(backend)
            },
            Purpose::RollBack(old) => {
                &&& backend == start
                &&& backend.combine_module == Some(old)
                &&& id != old
                &&& backend.null_module != Some(id)
                &&& first.gains(id, OwnModule::Combine(slaves), server)
                &&& first.tracked_by(backend)
                &&& nothing_stale ==> first.loads_all(backend)
            },
            Purpose::NullAfterCombined => {
                &&& backend.null_module == Some(id)
                &&& combined(routing, server)
                &&& server.default_sink == COMBINED_SINK@
                &&& server.tracked_by(backend)
                &&& none_stale
            },
        },
        Phase::LoadNull => {
            &&& routing.selected.len() == 0
            &&& backend.null_module is None
            &&& server.tracked_by(backend)
            &&& none_stale
        },
        Phase::DefaultNull => {
            &&& routing.selected.len() == 0
            &&& backend.null_module is Some
            &&& server.modules.contains_key(backend.null_module->0)
            &&& server.tracked_by(backend)
            &&& none_stale
        },
        Phase::DefaultOnly => {
            &&& untouched
            &&& server.tracked_by(backend)
            &&& none_stale
        },
        Phase::LoadCombine => {
            &&& untouched
            &&& server.tracked_by(backend)
            &&& none_stale
        },
        Phase::ReloadCombine => {
            &&& backend.combine_module is None
            &&& server.tracked_by(backend)
            &&& none_stale
        },
        Phase::FallBack(_, _) => {
            &&& backend.combine_module is None
            &&& backend.enabled.len() == 0
            &&& server.tracked_by(backend)
            &&& none_stale
        },
        Phase::CarryVolume | Phase::CarryMute | Phase::DefaultCombined => {
            &&& combined(routing, server)
            &&& server.tracked_by(backend)
            &&& none_stale
        },
        Phase::Done => {
            &&& server.tracked_by(backend)
            &&& none_stale
            &&& settled(start, first, routing, server)
        },
        Phase::Failed(why) => {
            &&& left_as(start, first, why, routing, server)
            &&& !(why is OldStuck) ==> server.tracked_by(backend) && none_stale
        },
    }
}

/// The tracked combined sink is loaded and plays on the selected sinks.
pub open spec fn combined(routing: RoutingView, server: Server) -> bool {
    &&& routing.backend.combine_module is Some
    &&& server.modules.contains_key(routing.backend.combine_module->0)
    &&& server.modules[routing.backend.combine_module->0] == OwnModule::Combine(
        joined(routing.selected, ","@),
    )
}

/// What success means. With no sink selected the null sink is the default and
/// loaded, with one that sink is the default, with more a combined sink over
/// them is; the enabled set is the selection. Two or more sinks over which the
/// combined sink plays already are left alone.
pub open spec fn settled(
    start: BackendView,
    first: Server,
    routing: RoutingView,
    server: Server,
) -> bool {
    let backend = routing.backend;
    ||| {
        &&& routing.selected.len() >= 2
        &&& same_names(routing.selected, start.enabled)
        &&& backend == start
        &&& server == first
        &&& backend.combine_module is Some
        &&& server.modules.contains_key(backend.combine_module->0)
    }
    ||| {
        &&& backend.enabled == routing.selected
        &&& if routing.selected.len() == 0 {
            &&& server.default_sink == NULL_SINK@
            &&& backend.null_module is Some
            &&& server.modules.contains_key(backend.null_module->0)
        } else if routing.selected.len() == 1 {
            server.default_sink == routing.selected[0]
        } else {
            &&& server.default_sink == COMBINED_SINK@
            &&& combined(routing, server)
        }
    }
}

/// What each failure leaves behind.
pub open spec fn left_as(
    start: BackendView,
    first: Server,
    why: RoutingError<Seq<char>>,
    routing: RoutingView,
    server: Server,
) -> bool {
    let backend = routing.backend;
    let untouched = backend == start && server == first;
    match why {
        RoutingError::Listing(_) => untouched,
        RoutingError::NullStuck(_) => untouched,
        RoutingError::Load(_) => {
            &&& routing.selected.len() >= 2 ==> untouched
            &&& backend.enabled == start.enabled
        },
        RoutingError::Blocked(_) => untouched,
        RoutingError::FellBack(_) => {
            &&& backend.combine_module is None
            &&& backend.enabled.len() <= 1
            &&& backend.enabled.len() == 1 ==> server.default_sink == backend.enabled[0]
                && routing.selected.contains(backend.enabled[0])
        },
        RoutingError::OldStuck(old) => {
            &&& backend == start
            &&& backend.combine_module == Some(old)
            &&& server.default_sink == first.default_sink
            &&& forall|id: u32|
                first.modules.contains_key(id) ==> #[trigger] server.modules.contains_key(id)
                    && server.modules[id] == first.modules[id]
        },
        RoutingError::Default(sink, _) => {
            &&& sink == COMBINED_SINK@ && routing.selected.len() >= 2 ==> combined(routing, server)
                && backend.enabled == routing.selected
            &&& routing.selected.len() == 1 ==> untouched
        },
    }
}

proof fn lemma_step_holds(
    start: BackendView,
    first: Server,
    nothing_stale: bool,
    routing: RoutingView,
    server: Server,
    reply: ReplyView,
    after: Server,
)
    requires
        routing.wf(),
        !routing.ended(),
        answers(routing.command(), reply),
        server.serves(routing.command(), reply, after),
        phase_holds(start, first, nothing_stale, routing, server),
        routing.backend.enabled == start.enabled || routing.phase is FallBack,
    ensures
        phase_holds(start, first, nothing_stale, routing.next(reply), after),
        ({
            let next = routing.next(reply);
            next.ended() || next.backend.enabled == start.enabled || next.phase is FallBack
        }),
{
}

/// The sinks that the first step of a run lists.
pub open spec fn listed_sinks(steps: Seq<Step>) -> Seq<SinkView> {
    steps[0].reply->Sinks_0
}

proof fn lemma_run_holds(
    backend: BackendView,
    ids: Seq<Seq<char>>,
    server: Server,
    steps: Seq<Step>,
    nothing_stale: bool,
)
    requires
        backend.wf(),
        ids.len() <= usize::MAX,
        server.tracked_by(backend),
        nothing_stale ==> server.loads_all(backend),
        is_run(begun(backend, ids), server, steps),
    ensures
        ({
            let routing = routed(begun(backend, ids), steps);
            &&& routing.wf()
            &&& routing.requested == ids
            &&& phase_holds(backend, server, nothing_stale, routing, served(server, steps))
            &&& routing.ended() || routing.backend.enabled == backend.enabled
                || routing.phase is FallBack
            &&& steps.len() == 0 <==> routing.phase is Listing
            &&& steps.len() > 0 && steps[0].reply is Sinks ==> routing.selected == selection(
                ids,
                real_names(listed_sinks(steps)),
            )
            &&& steps.len() > 0 && !(steps[0].reply is Sinks) ==> routing.phase matches
                Phase::Failed(RoutingError::Listing(_))
        }),
    decreases steps.len(),
{
    if steps.len() > 0 {
        let before = steps.drop_last();
        lemma_run_holds(backend, ids, server, before, nothing_stale);
        let routing = routed(begun(backend, ids), before);
        let step = steps.last();
        lemma_next_keeps_wf(routing, step.reply);
        lemma_step_holds(
            backend,
            server,
            nothing_stale,
            routing,
            served(server, before),
            step.reply,
            step.server,
        );
        if before.len() > 0 {
            assert(before[0] == steps[0]);
        }
    }
}

/// Success means that the sound goes to the requested sinks that exist, and
/// that nothing of ours is on the server untracked.
pub proof fn lemma_success_routes_to_the_selection(
    backend: BackendView,
    ids: Seq<Seq<char>>,
    server: Server,
    steps: Seq<Step>,
)
    requires
        backend.wf(),
        ids.len() <= usize::MAX,
        server.tracked_by(backend),
        is_run(begun(backend, ids), server, steps),
        routed(begun(backend, ids), steps).phase is Done,
    ensures
        ({
            let routing = routed(begun(backend, ids), steps);
            &&& routing.selected == selection(ids, real_names(listed_sinks(steps)))
            &&& settled(backend, server, routing, served(server, steps))
            &&& served(server, steps).tracked_by(routing.backend)
        }),
{
    lemma_run_holds(backend, ids, server, steps, false);
}

/// No failure loses the handle of a module of ours that is on the server; the
/// one exception is a replacement that could be neither used nor rolled back.
/// And each failure leaves the routing as [`left_as`] says: a replacement that
/// cannot be loaded leaves everything untouched.
pub proof fn lemma_failure_keeps_the_books(
    backend: BackendView,
    ids: Seq<Seq<char>>,
    server: Server,
    steps: Seq<Step>,
)
    requires
        backend.wf(),
        ids.len() <= usize::MAX,
        server.tracked_by(backend),
        is_run(begun(backend, ids), server, steps),
        routed(begun(backend, ids), steps).phase is Failed,
    ensures
        ({
            let routing = routed(begun(backend, ids), steps);
            let why = routing.phase->Failed_0;
            &&& left_as(backend, server, why, routing, served(server, steps))
            &&& !(why is OldStuck) ==> served(server, steps).tracked_by(routing.backend)
        }),
{
    lemma_run_holds(backend, ids, server, steps, false);
}

/// The names of our two sinks carry our prefix and differ.
pub proof fn lemma_own_names()
    ensures
        ours(COMBINED_SINK@),
        ours(NULL_SINK@),
        COMBINED_SINK@ != NULL_SINK@,
{
    reveal_strlit("sound_multiplexer");
    reveal_strlit("sound_multiplexer_combined");
    reveal_strlit("sound_multiplexer_null");
    assert(COMBINED_SINK@[18] != NULL_SINK@[18]);
}

/// When a module of ours is unloaded, the default sink is not the one that it
/// provides, or another module provides a sink of that name. Left out are a
/// null sink that is defunct already, and the retry for servers that refuse
/// two sinks of one name.
pub proof fn lemma_default_is_never_pulled_away(
    backend: BackendView,
    ids: Seq<Seq<char>>,
    server: Server,
    steps: Seq<Step>,
    id: u32,
    purpose: Purpose<Seq<char>>,
)
    requires
        backend.wf(),
        ids.len() <= usize::MAX,
        server.tracked_by(backend),
        server.loads_all(backend),
        is_run(begun(backend, ids), server, steps),
        routed(begun(backend, ids), steps).phase == Phase::Unload(
            id,
            UnloadStage::Unloading,
            purpose,
        ),
        !(purpose is StaleNull),
        !(purpose is Retry),
    ensures
        ({
            let now = served(server, steps);
            &&& now.modules.contains_key(id)
            &&& now.default_sink != now.modules[id].sink() || now.another_provides(
                id,
                now.default_sink,
            )
        }),
{
    lemma_run_holds(backend, ids, server, steps, true);
    lemma_own_names();
    let routing = routed(begun(backend, ids), steps);
    let now = served(server, steps);
    match purpose {
        Purpose::Retire(new) => {
            assert(now.modules.contains_key(new));
        },
        Purpose::RollBack(old) => {
            assert(server.modules.contains_key(old));
            assert(now.modules.contains_key(old));
        },
        _ => {},
    }
}

/// How many steps are left at most.
pub open spec fn steps_left(routing: RoutingView) -> int {
    let len = routing.selected.len() as int;
    match routing.phase {
        Phase::Listing => 10 + routing.requested.len() as int,
        Phase::Unload(_, stage, purpose) => {
            let verified: int = match purpose {
                Purpose::StaleNull => 5,
                Purpose::CombineAfterNull => 1,
                Purpose::CombineAfterSingle => 3,
                Purpose::NullAfterSingle => 1,
                Purpose::Retry(_) => 7 + len,
                Purpose::Retire(_) => 6,
                Purpose::RollBack(_) => 1,
                Purpose::NullAfterCombined => 1,
            };
            if stage == UnloadStage::Unloading {
                verified + 1
            } else {
                verified
            }
        },
        Phase::LoadNull => 4,
        Phase::DefaultNull => 3,
        Phase::DefaultOnly => 5,
        Phase::LoadCombine => 9 + len,
        Phase::ReloadCombine => 6 + len,
        Phase::FallBack(at, _) => len - at,
        Phase::CarryVolume => 5,
        Phase::CarryMute => 4,
        Phase::DefaultCombined => 3,
        Phase::Done => 0,
        Phase::Failed(_) => 0,
    }
}

/// Routing ends, whatever the server replies: after at most ten commands and
/// one more for each requested sink.
pub proof fn lemma_routing_ends(
    backend: BackendView,
    ids: Seq<Seq<char>>,
    server: Server,
    steps: Seq<Step>,
)
    requires
        backend.wf(),
        ids.len() <= usize::MAX,
        is_run(begun(backend, ids), server, steps),
    ensures
        steps.len() <= 10 + ids.len(),
{
    lemma_steps_run_out(backend, ids, server, steps);
}

proof fn lemma_steps_run_out(
    backend: BackendView,
    ids: Seq<Seq<char>>,
    server: Server,
    steps: Seq<Step>,
)
    requires
        backend.wf(),
        ids.len() <= usize::MAX,
        is_run(begun(backend, ids), server, steps),
    ensures
        routed(begun(backend, ids), steps).wf(),
        0 <= steps_left(routed(begun(backend, ids), steps)) <= 10 + ids.len() - steps.len(),
    decreases steps.len(),
{
    if steps.len() > 0 {
        let before = steps.drop_last();
        lemma_steps_run_out(backend, ids, server, before);
        let routing = routed(begun(backend, ids), before);
        let reply = steps.last().reply;
        lemma_next_keeps_wf(routing, reply);
        if routing.phase is Listing && reply is Sinks {
            lemma_selection_is_what_exists_each_once(
                routing.requested,
                real_names(reply->Sinks_0),
            );
        }
    }
}

/// The modules that the number of enabled sinks calls for are there, and no
/// others: with none enabled a live null sink, with one nothing of ours, with
/// more a live combined sink.
pub open spec fn in_place(backend: BackendView, sinks: Seq<SinkView>) -> bool {
    if backend.enabled.len() == 0 {
        alive(backend.null_module, sinks) && backend.combine_module is None
    } else if backend.enabled.len() == 1 {
        backend.null_module is None && backend.combine_module is None
    } else {
        alive(backend.combine_module, sinks)
    }
}

/// Applying again what is applied loads and unloads nothing. With two or more
/// sinks enabled, the request ends right after the sinks are listed. With none
/// or one, one command is left, which names the same default again; whatever
/// comes of it, the request ends and the tracked state is as it was.
pub proof fn lemma_applying_again_changes_nothing(
    backend: BackendView,
    ids: Seq<Seq<char>>,
    sinks: Seq<SinkView>,
    reply: ReplyView,
)
    requires
        backend.wf(),
        backend.enabled.to_set() == selection(ids, real_names(sinks)).to_set(),
        in_place(backend, sinks),
    ensures
        ({
            let next = begun(backend, ids).next(ReplyView::Sinks(sinks));
            let end = next.next(reply);
            if backend.enabled.len() >= 2 {
                next.phase is Done && next.backend == backend
            } else {
                &&& !next.ended()
                &&& next.command() == Command::SetDefault(
                    if backend.enabled.len() == 0 {
                        NULL_SINK@
                    } else {
                        backend.enabled[0]
                    },
                )
                &&& end.phase is Failed <==> reply is Failed
                &&& end.phase is Done <==> !(reply is Failed)
                &&& end.backend == backend
            }
        }),
{
    let selected = selection(ids, real_names(sinks));
    lemma_selection_is_what_exists_each_once(ids, real_names(sinks));
    selected.unique_seq_to_set();
    backend.enabled.unique_seq_to_set();
    assert forall|i: int| 0 <= i < selected.len() implies backend.enabled.contains(
        #[trigger] selected[i],
    ) by {
        assert(selected.to_set().contains(selected[i]));
        assert(backend.enabled.to_set().contains(selected[i]));
    }
    if selected.len() <= 1 {
        if selected.len() == 1 {
            assert(backend.enabled.contains(selected[0]));
        }
        assert(backend.enabled =~= selected);
    }
}

/// A combined sink that replaces another gets its volume, and its mute, before
/// it becomes the default, whatever comes of those commands.
pub proof fn lemma_master_level_is_carried_over(
    routing: RoutingView,
    id: u32,
    level: Level,
    first: ReplyView,
    second: ReplyView,
)
    requires
        routing.master == Some(level),
    ensures
        ({
            let volume = routing.install(id);
            let mute = volume.next(first);
            let default = if level.muted {
                mute.next(second)
            } else {
                mute
            };
            &&& volume.command() == Command::SetVolume(COMBINED_SINK@, level.volume)
            &&& level.muted ==> mute.command() == Command::SetMute(COMBINED_SINK@, true)
            &&& default.command() == Command::SetDefault(COMBINED_SINK@)
        }),
{
}

// ---------------------------------------------------------------------------
// What success means for the names
// ---------------------------------------------------------------------------

/// When routing succeeds, also when nothing had to be done, the tracked enabled
/// set holds exactly the names that were asked for and that a listed sink has
/// which is none of this app's, each once. With one of them that sink is the
/// default, and with none the sink that plays nowhere is.
pub proof fn lemma_success_enables_what_was_asked_for(
    backend: BackendView,
    ids: Seq<Seq<char>>,
    server: Server,
    steps: Seq<Step>,
)
    requires
        backend.wf(),
        ids.len() <= usize::MAX,
        server.tracked_by(backend),
        is_run(begun(backend, ids), server, steps),
        routed(begun(backend, ids), steps).phase is Done,
    ensures
        steps.len() > 0 && steps[0].reply is Sinks,
        ({
            let enabled = routed(begun(backend, ids), steps).backend.enabled;
            let sinks = steps[0].reply->Sinks_0;
            &&& enabled.no_duplicates()
            &&& forall|name: Seq<char>| #[trigger]
                enabled.contains(name) <==> ids.contains(name)
                    && !"sound_multiplexer"@.is_prefix_of(name) && exists|i: int|
                    0 <= i < sinks.len() && (#[trigger] sinks[i]).name == name
            &&& enabled.len() == 1 ==> served(server, steps).default_sink == enabled[0]
            &&& enabled.len() == 0 ==> served(server, steps).default_sink
                == "sound_multiplexer_null"@
        }),
{
    lemma_run_holds(backend, ids, server, steps, false);
    let routing = routed(begun(backend, ids), steps);
    let enabled = routing.backend.enabled;
    let sinks = steps[0].reply->Sinks_0;
    lemma_selection_is_what_exists_each_once(ids, real_names(sinks));
    if enabled != routing.selected {
        lemma_same_items(routing.selected, backend.enabled);
    }
    assert forall|name: Seq<char>| #[trigger] enabled.contains(name) <==> ids.contains(name)
        && !"sound_multiplexer"@.is_prefix_of(name) && exists|i: int|
        0 <= i < sinks.len() && (#[trigger] sinks[i]).name == name by {
        assert(enabled.contains(name) <==> routing.selected.contains(name));
        assert(routing.selected.contains(name) <==> ids.contains(name) && real_names(
            sinks,
        ).contains(name));
        lemma_real_names_are_listed(sinks, name);
    }
    if routing.selected.len() >= 2 {
        assert(enabled.contains(routing.selected[0])) by {
            assert(routing.selected.contains(routing.selected[0]));
        }
        assert(enabled.contains(routing.selected[1])) by {
            assert(routing.selected.contains(routing.selected[1]));
        }
        assert(enabled.len() >= 2);
    }
}

/// The tracked combined sink, while it is loaded and two or more sinks are
/// enabled, plays on exactly the enabled ones.
pub open spec fn plays_on_the_enabled(backend: BackendView, server: Server) -> bool {
    backend.enabled.len() >= 2 ==> (backend.combine_module matches Some(id)
        ==> server.modules.contains_key(id) ==> exists|names: Seq<Seq<char>>|
        server.modules[id] == OwnModule::Combine(#[trigger] joined(names, ","@)) && forall|
            name: Seq<char>,
        | names.contains(name) <==> backend.enabled.contains(name))
}

/// When routing succeeds with two or more sinks, a combined sink is tracked and
/// loaded, and it plays on exactly the enabled sinks, if it did so before. When
/// something had to be done, it is the default.
pub proof fn lemma_success_plays_on_the_enabled(
    backend: BackendView,
    ids: Seq<Seq<char>>,
    server: Server,
    steps: Seq<Step>,
)
    requires
        backend.wf(),
        ids.len() <= usize::MAX,
        server.tracked_by(backend),
        plays_on_the_enabled(backend, server),
        is_run(begun(backend, ids), server, steps),
        routed(begun(backend, ids), steps).phase is Done,
    ensures
        ({
            let after = routed(begun(backend, ids), steps).backend;
            let now = served(server, steps);
            &&& plays_on_the_enabled(after, now)
            &&& after.enabled.len() >= 2 ==> {
                &&& after.combine_module is Some
                &&& now.modules.contains_key(after.combine_module->0)
                &&& now.modules[after.combine_module->0] is Combine
                &&& now.default_sink == "sound_multiplexer_combined"@ || (now == server && after
                    == backend)
            }
        }),
{
    lemma_run_holds(backend, ids, server, steps, false);
    let routing = routed(begun(backend, ids), steps);
    let after = routing.backend;
    let now = served(server, steps);
    let sinks = steps[0].reply->Sinks_0;
    lemma_selection_is_what_exists_each_once(ids, real_names(sinks));
    if after == backend && now == server && routing.selected.len() >= 2 && same_names(
        routing.selected,
        backend.enabled,
    ) {
        lemma_same_items(routing.selected, backend.enabled);
    } else {
        assert(after.enabled == routing.selected);
        if after.enabled.len() >= 2 {
            assert(now.modules[after.combine_module->0] == OwnModule::Combine(
                joined(routing.selected, ","@),
            ));
        }
    }
}

/// No reply was a failure.
pub open spec fn all_served(steps: Seq<Step>) -> bool {
    forall|i: int| 0 <= i < steps.len() ==> !((#[trigger] steps[i]).reply is Failed)
}

proof fn lemma_tidy(backend: BackendView, ids: Seq<Seq<char>>, server: Server, steps: Seq<Step>)
    requires
        backend.wf(),
        ids.len() <= usize::MAX,
        server.tracked_by(backend),
        is_run(begun(backend, ids), server, steps),
        all_served(steps),
    ensures
        ({
            let routing = routed(begun(backend, ids), steps);
            let after = routing.backend;
            &&& routing.phase matches Phase::Unload(_, stage, purpose) ==> stage
                == UnloadStage::Unloading && (purpose is NullAfterSingle
                ==> after.combine_module is None)
            &&& routing.phase is Listing ==> after == backend && served(server, steps) == server
            &&& routing.phase is Done ==> if routing.selected.len() == 0 {
                after.combine_module is None
            } else if routing.selected.len() == 1 {
                after.combine_module is None && after.null_module is None
            } else {
                after.null_module is None || (after == backend && served(server, steps) == server)
            }
        }),
    decreases steps.len(),
{
    if steps.len() > 0 {
        let before = steps.drop_last();
        assert forall|i: int| 0 <= i < before.len() implies !((#[trigger] before[i]).reply
            is Failed) by {
            assert(before[i] == steps[i]);
        }
        assert(steps[steps.len() - 1] == steps.last());
        lemma_tidy(backend, ids, server, before);
        lemma_run_holds(backend, ids, server, before, false);
    }
}

/// When routing succeeds and no command failed, no module of this app is tracked
/// that the enabled set does not call for: none at all with one sink enabled, no
/// combined sink with none, and no null sink with more, unless nothing had to be
/// done.
pub proof fn lemma_success_leaves_only_what_is_needed(
    backend: BackendView,
    ids: Seq<Seq<char>>,
    server: Server,
    steps: Seq<Step>,
)
    requires
        backend.wf(),
        ids.len() <= usize::MAX,
        server.tracked_by(backend),
        is_run(begun(backend, ids), server, steps),
        all_served(steps),
        routed(begun(backend, ids), steps).phase is Done,
    ensures
        ({
            let after = routed(begun(backend, ids), steps).backend;
            &&& after.enabled.len() == 0 ==> after.combine_module is None
            &&& after.enabled.len() == 1 ==> after.combine_module is None
                && after.null_module is None
            &&& after.enabled.len() >= 2 ==> after.null_module is None || (after == backend
                && served(server, steps) == server)
        }),
{
    lemma_tidy(backend, ids, server, steps);
    lemma_run_holds(backend, ids, server, steps, false);
}

// ---------------------------------------------------------------------------
// What each moment calls for
// ---------------------------------------------------------------------------

/// Some listed sink is owned by the tracked module.
pub open spec fn is_up(module: Option<u32>, sinks: Seq<SinkView>) -> bool {
    module matches Some(id) && exists|i: int|
        0 <= i < sinks.len() && (#[trigger] sinks[i]).owner_module == Some(id as u64)
}

/// What the listing calls for. With no sink left of those asked for, the null
/// sink becomes the default if it is up; one that is tracked but not up is
/// unloaded first, and without one it is loaded. One sink becomes the default.
/// More are combined, unless just those are enabled and the combined sink is up,
/// in which case nothing is to be done.
pub proof fn lemma_what_the_listing_calls_for(
    backend: BackendView,
    ids: Seq<Seq<char>>,
    sinks: Seq<SinkView>,
)
    requires
        backend.wf(),
    ensures
        ({
            let next = begun(backend, ids).next(ReplyView::Sinks(sinks));
            let selected = next.selected;
            &&& next.backend == backend
            &&& selected.no_duplicates()
            &&& forall|name: Seq<char>| #[trigger]
                selected.contains(name) <==> ids.contains(name)
                    && !"sound_multiplexer"@.is_prefix_of(name) && exists|i: int|
                    0 <= i < sinks.len() && (#[trigger] sinks[i]).name == name
            &&& selected.len() == 0 ==> !next.ended() && next.command() == if is_up(
                backend.null_module,
                sinks,
            ) {
                Command::SetDefault("sound_multiplexer_null"@)
            } else {
                match backend.null_module {
                    Some(stale) => Command::Unload(stale),
                    None => Command::LoadNull,
                }
            }
            &&& selected.len() == 1 ==> !next.ended() && next.command() == Command::SetDefault(
                selected[0],
            )
            &&& selected.len() >= 2 ==> {
                let nothing_to_do = is_up(backend.combine_module, sinks) && forall|
                    name: Seq<char>,
                | selected.contains(name) <==> backend.enabled.contains(name);
                &&& next.phase is Done <==> nothing_to_do
                &&& !nothing_to_do ==> !next.ended() && next.command() == Command::LoadCombine(
                    joined(selected, ","@),
                )
            }
        }),
{
    let next = begun(backend, ids).next(ReplyView::Sinks(sinks));
    let selected = next.selected;
    lemma_selection_is_what_exists_each_once(ids, real_names(sinks));
    lemma_same_items(selected, backend.enabled);
    assert(is_up(backend.null_module, sinks) <==> alive(backend.null_module, sinks));
    assert(is_up(backend.combine_module, sinks) <==> alive(backend.combine_module, sinks));
    assert forall|name: Seq<char>| #[trigger] selected.contains(name) <==> ids.contains(name)
        && !"sound_multiplexer"@.is_prefix_of(name) && exists|i: int|
        0 <= i < sinks.len() && (#[trigger] sinks[i]).name == name by {
        assert(selected.contains(name) <==> ids.contains(name) && real_names(sinks).contains(
            name,
        ));
        lemma_real_names_are_listed(sinks, name);
    }
}

/// A combined sink that replaces another takes over its level: the first listed
/// sink that the old module owns gives the volume that is set on the new one
/// after the old one is gone, and the mute where it was muted, before the new
/// one becomes the default.
pub proof fn lemma_a_replacement_takes_the_level_over(
    backend: BackendView,
    ids: Seq<Seq<char>>,
    sinks: Seq<SinkView>,
    at: int,
    old_id: u32,
    new_id: u32,
    load: ReplyView,
    unload: ReplyView,
    volume: ReplyView,
    mute: ReplyView,
)
    requires
        backend.wf(),
        backend.combine_module == Some(old_id),
        0 <= at < sinks.len(),
        sinks[at].owner_module == Some(old_id as u64),
        forall|j: int| 0 <= j < at ==> (#[trigger] sinks[j]).owner_module != Some(old_id as u64),
        begun(backend, ids).next(ReplyView::Sinks(sinks)).phase is LoadCombine,
        loaded(load) == Ok::<u32, LoadFailure<Seq<char>>>(new_id),
        !(unload is Failed),
    ensures
        ({
            let retiring = begun(backend, ids).next(ReplyView::Sinks(sinks)).next(load);
            let carrying = retiring.next(unload);
            let carried = carrying.next(volume);
            let ready = if sinks[at].muted {
                carried.next(mute)
            } else {
                carried
            };
            &&& !retiring.ended() && retiring.command() == Command::<Seq<char>>::Unload(old_id)
            &&& !carrying.ended() && carrying.command() == Command::SetVolume(
                "sound_multiplexer_combined"@,
                sinks[at].volume,
            )
            &&& carrying.backend.combine_module == Some(new_id)
            &&& !carried.ended()
            &&& sinks[at].muted ==> carried.command() == Command::SetMute(
                "sound_multiplexer_combined"@,
                true,
            )
            &&& !ready.ended() && ready.command() == Command::SetDefault(
                "sound_multiplexer_combined"@,
            )
        }),
{
    lemma_the_first_owned_sink(sinks, old_id, at);
}

/// When a combined sink cannot be rebuilt with the old one gone, the selected
/// sinks are tried one after the other, in their order, from the first; the
/// first that becomes the default is the only one enabled then, and if none does
/// none is. Either way the routing fails with the reason of the load.
pub proof fn lemma_the_first_sink_that_works_is_fallen_back_to(
    routing: RoutingView,
    why: LoadFailure<Seq<char>>,
    reply: ReplyView,
    i: usize,
    outcome: ReplyView,
)
    requires
        routing.wf(),
        routing.phase is ReloadCombine,
        loaded(reply) == Err::<u32, LoadFailure<Seq<char>>>(why),
        i < routing.selected.len(),
    ensures
        ({
            let failed = routing.next(reply);
            let trying = failed.at(Phase::FallBack(i, why));
            let tried = trying.next(outcome);
            &&& failed.phase == Phase::FallBack(0, why)
            &&& failed.command() == Command::SetDefault(routing.selected[0])
            &&& failed.selected == routing.selected
            &&& failed.backend.enabled.len() == 0
            &&& trying.command() == Command::SetDefault(routing.selected[i as int])
            &&& !(outcome is Failed) ==> tried.phase == Phase::Failed(RoutingError::FellBack(why))
                && tried.backend.enabled == seq![routing.selected[i as int]]
            &&& outcome is Failed && i + 1 < routing.selected.len() ==> {
                &&& tried == failed.at(Phase::FallBack((i + 1) as usize, why))
                &&& tried.command() == Command::SetDefault(routing.selected[i + 1])
            }
            &&& outcome is Failed && i + 1 == routing.selected.len() ==> tried.phase
                == Phase::Failed(RoutingError::FellBack(why)) && tried.backend.enabled.len() == 0
        }),
{
}

/// A failure is told with what caused it: what the server said, or why a module
/// was not loaded.
pub proof fn lemma_failures_carry_their_cause(
    routing: RoutingView,
    reply: ReplyView,
    said: Seq<char>,
    why: LoadFailure<Seq<char>>,
)
    requires
        routing.wf(),
        !routing.ended(),
    ensures
        reply == ReplyView::Failed(said) ==> {
            &&& routing.phase is Listing ==> routing.next(reply).phase == Phase::Failed(
                RoutingError::Listing(said),
            )
            &&& routing.phase is DefaultNull ==> routing.next(reply).phase == Phase::Failed(
                RoutingError::Default("sound_multiplexer_null"@, said),
            )
            &&& routing.phase is DefaultOnly ==> routing.next(reply).phase == Phase::Failed(
                RoutingError::Default(routing.selected[0], said),
            )
            &&& routing.phase is DefaultCombined ==> routing.next(reply).phase == Phase::Failed(
                RoutingError::Default("sound_multiplexer_combined"@, said),
            )
        },
        loaded(reply) == Err::<u32, LoadFailure<Seq<char>>>(why) ==> {
            &&& routing.phase is LoadNull ==> routing.next(reply).phase == Phase::Failed(
                RoutingError::Load(why),
            )
            &&& routing.phase is LoadCombine && routing.backend.combine_module is None
                ==> routing.next(reply).phase == Phase::Failed(RoutingError::Load(why))
            &&& routing.phase is LoadCombine ==> (routing.backend.combine_module matches Some(id)
                ==> !routing.next(reply).ended() && routing.next(reply).command()
                == Command::<Seq<char>>::Unload(id))
        },
{
}

/// A module that would not go is named, and its id stays tracked: a null sink
/// that is not up, or a combined sink that was to be replaced. A replacement
/// that could not be loaded beside the present sink is loaded after that is
/// gone, over the same sinks.
pub proof fn lemma_a_module_that_stays_is_named(
    routing: RoutingView,
    id: u32,
    why: LoadFailure<Seq<char>>,
    new_id: u32,
)
    ensures
        routing.unloaded(id, false, Purpose::StaleNull).phase == Phase::<Seq<char>>::Failed(
            RoutingError::NullStuck(id),
        ),
        routing.unloaded(id, false, Purpose::StaleNull).backend == routing.backend,
        routing.unloaded(id, true, Purpose::StaleNull).command()
            == Command::<Seq<char>>::LoadNull,
        routing.unloaded(id, false, Purpose::Retry(why)).phase == Phase::Failed(
            RoutingError::Blocked(why),
        ),
        routing.unloaded(id, false, Purpose::Retry(why)).backend == routing.backend,
        routing.unloaded(id, true, Purpose::Retry(why)).command() == Command::LoadCombine(
            joined(routing.selected, ","@),
        ),
        routing.unloaded(id, false, Purpose::Retire(new_id)).command() == Command::<
            Seq<char>,
        >::Unload(new_id),
        routing.unloaded(id, false, Purpose::Retire(new_id)).backend == routing.backend,
        forall|gone: bool|
            #![trigger routing.unloaded(new_id, gone, Purpose::RollBack(id))]
            routing.unloaded(new_id, gone, Purpose::RollBack(id)).phase == Phase::<
                Seq<char>,
            >::Failed(RoutingError::OldStuck(id)) && routing.unloaded(
                new_id,
                gone,
                Purpose::RollBack(id),
            ).backend == routing.backend,
{
}

/// A module whose unload failed is looked for in the listing before anything is
/// concluded, and the tracked state is as it was until then.
pub proof fn lemma_a_failed_unload_is_looked_into(
    routing: RoutingView,
    id: u32,
    purpose: Purpose<Seq<char>>,
    why: Seq<char>,
)
    requires
        routing.phase == Phase::Unload(id, UnloadStage::Unloading, purpose),
    ensures
        ({
            let next = routing.next(ReplyView::Failed(why));
            &&& next == routing.at(Phase::Unload(id, UnloadStage::Verifying, purpose))
            &&& next.command() == Command::<Seq<char>>::ListModules
        }),
{
}

/// What an unload that worked leads to, and a listing that lacks the module: the
/// module is tracked no longer, a replacement is tracked in the place of a
/// combined sink that made way for it, and every other module is tracked as
/// before.
pub proof fn lemma_a_module_that_went_is_forgotten(
    routing: RoutingView,
    id: u32,
    stage: UnloadStage,
    purpose: Purpose<Seq<char>>,
    reply: ReplyView,
)
    requires
        routing.phase == Phase::Unload(id, stage, purpose),
        answers(routing.command(), reply),
        match stage {
            UnloadStage::Unloading => !(reply is Failed),
            UnloadStage::Verifying => reply matches ReplyView::Output(listing)
                && !row_ids(listing).contains(id),
        },
    ensures
        ({
            let after = routing.next(reply).backend;
            match purpose {
                Purpose::StaleNull | Purpose::NullAfterSingle | Purpose::NullAfterCombined => {
                    after.null_module is None && after.combine_module
                        == routing.backend.combine_module
                },
                Purpose::CombineAfterNull | Purpose::CombineAfterSingle | Purpose::Retry(_) => {
                    after.combine_module is None && after.null_module
                        == routing.backend.null_module
                },
                Purpose::Retire(new) => {
                    after.combine_module == Some(new) && after.null_module
                        == routing.backend.null_module
                },
                Purpose::RollBack(_) => after == routing.backend,
            }
        }),
{
}

/// A module that is still listed, or of which nothing is known, stays tracked,
/// with every other one.
pub proof fn lemma_a_module_that_stays_is_kept_track_of(
    routing: RoutingView,
    id: u32,
    purpose: Purpose<Seq<char>>,
    reply: ReplyView,
)
    requires
        routing.phase == Phase::Unload(id, UnloadStage::Verifying, purpose),
        answers(routing.command(), reply),
        reply matches ReplyView::Output(listing) ==> row_ids(listing).contains(id),
    ensures
        routing.next(reply).backend.combine_module == routing.backend.combine_module,
        routing.next(reply).backend.null_module == routing.backend.null_module,
{
}

/// A module that should have gone after the default was moved, and did not, stops
/// nothing: routing succeeds, with the selected sinks enabled.
pub proof fn lemma_a_leftover_does_not_fail_routing(
    routing: RoutingView,
    id: u32,
    gone: bool,
    purpose: Purpose<Seq<char>>,
)
    requires
        purpose is CombineAfterNull || purpose is NullAfterSingle || purpose is NullAfterCombined,
    ensures
        routing.unloaded(id, gone, purpose).phase is Done,
        routing.unloaded(id, gone, purpose).backend.enabled == routing.selected,
{
}

/// With one sink as the default, the combined sink goes first and then the null
/// sink, each if it is tracked.
pub proof fn lemma_both_modules_go_after_a_single_sink(
    routing: RoutingView,
    reply: ReplyView,
    id: u32,
    gone: bool,
)
    requires
        routing.phase is DefaultOnly,
        !(reply is Failed),
    ensures
        ({
            let next = routing.next(reply);
            let later = routing.unloaded(id, gone, Purpose::CombineAfterSingle);
            &&& match routing.backend.combine_module {
                Some(combine) => !next.ended() && next.command() == Command::<
                    Seq<char>,
                >::Unload(combine),
                None => match routing.backend.null_module {
                    Some(null) => !next.ended() && next.command() == Command::<
                        Seq<char>,
                    >::Unload(null),
                    None => next.phase is Done && next.backend.enabled == routing.selected,
                },
            }
            &&& match routing.backend.null_module {
                Some(null) => !later.ended() && later.command() == Command::<
                    Seq<char>,
                >::Unload(null),
                None => later.phase is Done && later.backend.enabled == routing.selected,
            }
        }),
{
}

/// A combined sink that replaces none that is up has no level to take over: it
/// becomes the default at once.
pub proof fn lemma_without_a_level_nothing_is_set(
    backend: BackendView,
    ids: Seq<Seq<char>>,
    sinks: Seq<SinkView>,
    new_id: u32,
    load: ReplyView,
    unload: ReplyView,
)
    requires
        backend.wf(),
        !is_up(backend.combine_module, sinks),
        begun(backend, ids).next(ReplyView::Sinks(sinks)).phase is LoadCombine,
        loaded(load) == Ok::<u32, LoadFailure<Seq<char>>>(new_id),
        !(unload is Failed),
    ensures
        ({
            let listed = begun(backend, ids).next(ReplyView::Sinks(sinks));
            let loaded_now = listed.next(load);
            let ready = if backend.combine_module is Some {
                loaded_now.next(unload)
            } else {
                loaded_now
            };
            &&& !ready.ended()
            &&& ready.command() == Command::SetDefault("sound_multiplexer_combined"@)
            &&& ready.backend.combine_module == Some(new_id)
        }),
{
    assert(is_up(backend.combine_module, sinks) <==> alive(backend.combine_module, sinks));
}

/// Once the combined sink is the default, the null sink goes if one is tracked;
/// with that the selected sinks are the enabled ones. So they are if the combined
/// sink could not be made the default.
pub proof fn lemma_the_null_sink_goes_after_the_combined_one(
    routing: RoutingView,
    reply: ReplyView,
)
    requires
        routing.phase is DefaultCombined,
    ensures
        ({
            let next = routing.next(reply);
            &&& !(reply is Failed) ==> match routing.backend.null_module {
                Some(null) => !next.ended() && next.command() == Command::<
                    Seq<char>,
                >::Unload(null),
                None => next.phase is Done && next.backend.enabled == routing.selected,
            }
            &&& reply is Failed ==> next.phase is Failed && next.backend.enabled
                == routing.selected
        }),
{
}

/// A replacement that could only be loaded after the present combined sink was
/// gone takes the level of that one over all the same.
pub proof fn lemma_a_later_replacement_takes_the_level_over(
    backend: BackendView,
    ids: Seq<Seq<char>>,
    sinks: Seq<SinkView>,
    at: int,
    old_id: u32,
    new_id: u32,
    why: LoadFailure<Seq<char>>,
    load: ReplyView,
    unload: ReplyView,
    again: ReplyView,
    volume: ReplyView,
    mute: ReplyView,
)
    requires
        backend.wf(),
        backend.combine_module == Some(old_id),
        0 <= at < sinks.len(),
        sinks[at].owner_module == Some(old_id as u64),
        forall|j: int| 0 <= j < at ==> (#[trigger] sinks[j]).owner_module != Some(old_id as u64),
        begun(backend, ids).next(ReplyView::Sinks(sinks)).phase is LoadCombine,
        loaded(load) == Err::<u32, LoadFailure<Seq<char>>>(why),
        !(unload is Failed),
        loaded(again) == Ok::<u32, LoadFailure<Seq<char>>>(new_id),
    ensures
        ({
            let listed = begun(backend, ids).next(ReplyView::Sinks(sinks));
            let retrying = listed.next(load);
            let reloading = retrying.next(unload);
            let carrying = reloading.next(again);
            let carried = carrying.next(volume);
            let ready = if sinks[at].muted {
                carried.next(mute)
            } else {
                carried
            };
            &&& !retrying.ended() && retrying.command() == Command::<Seq<char>>::Unload(old_id)
            &&& reloading.phase is ReloadCombine && reloading.command() == listed.command()
            &&& reloading.backend.combine_module is None
            &&& !carrying.ended() && carrying.command() == Command::SetVolume(
                "sound_multiplexer_combined"@,
                sinks[at].volume,
            )
            &&& carrying.backend.combine_module == Some(new_id)
            &&& sinks[at].muted ==> carried.command() == Command::SetMute(
                "sound_multiplexer_combined"@,
                true,
            )
            &&& !ready.ended() && ready.command() == Command::SetDefault(
                "sound_multiplexer_combined"@,
            )
        }),
{
    lemma_the_first_owned_sink(sinks, old_id, at);
}

} // verus!
