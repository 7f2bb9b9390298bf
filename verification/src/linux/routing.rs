//! Routing the sound to the enabled sinks, one `pactl` command at a time.
//!
//! With two or more sinks enabled, a combined sink over them is loaded and
//! becomes the default; the replacement loads before an old sink of ours is
//! unloaded, so that streams never fall back to an arbitrary device. With one
//! sink enabled, that sink becomes the default before our own sinks are
//! unloaded. With none, a null sink becomes the default.

use vstd::prelude::*;
use crate::linux::backend::{
    lemma_selection_is_proper, lemma_selection_is_what_exists_each_once, proper, real_sink_names,
    select, selection, BackendView, LinuxBackend,
};
use crate::linux::modules::{COMBINED_SINK, NULL_SINK};
use crate::linux::pactl::{
    answers, judge_unload, loaded, loaded_id, unload_command, unload_verdict, Command,
    LoadFailure, Reply, ReplyView, UnloadStage,
};
use crate::linux::sinks::{find_owned, first_owned, owner_alive, real_names, Sink, SinkView};
use crate::seq_laws::lemma_same_items;
use crate::text::{copy_names, has_name, join, joined};
use crate::volume::Level;

verus! {

/// Why the enabled set was not applied.
#[derive(Debug)]
pub enum RoutingError<T> {
    /// The sinks could not be listed.
    Listing(T),
    /// The tracked null sink is defunct, and its module would not unload: a
    /// second sink of the same name must not be loaded.
    NullStuck(u32),
    /// The null sink, or a first combined sink, could not be loaded.
    Load(LoadFailure<T>),
    /// A replacement of the combined sink could not be loaded, and the present
    /// one could not be unloaded to try again.
    Blocked(LoadFailure<T>),
    /// The combined sink could not be rebuilt; a single sink took its place.
    FellBack(LoadFailure<T>),
    /// The present combined sink would not unload; its replacement was rolled
    /// back.
    OldStuck(u32),
    /// A sink, the first text, could not be made the default.
    Default(T, T),
}

impl DeepView for RoutingError<String> {
    type V = RoutingError<Seq<char>>;

    open spec fn deep_view(&self) -> RoutingError<Seq<char>> {
        match *self {
            RoutingError::Listing(why) => RoutingError::Listing(why@),
            RoutingError::NullStuck(id) => RoutingError::NullStuck(id),
            RoutingError::Load(why) => RoutingError::Load(why.deep_view()),
            RoutingError::Blocked(why) => RoutingError::Blocked(why.deep_view()),
            RoutingError::FellBack(why) => RoutingError::FellBack(why.deep_view()),
            RoutingError::OldStuck(id) => RoutingError::OldStuck(id),
            RoutingError::Default(sink, why) => RoutingError::Default(sink@, why@),
        }
    }
}

/// What a checked unload is for.
#[derive(Debug)]
pub enum Purpose<T> {
    /// A defunct null sink makes way for a new one.
    StaleNull,
    /// The null sink is the default; the combined sink goes.
    CombineAfterNull,
    /// A single sink is the default; the combined sink goes, then the null
    /// sink.
    CombineAfterSingle,
    /// A single sink is the default; the null sink goes.
    NullAfterSingle,
    /// A replacement could not be loaded beside the combined sink, for the
    /// reason given: the combined sink goes first.
    Retry(LoadFailure<T>),
    /// The replacement is loaded under the id given; the old combined sink
    /// goes.
    Retire(u32),
    /// The old combined sink, with the id given, would not unload: the
    /// replacement goes.
    RollBack(u32),
    /// The combined sink is the default; the null sink goes.
    NullAfterCombined,
}

impl DeepView for Purpose<String> {
    type V = Purpose<Seq<char>>;

    open spec fn deep_view(&self) -> Purpose<Seq<char>> {
        match *self {
            Purpose::StaleNull => Purpose::StaleNull,
            Purpose::CombineAfterNull => Purpose::CombineAfterNull,
            Purpose::CombineAfterSingle => Purpose::CombineAfterSingle,
            Purpose::NullAfterSingle => Purpose::NullAfterSingle,
            Purpose::Retry(why) => Purpose::Retry(why.deep_view()),
            Purpose::Retire(new) => Purpose::Retire(new),
            Purpose::RollBack(old) => Purpose::RollBack(old),
            Purpose::NullAfterCombined => Purpose::NullAfterCombined,
        }
    }
}

/// What happens next.
#[derive(Debug)]
pub enum Phase<T> {
    /// The sinks are listed.
    Listing,
    /// A module is unloaded, with a check that it is gone.
    Unload(u32, UnloadStage, Purpose<T>),
    /// The null sink is loaded.
    LoadNull,
    /// The null sink becomes the default.
    DefaultNull,
    /// The only selected sink becomes the default.
    DefaultOnly,
    /// A combined sink over the selected sinks is loaded.
    LoadCombine,
    /// The same again, with the old combined sink gone.
    ReloadCombine,
    /// That failed too, for the reason given: the selected sink at the
    /// position given is to become the default.
    FallBack(usize, LoadFailure<T>),
    /// The new combined sink gets the volume of the old one.
    CarryVolume,
    /// The new combined sink is muted, as the old one was.
    CarryMute,
    /// The combined sink becomes the default.
    DefaultCombined,
    /// All is done.
    Done,
    /// Routing failed.
    Failed(RoutingError<T>),
}

impl DeepView for Phase<String> {
    type V = Phase<Seq<char>>;

    open spec fn deep_view(&self) -> Phase<Seq<char>> {
        match *self {
            Phase::Listing => Phase::Listing,
            Phase::Unload(id, stage, purpose) => Phase::Unload(id, stage, purpose.deep_view()),
            Phase::LoadNull => Phase::LoadNull,
            Phase::DefaultNull => Phase::DefaultNull,
            Phase::DefaultOnly => Phase::DefaultOnly,
            Phase::LoadCombine => Phase::LoadCombine,
            Phase::ReloadCombine => Phase::ReloadCombine,
            Phase::FallBack(at, why) => Phase::FallBack(at, why.deep_view()),
            Phase::CarryVolume => Phase::CarryVolume,
            Phase::CarryMute => Phase::CarryMute,
            Phase::DefaultCombined => Phase::DefaultCombined,
            Phase::Done => Phase::Done,
            Phase::Failed(why) => Phase::Failed(why.deep_view()),
        }
    }
}

/// An enabled set on its way to the sound server.
#[derive(Debug)]
pub struct Routing {
    /// The tracked state, kept true to what the server was told.
    pub backend: LinuxBackend,
    /// The names that were asked for.
    pub requested: Vec<String>,
    /// Those of them that exist, once the sinks are listed.
    pub selected: Vec<String>,
    /// Volume and mute of the combined sink that is to be replaced.
    pub master: Option<Level>,
    pub phase: Phase<String>,
}

/// What a [`Routing`] says, in terms of text.
pub struct RoutingView {
    pub backend: BackendView,
    pub requested: Seq<Seq<char>>,
    pub selected: Seq<Seq<char>>,
    pub master: Option<Level>,
    pub phase: Phase<Seq<char>>,
}

impl DeepView for Routing {
    type V = RoutingView;

    open spec fn deep_view(&self) -> RoutingView {
        RoutingView {
            backend: self.backend.deep_view(),
            requested: self.requested.deep_view(),
            selected: self.selected.deep_view(),
            master: self.master,
            phase: self.phase.deep_view(),
        }
    }
}

/// Module `id` is tracked and owns a sink.
pub open spec fn alive(id: Option<u32>, sinks: Seq<SinkView>) -> bool {
    id is Some && owner_alive(sinks, id->0)
}

/// Two lists without repeats hold the same names.
pub open spec fn same_names(a: Seq<Seq<char>>, b: Seq<Seq<char>>) -> bool {
    a.len() == b.len() && forall|i: int| 0 <= i < a.len() ==> b.contains(#[trigger] a[i])
}

/// Volume and mute of the first sink that the tracked module owns.
pub open spec fn level_of(id: Option<u32>, sinks: Seq<SinkView>) -> Option<Level> {
    if alive(id, sinks) {
        let sink = sinks[first_owned(sinks, id->0) as int];
        Some(Level { volume: sink.volume, muted: sink.muted })
    } else {
        None
    }
}

impl RoutingView {
    /// What each phase relies on.
    pub open spec fn wf(self) -> bool {
        &&& self.backend.wf()
        &&& proper(self.selected)
        &&& self.phase is DefaultOnly ==> self.selected.len() == 1
        &&& self.combines() ==> self.selected.len() >= 2
        &&& self.phase matches Phase::FallBack(at, _) ==> at < self.selected.len()
        &&& self.selected.len() <= usize::MAX
        &&& self.requested.len() <= usize::MAX
        &&& self.phase is CarryVolume ==> self.master is Some
    }

    /// The phase is on the way to a combined sink.
    pub open spec fn combines(self) -> bool {
        match self.phase {
            Phase::LoadCombine | Phase::ReloadCombine | Phase::FallBack(_, _) | Phase::CarryVolume
            | Phase::CarryMute | Phase::DefaultCombined => true,
            Phase::Unload(_, _, purpose) => match purpose {
                Purpose::Retry(_) | Purpose::Retire(_) | Purpose::RollBack(_)
                | Purpose::NullAfterCombined => true,
                _ => false,
            },
            _ => false,
        }
    }

    /// Routing has ended.
    pub open spec fn ended(self) -> bool {
        self.phase is Done || self.phase is Failed
    }

    /// The next command.
    pub open spec fn command(self) -> Command<Seq<char>>
        recommends
            !self.ended(),
    {
        match self.phase {
            Phase::Listing => Command::ListSinks,
            Phase::Unload(id, stage, _) => unload_command(stage, id),
            Phase::LoadNull => Command::LoadNull,
            Phase::DefaultNull => Command::SetDefault(NULL_SINK@),
            Phase::DefaultOnly => Command::SetDefault(self.selected[0]),
            Phase::LoadCombine => Command::LoadCombine(joined(self.selected, ","@)),
            Phase::ReloadCombine => Command::LoadCombine(joined(self.selected, ","@)),
            Phase::FallBack(at, _) => Command::SetDefault(self.selected[at as int]),
            Phase::CarryVolume => Command::SetVolume(COMBINED_SINK@, self.master->0.volume),
            Phase::CarryMute => Command::SetMute(COMBINED_SINK@, true),
            Phase::DefaultCombined => Command::SetDefault(COMBINED_SINK@),
            Phase::Done => arbitrary(),
            Phase::Failed(_) => arbitrary(),
        }
    }

    /// The same routing in another phase.
    pub open spec fn at(self, phase: Phase<Seq<char>>) -> RoutingView {
        RoutingView { phase, ..self }
    }

    /// Routing has failed.
    pub open spec fn fail(self, why: RoutingError<Seq<char>>) -> RoutingView {
        self.at(Phase::Failed(why))
    }

    /// A checked unload begins.
    pub open spec fn unload(self, id: u32, purpose: Purpose<Seq<char>>) -> RoutingView {
        self.at(Phase::Unload(id, UnloadStage::Unloading, purpose))
    }

    /// The same routing with other names enabled.
    pub open spec fn enabling(self, enabled: Seq<Seq<char>>) -> RoutingView {
        RoutingView { backend: BackendView { enabled, ..self.backend }, ..self }
    }

    /// The same routing with another combined sink tracked.
    pub open spec fn combining(self, combine_module: Option<u32>) -> RoutingView {
        RoutingView { backend: BackendView { combine_module, ..self.backend }, ..self }
    }

    /// The same routing with another null sink tracked.
    pub open spec fn silencing(self, null_module: Option<u32>) -> RoutingView {
        RoutingView { backend: BackendView { null_module, ..self.backend }, ..self }
    }

    /// The selected sinks are applied.
    pub open spec fn succeed(self) -> RoutingView {
        self.enabling(self.selected).at(Phase::Done)
    }

    /// The default is a single sink: our null sink goes, if there is one.
    pub open spec fn drop_null(self) -> RoutingView {
        match self.backend.null_module {
            Some(id) => self.unload(id, Purpose::NullAfterSingle),
            None => self.succeed(),
        }
    }

    /// The default is a single sink: our own sinks go.
    pub open spec fn drop_own(self) -> RoutingView {
        match self.backend.combine_module {
            Some(id) => self.unload(id, Purpose::CombineAfterSingle),
            None => self.drop_null(),
        }
    }

    /// The combined sink with module `id` is the one that stays.
    pub open spec fn install(self, id: u32) -> RoutingView {
        let routing = self.combining(Some(id));
        routing.at(
            if self.master is Some {
                Phase::CarryVolume
            } else {
                Phase::DefaultCombined
            },
        )
    }

    /// The sinks are known: what the selection calls for.
    pub open spec fn listed(self, sinks: Seq<SinkView>) -> RoutingView {
        let selected = selection(self.requested, real_names(sinks));
        let routing = RoutingView { selected, ..self };
        if selected.len() == 0 {
            if alive(self.backend.null_module, sinks) {
                routing.at(Phase::DefaultNull)
            } else {
                match self.backend.null_module {
                    Some(stale) => routing.unload(stale, Purpose::StaleNull),
                    None => routing.at(Phase::LoadNull),
                }
            }
        } else if selected.len() == 1 {
            routing.at(Phase::DefaultOnly)
        } else if same_names(selected, self.backend.enabled) && alive(
            self.backend.combine_module,
            sinks,
        ) {
            routing.at(Phase::Done)
        } else {
            RoutingView {
                master: level_of(self.backend.combine_module, sinks),
                ..routing.at(Phase::LoadCombine)
            }
        }
    }

    /// Module `id` is gone, or may still be there.
    pub open spec fn unloaded(self, id: u32, gone: bool, purpose: Purpose<Seq<char>>) -> RoutingView {
        let without_combine = if gone {
            self.combining(None)
        } else {
            self
        };
        let without_null = if gone {
            self.silencing(None)
        } else {
            self
        };
        match purpose {
            Purpose::StaleNull => if gone {
                without_null.at(Phase::LoadNull)
            } else {
                self.fail(RoutingError::NullStuck(id))
            },
            Purpose::CombineAfterNull => without_combine.succeed(),
            Purpose::CombineAfterSingle => without_combine.drop_null(),
            Purpose::NullAfterSingle => without_null.succeed(),
            Purpose::Retry(why) => if gone {
                without_combine.at(Phase::ReloadCombine)
            } else {
                self.fail(RoutingError::Blocked(why))
            },
            Purpose::Retire(new) => if gone {
                self.install(new)
            } else {
                self.unload(new, Purpose::RollBack(id))
            },
            Purpose::RollBack(old) => self.fail(RoutingError::OldStuck(old)),
            Purpose::NullAfterCombined => without_null.succeed(),
        }
    }

    /// What a reply to the command leads to.
    pub open spec fn next(self, reply: ReplyView) -> RoutingView
        recommends
            !self.ended(),
            answers(self.command(), reply),
    {
        match self.phase {
            Phase::Listing => match reply {
                ReplyView::Sinks(sinks) => self.listed(sinks),
                ReplyView::Failed(why) => self.fail(RoutingError::Listing(why)),
                ReplyView::Output(_) => arbitrary(),
            },
            Phase::Unload(id, stage, purpose) => match unload_verdict(stage, id, reply) {
                Some(gone) => self.unloaded(id, gone, purpose),
                None => self.at(Phase::Unload(id, UnloadStage::Verifying, purpose)),
            },
            Phase::LoadNull => match loaded(reply) {
                Ok(id) => self.silencing(Some(id)).at(Phase::DefaultNull),
                Err(why) => self.fail(RoutingError::Load(why)),
            },
            Phase::DefaultNull => match reply {
                ReplyView::Failed(why) => self.fail(RoutingError::Default(NULL_SINK@, why)),
                _ => match self.backend.combine_module {
                    Some(id) => self.unload(id, Purpose::CombineAfterNull),
                    None => self.succeed(),
                },
            },
            Phase::DefaultOnly => match reply {
                ReplyView::Failed(why) => self.fail(RoutingError::Default(self.selected[0], why)),
                _ => self.drop_own(),
            },
            Phase::LoadCombine => match loaded(reply) {
                Ok(new) => match self.backend.combine_module {
                    Some(old) => self.unload(old, Purpose::Retire(new)),
                    None => self.install(new),
                },
                Err(why) => match self.backend.combine_module {
                    Some(old) => self.unload(old, Purpose::Retry(why)),
                    None => self.fail(RoutingError::Load(why)),
                },
            },
            Phase::ReloadCombine => match loaded(reply) {
                Ok(new) => self.install(new),
                Err(why) => self.enabling(Seq::empty()).at(Phase::FallBack(0, why)),
            },
            Phase::FallBack(at, why) => match reply {
                ReplyView::Failed(_) => if at + 1 < self.selected.len() {
                    self.at(Phase::FallBack((at + 1) as usize, why))
                } else {
                    self.fail(RoutingError::FellBack(why))
                },
                _ => self.enabling(seq![self.selected[at as int]]).fail(RoutingError::FellBack(why)),
            },
            Phase::CarryVolume => self.at(
                if self.master->0.muted {
                    Phase::CarryMute
                } else {
                    Phase::DefaultCombined
                },
            ),
            Phase::CarryMute => self.at(Phase::DefaultCombined),
            Phase::DefaultCombined => match reply {
                ReplyView::Failed(why) => self.enabling(self.selected).fail(
                    RoutingError::Default(COMBINED_SINK@, why),
                ),
                _ => match self.backend.null_module {
                    Some(id) => self.unload(id, Purpose::NullAfterCombined),
                    None => self.succeed(),
                },
            },
            Phase::Done => self,
            Phase::Failed(_) => self,
        }
    }
}

// ---------------------------------------------------------------------------
// Execution
// ---------------------------------------------------------------------------

/// Whether the tracked module owns a sink.
fn is_alive(id: Option<u32>, sinks: &Vec<Sink>) -> (r: bool)
    ensures
        r == alive(id, sinks.deep_view()),
{
    match id {
        Some(id) => find_owned(sinks, id).is_some(),
        None => false,
    }
}

/// Whether two lists without repeats hold the same names.
pub fn have_same_names(a: &Vec<String>, b: &Vec<String>) -> (r: bool)
    ensures
        r == same_names(a.deep_view(), b.deep_view()),
        a.deep_view().no_duplicates() && b.deep_view().no_duplicates() ==> (r <==> forall|
            name: Seq<char>,
        | a.deep_view().contains(name) <==> b.deep_view().contains(name)),
{
    proof {
        if a.deep_view().no_duplicates() && b.deep_view().no_duplicates() {
            lemma_same_items(a.deep_view(), b.deep_view());
        }
    }
    if a.len() != b.len() {
        return false;
    }
    let mut i: usize = 0;
    while i < a.len()
        invariant
            i <= a.len(),
            a.len() == b.len(),
            forall|j: int| 0 <= j < i ==> b.deep_view().contains(#[trigger] a.deep_view()[j]),
        decreases a.len() - i,
    {
        if !has_name(b, a[i].as_str()) {
            assert(!b.deep_view().contains(a.deep_view()[i as int]));
            return false;
        }
        i += 1;
    }
    true
}

/// Volume and mute of the first sink that the tracked module owns.
fn level(id: Option<u32>, sinks: &Vec<Sink>) -> (r: Option<Level>)
    ensures
        r == level_of(id, sinks.deep_view()),
{
    match id {
        Some(id) => match find_owned(sinks, id) {
            Some(i) => {
                assert(sinks.deep_view()[i as int] == sinks[i as int].deep_view());
                Some(Level { volume: sinks[i].volume, muted: sinks[i].muted })
            },
            None => None,
        },
        None => None,
    }
}

impl Routing {
    /// Begins to apply the enabled set `ids`.
    pub fn apply_enabled(backend: LinuxBackend, ids: Vec<String>) -> (r: Routing)
        requires
            backend.deep_view().wf(),
        ensures
            r.deep_view().wf(),
            r.deep_view() == (RoutingView {
                backend: backend.deep_view(),
                requested: ids.deep_view(),
                selected: Seq::empty(),
                master: None,
                phase: Phase::Listing,
            }),
    {
        let r = Routing {
            backend,
            requested: ids,
            selected: Vec::new(),
            master: None,
            phase: Phase::Listing,
        };
        assert(r.selected.deep_view() =~= Seq::empty());
        assert(r.requested.deep_view().len() == r.requested.len());
        r
    }

    /// The next command; none when routing has ended.
    pub fn command(&self) -> (r: Option<Command<String>>)
        requires
            self.deep_view().wf(),
        ensures
            self.deep_view().ended() <==> r is None,
            r is Some ==> r->0.deep_view() == self.deep_view().command(),
    {
        assert(forall|i: int|
            0 <= i < self.selected.len() ==> self.selected.deep_view()[i] == (
            #[trigger] self.selected[i])@);
        match &self.phase {
            Phase::Listing => Some(Command::ListSinks),
            Phase::Unload(id, stage, _) => match stage {
                UnloadStage::Unloading => Some(Command::Unload(*id)),
                UnloadStage::Verifying => Some(Command::ListModules),
            },
            Phase::LoadNull => Some(Command::LoadNull),
            Phase::DefaultNull => Some(Command::SetDefault(NULL_SINK.to_owned())),
            Phase::DefaultOnly => Some(Command::SetDefault(self.selected[0].clone())),
            Phase::LoadCombine => Some(Command::LoadCombine(join(&self.selected, ","))),
            Phase::ReloadCombine => Some(Command::LoadCombine(join(&self.selected, ","))),
            Phase::FallBack(at, _) => Some(Command::SetDefault(self.selected[*at].clone())),
            Phase::CarryVolume => match self.master {
                Some(level) => Some(Command::SetVolume(COMBINED_SINK.to_owned(), level.volume)),
                None => None,
            },
            Phase::CarryMute => Some(Command::SetMute(COMBINED_SINK.to_owned(), true)),
            Phase::DefaultCombined => Some(Command::SetDefault(COMBINED_SINK.to_owned())),
            Phase::Done => None,
            Phase::Failed(_) => None,
        }
    }

    fn begin_unload(&mut self, id: u32, purpose: Purpose<String>)
        ensures
            final(self).deep_view() == old(self).deep_view().unload(id, purpose.deep_view()),
    {
        self.phase = Phase::Unload(id, UnloadStage::Unloading, purpose);
    }

    fn succeed(&mut self)
        requires
            old(self).deep_view().wf(),
        ensures
            final(self).deep_view() == old(self).deep_view().succeed(),
    {
        self.backend.enabled = copy_names(&self.selected);
        self.phase = Phase::Done;
    }

    fn drop_null(&mut self)
        requires
            old(self).deep_view().wf(),
        ensures
            final(self).deep_view() == old(self).deep_view().drop_null(),
    {
        match self.backend.null_module {
            Some(id) => self.begin_unload(id, Purpose::NullAfterSingle),
            None => self.succeed(),
        }
    }

    fn install(&mut self, id: u32)
        ensures
            final(self).deep_view() == old(self).deep_view().install(id),
    {
        self.backend.combine_module = Some(id);
        self.phase = if self.master.is_some() {
            Phase::CarryVolume
        } else {
            Phase::DefaultCombined
        };
    }

    fn plan(&mut self, sinks: &Vec<Sink>)
        requires
            old(self).deep_view().wf(),
        ensures
            final(self).deep_view() == old(self).deep_view().listed(sinks.deep_view()),
    {
        let existing = real_sink_names(sinks);
        self.selected = select(&self.requested, &existing);
        if self.selected.len() == 0 {
            if is_alive(self.backend.null_module, sinks) {
                self.phase = Phase::DefaultNull;
            } else {
                match self.backend.null_module {
                    Some(stale) => self.begin_unload(stale, Purpose::StaleNull),
                    None => {
                        self.phase = Phase::LoadNull;
                    },
                }
            }
        } else if self.selected.len() == 1 {
            self.phase = Phase::DefaultOnly;
        } else if have_same_names(&self.selected, &self.backend.enabled) && is_alive(
            self.backend.combine_module,
            sinks,
        ) {
            self.phase = Phase::Done;
        } else {
            self.master = level(self.backend.combine_module, sinks);
            self.phase = Phase::LoadCombine;
        }
    }

    fn after_unload(&mut self, id: u32, gone: bool, purpose: Purpose<String>)
        requires
            old(self).deep_view().wf(),
        ensures
            final(self).deep_view() == old(self).deep_view().unloaded(
                id,
                gone,
                purpose.deep_view(),
            ),
    {
        match purpose {
            Purpose::StaleNull => {
                if gone {
                    self.backend.null_module = None;
                    self.phase = Phase::LoadNull;
                } else {
                    self.phase = Phase::Failed(RoutingError::NullStuck(id));
                }
            },
            Purpose::CombineAfterNull => {
                if gone {
                    self.backend.combine_module = None;
                }
                self.succeed();
            },
            Purpose::CombineAfterSingle => {
                if gone {
                    self.backend.combine_module = None;
                }
                self.drop_null();
            },
            Purpose::NullAfterSingle => {
                if gone {
                    self.backend.null_module = None;
                }
                self.succeed();
            },
            Purpose::Retry(why) => {
                if gone {
                    self.backend.combine_module = None;
                    self.phase = Phase::ReloadCombine;
                } else {
                    self.phase = Phase::Failed(RoutingError::Blocked(why));
                }
            },
            Purpose::Retire(new) => {
                if gone {
                    self.install(new);
                } else {
                    self.begin_unload(new, Purpose::RollBack(id));
                }
            },
            Purpose::RollBack(old) => {
                self.phase = Phase::Failed(RoutingError::OldStuck(old));
            },
            Purpose::NullAfterCombined => {
                if gone {
                    self.backend.null_module = None;
                }
                self.succeed();
            },
        }
    }

    /// Takes the reply to the command and goes on.
    pub fn step(self, reply: Reply) -> (r: Routing)
        requires
            self.deep_view().wf(),
            !self.deep_view().ended(),
            answers(self.deep_view().command(), reply.deep_view()),
        ensures
            r.deep_view() == self.deep_view().next(reply.deep_view()),
            r.deep_view().wf(),
    {
        proof {
            lemma_next_keeps_wf(self.deep_view(), reply.deep_view());
        }
        let Routing { backend, requested, selected, master, phase } = self;
        let mut r = Routing { backend, requested, selected, master, phase: Phase::Done };
        assert(forall|i: int|
            0 <= i < r.selected.len() ==> r.selected.deep_view()[i] == (
            #[trigger] r.selected[i])@);
        match phase {
            Phase::Listing => match reply {
                Reply::Sinks(sinks) => r.plan(&sinks),
                Reply::Failed(why) => {
                    r.phase = Phase::Failed(RoutingError::Listing(why));
                },
                Reply::Output(_) => {},
            },
            Phase::Unload(id, stage, purpose) => match judge_unload(stage, id, &reply) {
                Some(gone) => r.after_unload(id, gone, purpose),
                None => {
                    r.phase = Phase::Unload(id, UnloadStage::Verifying, purpose);
                },
            },
            Phase::LoadNull => match loaded_id(reply) {
                Ok(id) => {
                    r.backend.null_module = Some(id);
                    r.phase = Phase::DefaultNull;
                },
                Err(why) => {
                    r.phase = Phase::Failed(RoutingError::Load(why));
                },
            },
            Phase::DefaultNull => match reply {
                Reply::Failed(why) => {
                    r.phase = Phase::Failed(RoutingError::Default(NULL_SINK.to_owned(), why));
                },
                _ => match r.backend.combine_module {
                    Some(id) => r.begin_unload(id, Purpose::CombineAfterNull),
                    None => r.succeed(),
                },
            },
            Phase::DefaultOnly => match reply {
                Reply::Failed(why) => {
                    let only = r.selected[0].clone();
                    r.phase = Phase::Failed(RoutingError::Default(only, why));
                },
                _ => match r.backend.combine_module {
                    Some(id) => r.begin_unload(id, Purpose::CombineAfterSingle),
                    None => r.drop_null(),
                },
            },
            Phase::LoadCombine => match loaded_id(reply) {
                Ok(new) => match r.backend.combine_module {
                    Some(old) => r.begin_unload(old, Purpose::Retire(new)),
                    None => r.install(new),
                },
                Err(why) => match r.backend.combine_module {
                    Some(old) => r.begin_unload(old, Purpose::Retry(why)),
                    None => {
                        r.phase = Phase::Failed(RoutingError::Load(why));
                    },
                },
            },
            Phase::ReloadCombine => match loaded_id(reply) {
                Ok(new) => r.install(new),
                Err(why) => {
                    r.backend.enabled = Vec::new();
                    assert(r.backend.enabled.deep_view() =~= Seq::empty());
                    r.phase = Phase::FallBack(0, why);
                },
            },
            Phase::FallBack(at, why) => match reply {
                Reply::Failed(_) => {
                    if at + 1 < r.selected.len() {
                        r.phase = Phase::FallBack(at + 1, why);
                    } else {
                        r.phase = Phase::Failed(RoutingError::FellBack(why));
                    }
                },
                _ => {
                    let mut survivor: Vec<String> = Vec::new();
                    survivor.push(r.selected[at].clone());
                    assert(survivor.deep_view() =~= seq![r.selected[at as int]@]);
                    r.backend.enabled = survivor;
                    r.phase = Phase::Failed(RoutingError::FellBack(why));
                },
            },
            Phase::CarryVolume => {
                let muted = match r.master {
                    Some(level) => level.muted,
                    None => false,
                };
                r.phase = if muted {
                    Phase::CarryMute
                } else {
                    Phase::DefaultCombined
                };
            },
            Phase::CarryMute => {
                r.phase = Phase::DefaultCombined;
            },
            Phase::DefaultCombined => match reply {
                Reply::Failed(why) => {
                    r.backend.enabled = copy_names(&r.selected);
                    r.phase = Phase::Failed(
                        RoutingError::Default(COMBINED_SINK.to_owned(), why),
                    );
                },
                _ => match r.backend.null_module {
                    Some(id) => r.begin_unload(id, Purpose::NullAfterCombined),
                    None => r.succeed(),
                },
            },
            Phase::Done => {},
            Phase::Failed(_) => {},
        }
        r
    }
}

/// Each step keeps what the phases rely on.
pub proof fn lemma_next_keeps_wf(routing: RoutingView, reply: ReplyView)
    requires
        routing.wf(),
        !routing.ended(),
        answers(routing.command(), reply),
    ensures
        routing.next(reply).wf(),
{
    if routing.phase is Listing && reply is Sinks {
        lemma_selection_is_what_exists_each_once(
            routing.requested,
            real_names(reply->Sinks_0),
        );
        lemma_selection_is_proper(routing.requested, reply->Sinks_0);
    }
}

} // verus!
