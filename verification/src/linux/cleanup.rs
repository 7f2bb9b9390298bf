//! Taking down what was set up: the default moves to a real sink, then every
//! module of ours is unloaded.

use vstd::prelude::*;
use crate::linux::backend::{real_sink_names, BackendView, LinuxBackend};
use crate::linux::modules::{is_ours, our_rows, ours, parse_our_modules, OurModuleView};
use crate::linux::pactl::{
    answers, judge_unload, unload_command, unload_verdict, Command, Reply, ReplyView, UnloadStage,
};
use crate::linux::sinks::real_names;
use crate::text::{has_name, trim, trimmed};

verus! {

/// What went wrong first in a cleanup.
#[derive(Debug)]
pub enum CleanupError<T> {
    /// A `pactl` failed.
    Pactl(T),
    /// A sink, the first text, could not be made the default.
    Default(T, T),
}

impl DeepView for CleanupError<String> {
    type V = CleanupError<Seq<char>>;

    open spec fn deep_view(&self) -> CleanupError<Seq<char>> {
        match *self {
            CleanupError::Pactl(why) => CleanupError::Pactl(why@),
            CleanupError::Default(sink, why) => CleanupError::Default(sink@, why@),
        }
    }
}

/// What happens next in a cleanup.
#[derive(Debug)]
pub enum CleanupPhase<T> {
    /// The default sink is asked for.
    Default,
    /// The sinks are listed.
    Sinks,
    /// The default is ours: the sink given becomes the default.
    Restore(T),
    /// The combined sink is unloaded.
    Combine(u32, UnloadStage),
    /// The null sink is unloaded.
    Null(u32, UnloadStage),
    /// The modules are listed.
    Modules,
    /// The module of ours at the position given is unloaded.
    Sweep(usize),
    /// All that could be done is done.
    Ended,
}

impl DeepView for CleanupPhase<String> {
    type V = CleanupPhase<Seq<char>>;

    open spec fn deep_view(&self) -> CleanupPhase<Seq<char>> {
        match *self {
            CleanupPhase::Default => CleanupPhase::Default,
            CleanupPhase::Sinks => CleanupPhase::Sinks,
            CleanupPhase::Restore(sink) => CleanupPhase::Restore(sink@),
            CleanupPhase::Combine(id, stage) => CleanupPhase::Combine(id, stage),
            CleanupPhase::Null(id, stage) => CleanupPhase::Null(id, stage),
            CleanupPhase::Modules => CleanupPhase::Modules,
            CleanupPhase::Sweep(at) => CleanupPhase::Sweep(at),
            CleanupPhase::Ended => CleanupPhase::Ended,
        }
    }
}

/// A cleanup under way. It does all it can, and remembers the first trouble.
#[derive(Debug)]
pub struct Cleanup {
    pub backend: LinuxBackend,
    /// The default sink, if the server told.
    pub default_sink: Option<String>,
    /// What went wrong first.
    pub trouble: Option<CleanupError<String>>,
    /// The ids of the modules to sweep.
    pub leftovers: Vec<u32>,
    pub phase: CleanupPhase<String>,
}

/// What a [`Cleanup`] says, in terms of text.
pub struct CleanupView {
    pub backend: BackendView,
    pub default_sink: Option<Seq<char>>,
    pub trouble: Option<CleanupError<Seq<char>>>,
    pub leftovers: Seq<u32>,
    pub phase: CleanupPhase<Seq<char>>,
}

impl DeepView for Cleanup {
    type V = CleanupView;

    open spec fn deep_view(&self) -> CleanupView {
        CleanupView {
            backend: self.backend.deep_view(),
            default_sink: self.default_sink.deep_view(),
            trouble: self.trouble.deep_view(),
            leftovers: self.leftovers@,
            phase: self.phase.deep_view(),
        }
    }
}

/// Position of the first name in `names` that is in `wanted`, or the number of
/// names.
pub open spec fn first_wanted(names: Seq<Seq<char>>, wanted: Seq<Seq<char>>) -> nat
    decreases names.len(),
{
    if names.len() == 0 {
        0
    } else if wanted.contains(names.first()) {
        0
    } else {
        1 + first_wanted(names.drop_first(), wanted)
    }
}

/// The real sink that becomes the default again: the first that is enabled,
/// else the first.
pub open spec fn restored(names: Seq<Seq<char>>, enabled: Seq<Seq<char>>) -> Option<Seq<char>> {
    if first_wanted(names, enabled) < names.len() {
        Some(names[first_wanted(names, enabled) as int])
    } else if names.len() > 0 {
        Some(names[0])
    } else {
        None
    }
}

/// The ids of some modules.
pub open spec fn ids_of(modules: Seq<OurModuleView>) -> Seq<u32> {
    modules.map_values(|m: OurModuleView| m.id)
}

impl CleanupView {
    /// What each phase relies on.
    pub open spec fn wf(self) -> bool {
        &&& self.leftovers.len() <= usize::MAX
        &&& self.phase matches CleanupPhase::Sweep(at) ==> at < self.leftovers.len()
    }

    /// The next command.
    pub open spec fn command(self) -> Command<Seq<char>>
        recommends
            !(self.phase is Ended),
    {
        match self.phase {
            CleanupPhase::Default => Command::GetDefault,
            CleanupPhase::Sinks => Command::ListSinks,
            CleanupPhase::Restore(sink) => Command::SetDefault(sink),
            CleanupPhase::Combine(id, stage) => unload_command(stage, id),
            CleanupPhase::Null(id, stage) => unload_command(stage, id),
            CleanupPhase::Modules => Command::ListModules,
            CleanupPhase::Sweep(at) => Command::Unload(self.leftovers[at as int]),
            CleanupPhase::Ended => arbitrary(),
        }
    }

    /// The same cleanup in another phase.
    pub open spec fn at(self, phase: CleanupPhase<Seq<char>>) -> CleanupView {
        CleanupView { phase, ..self }
    }

    /// Trouble is remembered unless there was some before.
    pub open spec fn note(self, trouble: CleanupError<Seq<char>>) -> CleanupView {
        CleanupView {
            trouble: if self.trouble is Some {
                self.trouble
            } else {
                Some(trouble)
            },
            ..self
        }
    }

    /// The tracked null sink goes, if there is one.
    pub open spec fn unload_null(self) -> CleanupView {
        match self.backend.null_module {
            Some(id) => self.at(CleanupPhase::Null(id, UnloadStage::Unloading)),
            None => self.at(CleanupPhase::Modules),
        }
    }

    /// The tracked modules go, if there are any.
    pub open spec fn unload_tracked(self) -> CleanupView {
        match self.backend.combine_module {
            Some(id) => self.at(CleanupPhase::Combine(id, UnloadStage::Unloading)),
            None => self.unload_null(),
        }
    }

    /// The listed modules from `at` on go; after them none is tracked.
    pub open spec fn sweep(self, at: int) -> CleanupView {
        if at < self.leftovers.len() {
            self.at(CleanupPhase::Sweep(at as usize))
        } else {
            CleanupView {
                backend: BackendView { combine_module: None, null_module: None, ..self.backend },
                ..self.at(CleanupPhase::Ended)
            }
        }
    }

    /// What a reply to the command leads to.
    pub open spec fn next(self, reply: ReplyView) -> CleanupView
        recommends
            !(self.phase is Ended),
            answers(self.command(), reply),
    {
        match self.phase {
            CleanupPhase::Default => match reply {
                ReplyView::Output(text) => CleanupView {
                    default_sink: Some(trimmed(text)),
                    ..self.at(CleanupPhase::Sinks)
                },
                ReplyView::Failed(why) => self.note(CleanupError::Pactl(why)).at(
                    CleanupPhase::Sinks,
                ),
                ReplyView::Sinks(_) => arbitrary(),
            },
            CleanupPhase::Sinks => match reply {
                ReplyView::Sinks(sinks) => if self.default_sink is Some && ours(
                    self.default_sink->0,
                ) {
                    match restored(real_names(sinks), self.backend.enabled) {
                        Some(target) => self.at(CleanupPhase::Restore(target)),
                        None => self.unload_tracked(),
                    }
                } else {
                    self.unload_tracked()
                },
                ReplyView::Failed(why) => self.note(CleanupError::Pactl(why)).unload_tracked(),
                ReplyView::Output(_) => arbitrary(),
            },
            CleanupPhase::Restore(sink) => match reply {
                ReplyView::Failed(why) => self.note(
                    CleanupError::Default(sink, why),
                ).unload_tracked(),
                _ => self.unload_tracked(),
            },
            CleanupPhase::Combine(id, stage) => match unload_verdict(stage, id, reply) {
                Some(gone) => if gone {
                    CleanupView {
                        backend: BackendView { combine_module: None, ..self.backend },
                        ..self
                    }.unload_null()
                } else {
                    self.unload_null()
                },
                None => self.at(CleanupPhase::Combine(id, UnloadStage::Verifying)),
            },
            CleanupPhase::Null(id, stage) => match unload_verdict(stage, id, reply) {
                Some(gone) => if gone {
                    CleanupView {
                        backend: BackendView { null_module: None, ..self.backend },
                        ..self
                    }.at(CleanupPhase::Modules)
                } else {
                    self.at(CleanupPhase::Modules)
                },
                None => self.at(CleanupPhase::Null(id, UnloadStage::Verifying)),
            },
            CleanupPhase::Modules => match reply {
                ReplyView::Output(listing) => CleanupView {
                    leftovers: ids_of(our_rows(listing)),
                    ..self
                }.sweep(0),
                ReplyView::Failed(why) => self.note(CleanupError::Pactl(why)).at(
                    CleanupPhase::Ended,
                ),
                ReplyView::Sinks(_) => arbitrary(),
            },
            CleanupPhase::Sweep(at) => self.sweep(at + 1),
            CleanupPhase::Ended => self,
        }
    }
}

// ---------------------------------------------------------------------------
// Execution
// ---------------------------------------------------------------------------

/// The real sink that becomes the default again.
pub fn restore_target(names: &Vec<String>, enabled: &Vec<String>) -> (r: Option<String>)
    ensures
        r.deep_view() == restored(names.deep_view(), enabled.deep_view()),
{
    let ghost model = names.deep_view();
    let mut i: usize = 0;
    assert(model.skip(0) =~= model);
    while i < names.len()
        invariant
            i <= names.len(),
            model == names.deep_view(),
            first_wanted(model, enabled.deep_view()) == i + first_wanted(
                model.skip(i as int),
                enabled.deep_view(),
            ),
        decreases names.len() - i,
    {
        assert(model.skip(i as int).first() == names[i as int]@);
        assert(model.skip(i as int).drop_first() =~= model.skip(i + 1));
        if has_name(enabled, names[i].as_str()) {
            assert(model[i as int] == names[i as int]@);
            return Some(names[i].clone());
        }
        i += 1;
    }
    if names.len() > 0 {
        assert(model[0] == names[0]@);
        Some(names[0].clone())
    } else {
        None
    }
}

fn ids_in(listing: &str) -> (r: Vec<u32>)
    ensures
        r@ == ids_of(our_rows(listing@)),
{
    let modules = parse_our_modules(listing);
    let mut ids: Vec<u32> = Vec::new();
    let mut i: usize = 0;
    while i < modules.len()
        invariant
            i <= modules.len(),
            ids.len() == i,
            forall|j: int| 0 <= j < i ==> #[trigger] ids[j] == modules[j].id,
        decreases modules.len() - i,
    {
        ids.push(modules[i].id);
        i += 1;
    }
    assert(ids@ =~= ids_of(modules.deep_view()));
    ids
}

impl Cleanup {
    /// Begins a cleanup.
    pub fn new(backend: LinuxBackend) -> (r: Cleanup)
        ensures
            r.deep_view().wf(),
            r.deep_view() == (CleanupView {
                backend: backend.deep_view(),
                default_sink: None,
                trouble: None,
                leftovers: Seq::empty(),
                phase: CleanupPhase::Default,
            }),
    {
        Cleanup {
            backend,
            default_sink: None,
            trouble: None,
            leftovers: Vec::new(),
            phase: CleanupPhase::Default,
        }
    }

    /// The next command; none when the cleanup has ended.
    pub fn command(&self) -> (r: Option<Command<String>>)
        requires
            self.deep_view().wf(),
        ensures
            self.deep_view().phase is Ended <==> r is None,
            r is Some ==> r->0.deep_view() == self.deep_view().command(),
    {
        match &self.phase {
            CleanupPhase::Default => Some(Command::GetDefault),
            CleanupPhase::Sinks => Some(Command::ListSinks),
            CleanupPhase::Restore(sink) => Some(Command::SetDefault(sink.clone())),
            CleanupPhase::Combine(id, stage) | CleanupPhase::Null(id, stage) => match stage {
                UnloadStage::Unloading => Some(Command::Unload(*id)),
                UnloadStage::Verifying => Some(Command::ListModules),
            },
            CleanupPhase::Modules => Some(Command::ListModules),
            CleanupPhase::Sweep(at) => Some(Command::Unload(self.leftovers[*at])),
            CleanupPhase::Ended => None,
        }
    }

    fn note(&mut self, trouble: CleanupError<String>)
        ensures
            final(self).deep_view() == old(self).deep_view().note(trouble.deep_view()),
    {
        if self.trouble.is_none() {
            self.trouble = Some(trouble);
        }
    }

    fn unload_null(&mut self)
        ensures
            final(self).deep_view() == old(self).deep_view().unload_null(),
    {
        match self.backend.null_module {
            Some(id) => {
                self.phase = CleanupPhase::Null(id, UnloadStage::Unloading);
            },
            None => {
                self.phase = CleanupPhase::Modules;
            },
        }
    }

    fn unload_tracked(&mut self)
        ensures
            final(self).deep_view() == old(self).deep_view().unload_tracked(),
    {
        match self.backend.combine_module {
            Some(id) => {
                self.phase = CleanupPhase::Combine(id, UnloadStage::Unloading);
            },
            None => self.unload_null(),
        }
    }

    fn sweep_leftover_modules(&mut self, at: usize)
        ensures
            final(self).deep_view() == old(self).deep_view().sweep(at as int),
    {
        if at < self.leftovers.len() {
            self.phase = CleanupPhase::Sweep(at);
        } else {
            self.backend.combine_module = None;
            self.backend.null_module = None;
            self.phase = CleanupPhase::Ended;
        }
    }

    /// Takes the reply to the command and goes on.
    pub fn step(self, reply: Reply) -> (r: Cleanup)
        requires
            self.deep_view().wf(),
            !(self.deep_view().phase is Ended),
            answers(self.deep_view().command(), reply.deep_view()),
        ensures
            r.deep_view() == self.deep_view().next(reply.deep_view()),
            r.deep_view().wf(),
    {
        let Cleanup { backend, default_sink, trouble, leftovers, phase } = self;
        let mut r = Cleanup {
            backend,
            default_sink,
            trouble,
            leftovers,
            phase: CleanupPhase::Ended,
        };
        match phase {
            CleanupPhase::Default => {
                match reply {
                    Reply::Output(text) => {
                        r.default_sink = Some(trim(text.as_str()).to_owned());
                    },
                    Reply::Failed(why) => r.note(CleanupError::Pactl(why)),
                    Reply::Sinks(_) => {},
                }
                r.phase = CleanupPhase::Sinks;
            },
            CleanupPhase::Sinks => match reply {
                Reply::Sinks(sinks) => {
                    let own = match &r.default_sink {
                        Some(name) => is_ours(name.as_str()),
                        None => false,
                    };
                    if own {
                        let names = real_sink_names(&sinks);
                        match restore_target(&names, &r.backend.enabled) {
                            Some(target) => {
                                r.phase = CleanupPhase::Restore(target);
                            },
                            None => r.unload_tracked(),
                        }
                    } else {
                        r.unload_tracked();
                    }
                },
                Reply::Failed(why) => {
                    r.note(CleanupError::Pactl(why));
                    r.unload_tracked();
                },
                Reply::Output(_) => {},
            },
            CleanupPhase::Restore(sink) => {
                if let Reply::Failed(why) = reply {
                    r.note(CleanupError::Default(sink, why));
                }
                r.unload_tracked();
            },
            CleanupPhase::Combine(id, stage) => match judge_unload(stage, id, &reply) {
                Some(gone) => {
                    if gone {
                        r.backend.combine_module = None;
                    }
                    r.unload_null();
                },
                None => {
                    r.phase = CleanupPhase::Combine(id, UnloadStage::Verifying);
                },
            },
            CleanupPhase::Null(id, stage) => match judge_unload(stage, id, &reply) {
                Some(gone) => {
                    if gone {
                        r.backend.null_module = None;
                    }
                    r.phase = CleanupPhase::Modules;
                },
                None => {
                    r.phase = CleanupPhase::Null(id, UnloadStage::Verifying);
                },
            },
            CleanupPhase::Modules => match reply {
                Reply::Output(listing) => {
                    r.leftovers = ids_in(listing.as_str());
                    r.sweep_leftover_modules(0);
                },
                Reply::Failed(why) => r.note(CleanupError::Pactl(why)),
                Reply::Sinks(_) => {},
            },
            CleanupPhase::Sweep(at) => r.sweep_leftover_modules(at + 1),
            CleanupPhase::Ended => {},
        }
        assert(r.deep_view().leftovers.len() == r.leftovers.len());
        r
    }
}

} // verus!
