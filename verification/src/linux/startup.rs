//! Starting up: what earlier runs left behind, and what is enabled at first.

use vstd::prelude::*;
use crate::linux::backend::{
    lemma_selection_is_proper, real_sink_names, select, selection, BackendView,
    LinuxBackend,
};
use crate::linux::modules::{
    is_ours, our_rows, ours, parse_our_modules, parse_slaves, slaves_of, OurModule, OurModuleView,
    COMBINED_SINK,
};
use crate::linux::pactl::{answers, Command, Reply, ReplyView};
use crate::linux::sinks::{find_owned, owner_alive, real_names, Sink, SinkView};
use crate::text::{has_name, owned, same, trim, trimmed};

verus! {

// ---------------------------------------------------------------------------
// Leftover modules
// ---------------------------------------------------------------------------

/// The module carries the default sink: the default has the name of its sink,
/// and the module owns a sink.
pub open spec fn carries_default(
    module: OurModuleView,
    default_sink: Seq<char>,
    sinks: Seq<SinkView>,
) -> bool {
    module.sink_name == default_sink && owner_alive(sinks, module.id)
}

/// Position of the first module that carries the default sink.
pub open spec fn adopted(
    modules: Seq<OurModuleView>,
    default_sink: Seq<char>,
    sinks: Seq<SinkView>,
) -> Option<int>
    decreases modules.len(),
{
    if modules.len() == 0 {
        None
    } else {
        match adopted(modules.drop_last(), default_sink, sinks) {
            Some(i) => Some(i),
            None => if carries_default(modules.last(), default_sink, sinks) {
                Some(modules.len() - 1)
            } else {
                None
            },
        }
    }
}

/// The ids of the modules that are not the adopted one.
pub open spec fn orphans(modules: Seq<OurModuleView>, adopted: Option<int>) -> Seq<u32>
    decreases modules.len(),
{
    if modules.len() == 0 {
        Seq::empty()
    } else if adopted == Some(modules.len() - 1) {
        orphans(modules.drop_last(), adopted)
    } else {
        orphans(modules.drop_last(), adopted).push(modules.last().id)
    }
}

/// The backend that takes over `module`. A combined sink brings the sinks that
/// it plays on, as far as they exist; the null sink brings none.
pub open spec fn taking_over(
    backend: BackendView,
    module: OurModuleView,
    sinks: Seq<SinkView>,
) -> BackendView {
    if module.sink_name == COMBINED_SINK@ {
        BackendView {
            enabled: selection(slaves_of(module.args), real_names(sinks)),
            combine_module: Some(module.id),
            ..backend
        }
    } else {
        BackendView { enabled: Seq::empty(), null_module: Some(module.id), ..backend }
    }
}

/// The backend after the leftover modules are dealt with.
pub open spec fn reconciled(
    backend: BackendView,
    modules: Seq<OurModuleView>,
    default_sink: Seq<char>,
    sinks: Seq<SinkView>,
) -> BackendView {
    match adopted(modules, default_sink, sinks) {
        Some(i) => taking_over(backend, modules[i], sinks),
        None => backend,
    }
}

proof fn lemma_adopted(modules: Seq<OurModuleView>, default_sink: Seq<char>, sinks: Seq<SinkView>)
    ensures
        match adopted(modules, default_sink, sinks) {
            Some(i) => 0 <= i < modules.len() && carries_default(modules[i], default_sink, sinks)
                && forall|j: int|
                0 <= j < i ==> !carries_default(#[trigger] modules[j], default_sink, sinks),
            None => forall|j: int|
                0 <= j < modules.len() ==> !carries_default(
                    #[trigger] modules[j],
                    default_sink,
                    sinks,
                ),
        },
    decreases modules.len(),
{
    if modules.len() > 0 {
        let before = modules.drop_last();
        lemma_adopted(before, default_sink, sinks);
        assert(forall|j: int| 0 <= j < before.len() ==> #[trigger] modules[j] == before[j]);
    }
}

proof fn lemma_orphans_contain(modules: Seq<OurModuleView>, kept: Option<int>, j: int)
    requires
        0 <= j < modules.len(),
        kept != Some(j),
    ensures
        orphans(modules, kept).contains(modules[j].id),
    decreases modules.len(),
{
    let before = orphans(modules.drop_last(), kept);
    if j == modules.len() - 1 {
        assert(orphans(modules, kept).last() == modules[j].id);
    } else {
        lemma_orphans_contain(modules.drop_last(), kept, j);
        let k = choose|k: int| 0 <= k < before.len() && before[k] == modules[j].id;
        assert(orphans(modules, kept)[k] == modules[j].id);
    }
}

proof fn lemma_orphans_spare(modules: Seq<OurModuleView>, kept: int)
    requires
        0 <= kept,
        forall|j: int|
            0 <= j < modules.len() && j != kept && kept < modules.len() ==> (
            #[trigger] modules[j]).id != modules[kept].id,
    ensures
        kept < modules.len() ==> !orphans(modules, Some(kept)).contains(modules[kept].id),
        forall|id: u32| #[trigger]
            orphans(modules, Some(kept)).contains(id) ==> exists|j: int|
                0 <= j < modules.len() && j != kept && (#[trigger] modules[j]).id == id,
    decreases modules.len(),
{
    if modules.len() > 0 {
        let before = modules.drop_last();
        lemma_orphans_spare(before, kept);
        let rest = orphans(before, Some(kept));
        let all = orphans(modules, Some(kept));
        assert forall|id: u32| #[trigger] all.contains(id) implies exists|j: int|
            0 <= j < modules.len() && j != kept && (#[trigger] modules[j]).id == id by {
            let k = choose|k: int| 0 <= k < all.len() && all[k] == id;
            if k < rest.len() && all[k] == rest[k] {
                assert(rest.contains(id));
                let j = choose|j: int|
                    0 <= j < before.len() && j != kept && (#[trigger] before[j]).id == id;
                assert(modules[j].id == id);
            } else {
                assert(modules[modules.len() - 1].id == id);
            }
        }
    }
}

/// Of the leftover modules, the one that carries the default sink is taken
/// over and never unloaded; every other one is unloaded. So none stays on the
/// server untracked, and no live routing collapses at startup.
pub proof fn lemma_startup_adopts_or_unloads(
    backend: BackendView,
    modules: Seq<OurModuleView>,
    default_sink: Seq<char>,
    sinks: Seq<SinkView>,
)
    requires
        forall|i: int, j: int|
            0 <= i < j < modules.len() ==> (#[trigger] modules[i]).id != (
            #[trigger] modules[j]).id,
    ensures
        ({
            let kept = adopted(modules, default_sink, sinks);
            let after = reconciled(backend, modules, default_sink, sinks);
            &&& kept matches Some(i) ==> {
                &&& carries_default(modules[i], default_sink, sinks)
                &&& after.combine_module == Some(modules[i].id) || after.null_module == Some(
                    modules[i].id,
                )
                &&& !orphans(modules, kept).contains(modules[i].id)
            }
            &&& kept is None ==> forall|j: int|
                0 <= j < modules.len() ==> !carries_default(
                    #[trigger] modules[j],
                    default_sink,
                    sinks,
                )
            &&& forall|j: int|
                0 <= j < modules.len() && kept != Some(j) ==> orphans(modules, kept).contains(
                    (#[trigger] modules[j]).id,
                )
        }),
{
    let kept = adopted(modules, default_sink, sinks);
    lemma_adopted(modules, default_sink, sinks);
    if let Some(i) = kept {
        lemma_orphans_spare(modules, i);
    }
    assert forall|j: int| 0 <= j < modules.len() && kept != Some(j) implies orphans(
        modules,
        kept,
    ).contains((#[trigger] modules[j]).id) by {
        lemma_orphans_contain(modules, kept, j);
    }
}

impl LinuxBackend {
    fn take_over(&mut self, module: &OurModule, sinks: &Vec<Sink>)
        ensures
            final(self).deep_view() == taking_over(
                old(self).deep_view(),
                module.deep_view(),
                sinks.deep_view(),
            ),
    {
        if same(module.sink_name.as_str(), COMBINED_SINK) {
            let slaves = owned(parse_slaves(module.args.as_str()).as_slice());
            let existing = real_sink_names(sinks);
            self.enabled = select(&slaves, &existing);
            self.combine_module = Some(module.id);
        } else {
            self.enabled = Vec::new();
            assert(self.enabled.deep_view() =~= Seq::empty());
            self.null_module = Some(module.id);
        }
    }

    /// Deals with the modules that earlier runs left behind, and gives the ids
    /// of those to unload.
    ///
    /// A crashed run can leave a sink of ours behind that still carries the
    /// default and the sound, and the sinks of a running instance look the
    /// same. Unloading blindly would audibly collapse that routing, so a
    /// module whose sink is the present default is taken over; for the
    /// combined sink the enabled set is recovered from its `slaves=` argument.
    /// Everything else of ours is to be unloaded.
    pub fn reconcile_startup_modules(
        &mut self,
        modules: &Vec<OurModule>,
        default_sink: &str,
        sinks: &Vec<Sink>,
    ) -> (r: Vec<u32>)
        ensures
            final(self).deep_view() == reconciled(
                old(self).deep_view(),
                modules.deep_view(),
                default_sink@,
                sinks.deep_view(),
            ),
            r@ == orphans(
                modules.deep_view(),
                adopted(modules.deep_view(), default_sink@, sinks.deep_view()),
            ),
            old(self).deep_view().wf() ==> final(self).deep_view().wf(),
    {
        let kept = find_adopted(modules, default_sink, sinks);
        proof {
            lemma_adopted(modules.deep_view(), default_sink@, sinks.deep_view());
        }
        let unload = orphan_ids(modules, kept);
        if let Some(i) = kept {
            let module = &modules[i];
            assert(modules.deep_view()[i as int] == module.deep_view());
            self.take_over(module, sinks);
            proof {
                lemma_selection_is_proper(
                    slaves_of(module.deep_view().args),
                    sinks.deep_view(),
                );
            }
        }
        unload
    }
}

/// A position as a mathematical integer.
pub open spec fn as_position(at: Option<usize>) -> Option<int> {
    match at {
        Some(i) => Some(i as int),
        None => None,
    }
}

fn find_adopted(modules: &Vec<OurModule>, default_sink: &str, sinks: &Vec<Sink>) -> (r: Option<
    usize,
>)
    ensures
        as_position(r) == adopted(modules.deep_view(), default_sink@, sinks.deep_view()),
        r matches Some(i) ==> i < modules.len(),
{
    let ghost model = modules.deep_view();
    proof {
        lemma_adopted(model, default_sink@, sinks.deep_view());
    }
    let mut i: usize = 0;
    while i < modules.len()
        invariant
            i <= modules.len(),
            model == modules.deep_view(),
            forall|j: int|
                0 <= j < i ==> !carries_default(
                    #[trigger] model[j],
                    default_sink@,
                    sinks.deep_view(),
                ),
        decreases modules.len() - i,
    {
        assert(model[i as int] == modules[i as int].deep_view());
        if same(modules[i].sink_name.as_str(), default_sink) && find_owned(
            sinks,
            modules[i].id,
        ).is_some() {
            proof {
                lemma_adopted(model, default_sink@, sinks.deep_view());
            }
            return Some(i);
        }
        i += 1;
    }
    None
}

fn orphan_ids(modules: &Vec<OurModule>, kept: Option<usize>) -> (r: Vec<u32>)
    ensures
        r@ == orphans(modules.deep_view(), as_position(kept)),
{
    let ghost model = modules.deep_view();
    let mut unload: Vec<u32> = Vec::new();
    let mut i: usize = 0;
    while i < modules.len()
        invariant
            i <= modules.len(),
            model == modules.deep_view(),
            unload@ == orphans(model.take(i as int), as_position(kept)),
        decreases modules.len() - i,
    {
        assert(model.take(i + 1).drop_last() =~= model.take(i as int));
        assert(model.take(i + 1).last() == modules[i as int].deep_view());
        let keep = match kept {
            Some(k) => k == i,
            None => false,
        };
        if !keep {
            unload.push(modules[i].id);
        }
        i += 1;
    }
    assert(model.take(i as int) =~= model);
    unload
}

// ---------------------------------------------------------------------------
// The sequence of startup
// ---------------------------------------------------------------------------

/// Why the backend did not come up.
#[derive(Debug)]
pub enum StartupError<T> {
    /// The sound server cannot be reached.
    Unreachable(T),
    /// A later `pactl` failed.
    Pactl(T),
}

impl DeepView for StartupError<String> {
    type V = StartupError<Seq<char>>;

    open spec fn deep_view(&self) -> StartupError<Seq<char>> {
        match *self {
            StartupError::Unreachable(why) => StartupError::Unreachable(why@),
            StartupError::Pactl(why) => StartupError::Pactl(why@),
        }
    }
}

/// What happens next at startup.
#[derive(Debug)]
pub enum StartupPhase<T> {
    /// The server is asked whether it is there.
    Reach,
    /// The modules are listed.
    Modules,
    /// There are leftover modules: the default sink is asked for.
    LeftoverDefault,
    /// The sinks are listed; the text is the default sink.
    LeftoverSinks(T),
    /// The orphaned module at the position given is unloaded.
    Orphan(usize),
    /// The default sink is asked for, to be enabled at first.
    Default,
    /// The default sink, the text, is no sink of ours: the sinks are listed.
    Sinks(T),
    /// The backend is up.
    Ready,
    /// The backend did not come up.
    Failed(StartupError<T>),
}

impl DeepView for StartupPhase<String> {
    type V = StartupPhase<Seq<char>>;

    open spec fn deep_view(&self) -> StartupPhase<Seq<char>> {
        match *self {
            StartupPhase::Reach => StartupPhase::Reach,
            StartupPhase::Modules => StartupPhase::Modules,
            StartupPhase::LeftoverDefault => StartupPhase::LeftoverDefault,
            StartupPhase::LeftoverSinks(name) => StartupPhase::LeftoverSinks(name@),
            StartupPhase::Orphan(at) => StartupPhase::Orphan(at),
            StartupPhase::Default => StartupPhase::Default,
            StartupPhase::Sinks(name) => StartupPhase::Sinks(name@),
            StartupPhase::Ready => StartupPhase::Ready,
            StartupPhase::Failed(why) => StartupPhase::Failed(why.deep_view()),
        }
    }
}

/// A backend that is coming up.
#[derive(Debug)]
pub struct Startup {
    pub backend: LinuxBackend,
    /// The modules of ours that were found.
    pub modules: Vec<OurModule>,
    /// The ids of those that are to be unloaded.
    pub orphans: Vec<u32>,
    pub phase: StartupPhase<String>,
}

/// What a [`Startup`] says, in terms of text.
pub struct StartupView {
    pub backend: BackendView,
    pub modules: Seq<OurModuleView>,
    pub orphans: Seq<u32>,
    pub phase: StartupPhase<Seq<char>>,
}

impl DeepView for Startup {
    type V = StartupView;

    open spec fn deep_view(&self) -> StartupView {
        StartupView {
            backend: self.backend.deep_view(),
            modules: self.modules.deep_view(),
            orphans: self.orphans@,
            phase: self.phase.deep_view(),
        }
    }
}

/// A default sink that is enabled at first if it exists: it has a name, and is
/// not one of ours.
pub open spec fn can_seed(name: Seq<char>) -> bool {
    name.len() > 0 && !ours(name)
}

/// The backend with `name` enabled too.
pub open spec fn seeded(backend: BackendView, name: Seq<char>) -> BackendView {
    if backend.enabled.contains(name) {
        backend
    } else {
        BackendView { enabled: backend.enabled.push(name), ..backend }
    }
}

/// Some sink has this name.
pub open spec fn exists_named(sinks: Seq<SinkView>, name: Seq<char>) -> bool {
    exists|i: int| 0 <= i < sinks.len() && (#[trigger] sinks[i]).name == name
}

impl StartupView {
    /// What each phase relies on.
    pub open spec fn wf(self) -> bool {
        &&& self.backend.wf()
        &&& self.orphans.len() <= usize::MAX
        &&& self.phase matches StartupPhase::Orphan(at) ==> at < self.orphans.len()
        &&& self.phase matches StartupPhase::Sinks(name) ==> can_seed(name)
    }

    /// Startup has ended.
    pub open spec fn ended(self) -> bool {
        self.phase is Ready || self.phase is Failed
    }

    /// The next command.
    pub open spec fn command(self) -> Command<Seq<char>>
        recommends
            !self.ended(),
    {
        match self.phase {
            StartupPhase::Reach => Command::Info,
            StartupPhase::Modules => Command::ListModules,
            StartupPhase::LeftoverDefault => Command::GetDefault,
            StartupPhase::LeftoverSinks(_) => Command::ListSinks,
            StartupPhase::Orphan(at) => Command::Unload(self.orphans[at as int]),
            StartupPhase::Default => Command::GetDefault,
            StartupPhase::Sinks(_) => Command::ListSinks,
            StartupPhase::Ready => arbitrary(),
            StartupPhase::Failed(_) => arbitrary(),
        }
    }

    /// The same startup in another phase.
    pub open spec fn at(self, phase: StartupPhase<Seq<char>>) -> StartupView {
        StartupView { phase, ..self }
    }

    /// The orphans from `at` on are unloaded, then the default is asked for.
    pub open spec fn orphan(self, at: int) -> StartupView {
        if at < self.orphans.len() {
            self.at(StartupPhase::Orphan(at as usize))
        } else {
            self.at(StartupPhase::Default)
        }
    }

    /// What a reply to the command leads to. Leftover modules are dealt with
    /// before the default is read, so that an orphan is never enabled.
    pub open spec fn next(self, reply: ReplyView) -> StartupView
        recommends
            !self.ended(),
            answers(self.command(), reply),
    {
        match reply {
            ReplyView::Failed(why) => match self.phase {
                StartupPhase::Reach => self.at(
                    StartupPhase::Failed(StartupError::Unreachable(why)),
                ),
                StartupPhase::Orphan(at) => self.orphan(at + 1),
                _ => self.at(StartupPhase::Failed(StartupError::Pactl(why))),
            },
            ReplyView::Output(text) => match self.phase {
                StartupPhase::Reach => self.at(StartupPhase::Modules),
                StartupPhase::Modules => StartupView {
                    modules: our_rows(text),
                    ..self.at(
                        if our_rows(text).len() == 0 {
                            StartupPhase::Default
                        } else {
                            StartupPhase::LeftoverDefault
                        },
                    )
                },
                StartupPhase::LeftoverDefault => self.at(
                    StartupPhase::LeftoverSinks(trimmed(text)),
                ),
                StartupPhase::Orphan(at) => self.orphan(at + 1),
                StartupPhase::Default => self.at(
                    if can_seed(trimmed(text)) {
                        StartupPhase::Sinks(trimmed(text))
                    } else {
                        StartupPhase::Ready
                    },
                ),
                _ => arbitrary(),
            },
            ReplyView::Sinks(sinks) => match self.phase {
                StartupPhase::LeftoverSinks(name) => StartupView {
                    backend: reconciled(self.backend, self.modules, name, sinks),
                    orphans: orphans(self.modules, adopted(self.modules, name, sinks)),
                    ..self
                }.orphan(0),
                StartupPhase::Sinks(name) => StartupView {
                    backend: if exists_named(sinks, name) {
                        seeded(self.backend, name)
                    } else {
                        self.backend
                    },
                    ..self.at(StartupPhase::Ready)
                },
                _ => arbitrary(),
            },
        }
    }
}

/// Whether some sink has this name.
pub fn has_sink(sinks: &Vec<Sink>, name: &str) -> (r: bool)
    ensures
        r == exists_named(sinks.deep_view(), name@),
{
    let ghost model = sinks.deep_view();
    let mut i: usize = 0;
    while i < sinks.len()
        invariant
            i <= sinks.len(),
            model == sinks.deep_view(),
            forall|j: int| 0 <= j < i ==> (#[trigger] model[j]).name != name@,
        decreases sinks.len() - i,
    {
        assert(model[i as int] == sinks[i as int].deep_view());
        if same(sinks[i].name.as_str(), name) {
            return true;
        }
        i += 1;
    }
    false
}

impl Startup {
    /// A backend that begins to come up.
    pub fn new() -> (r: Startup)
        ensures
            r.deep_view().wf(),
            r.deep_view() == (StartupView {
                backend: BackendView {
                    enabled: Seq::empty(),
                    combine_module: None,
                    null_module: None,
                },
                modules: Seq::empty(),
                orphans: Seq::empty(),
                phase: StartupPhase::Reach,
            }),
    {
        let r = Startup {
            backend: LinuxBackend::new(),
            modules: Vec::new(),
            orphans: Vec::new(),
            phase: StartupPhase::Reach,
        };
        assert(r.modules.deep_view() =~= Seq::empty());
        r
    }

    /// The next command; none when startup has ended.
    pub fn command(&self) -> (r: Option<Command<String>>)
        requires
            self.deep_view().wf(),
        ensures
            self.deep_view().ended() <==> r is None,
            r is Some ==> r->0.deep_view() == self.deep_view().command(),
    {
        match &self.phase {
            StartupPhase::Reach => Some(Command::Info),
            StartupPhase::Modules => Some(Command::ListModules),
            StartupPhase::LeftoverDefault => Some(Command::GetDefault),
            StartupPhase::LeftoverSinks(_) => Some(Command::ListSinks),
            StartupPhase::Orphan(at) => Some(Command::Unload(self.orphans[*at])),
            StartupPhase::Default => Some(Command::GetDefault),
            StartupPhase::Sinks(_) => Some(Command::ListSinks),
            StartupPhase::Ready => None,
            StartupPhase::Failed(_) => None,
        }
    }

    fn go_to_orphan(&mut self, at: usize)
        ensures
            final(self).deep_view() == old(self).deep_view().orphan(at as int),
    {
        if at < self.orphans.len() {
            self.phase = StartupPhase::Orphan(at);
        } else {
            self.phase = StartupPhase::Default;
        }
    }

    /// Takes the reply to the command and goes on.
    pub fn step(self, reply: Reply) -> (r: Startup)
        requires
            self.deep_view().wf(),
            !self.deep_view().ended(),
            answers(self.deep_view().command(), reply.deep_view()),
        ensures
            r.deep_view() == self.deep_view().next(reply.deep_view()),
            r.deep_view().wf(),
    {
        let Startup { backend, modules, orphans, phase } = self;
        let mut r = Startup { backend, modules, orphans, phase: StartupPhase::Ready };
        match reply {
            Reply::Failed(why) => match phase {
                StartupPhase::Reach => {
                    r.phase = StartupPhase::Failed(StartupError::Unreachable(why));
                },
                StartupPhase::Orphan(at) => r.go_to_orphan(at + 1),
                _ => {
                    r.phase = StartupPhase::Failed(StartupError::Pactl(why));
                },
            },
            Reply::Output(text) => match phase {
                StartupPhase::Reach => {
                    r.phase = StartupPhase::Modules;
                },
                StartupPhase::Modules => {
                    r.modules = parse_our_modules(text.as_str());
                    r.phase = if r.modules.len() == 0 {
                        StartupPhase::Default
                    } else {
                        StartupPhase::LeftoverDefault
                    };
                },
                StartupPhase::LeftoverDefault => {
                    r.phase = StartupPhase::LeftoverSinks(trim(text.as_str()).to_owned());
                },
                StartupPhase::Orphan(at) => r.go_to_orphan(at + 1),
                StartupPhase::Default => {
                    let name = trim(text.as_str()).to_owned();
                    if !name.as_str().is_empty() && !is_ours(name.as_str()) {
                        r.phase = StartupPhase::Sinks(name);
                    }
                },
                _ => {},
            },
            Reply::Sinks(sinks) => match phase {
                StartupPhase::LeftoverSinks(name) => {
                    r.orphans = r.backend.reconcile_startup_modules(
                        &r.modules,
                        name.as_str(),
                        &sinks,
                    );
                    r.go_to_orphan(0);
                },
                StartupPhase::Sinks(name) => {
                    if has_sink(&sinks, name.as_str()) && !has_name(
                        &r.backend.enabled,
                        name.as_str(),
                    ) {
                        let ghost before = r.backend.enabled.deep_view();
                        r.backend.enabled.push(name);
                        assert(r.backend.enabled.deep_view() =~= before.push(name@));
                        assert forall|i: int, j: int|
                            0 <= i < j < before.push(name@).len() implies before.push(name@)[i]
                            != before.push(name@)[j] by {
                            if j == before.len() {
                                assert(before.contains(before[i]));
                            }
                        }
                    }
                },
                _ => {},
            },
        }
        assert(r.deep_view().orphans.len() == r.orphans.len());
        r
    }
}

} // verus!
