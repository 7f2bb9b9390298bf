//! What the backend tracks between operations, and which sinks a request
//! selects.

use vstd::prelude::*;
use crate::linux::modules::{is_ours, ours};
use crate::linux::sinks::{real_names, Sink, SinkView};
use crate::text::has_name;

verus! {

/// The tracked state of the PulseAudio or PipeWire backend.
#[derive(Debug)]
pub struct LinuxBackend {
    /// Names of the sinks that the user enabled, as last applied.
    pub enabled: Vec<String>,
    /// Module id of our combined sink, if loaded.
    pub combine_module: Option<u32>,
    /// Module id of our null sink, if loaded.
    pub null_module: Option<u32>,
}

/// What a [`LinuxBackend`] tracks, in terms of text.
pub struct BackendView {
    pub enabled: Seq<Seq<char>>,
    pub combine_module: Option<u32>,
    pub null_module: Option<u32>,
}

impl DeepView for LinuxBackend {
    type V = BackendView;

    open spec fn deep_view(&self) -> BackendView {
        BackendView {
            enabled: self.enabled.deep_view(),
            combine_module: self.combine_module,
            null_module: self.null_module,
        }
    }
}

/// Names of real sinks, each once.
pub open spec fn proper(names: Seq<Seq<char>>) -> bool {
    &&& names.no_duplicates()
    &&& forall|i: int| 0 <= i < names.len() ==> !ours(#[trigger] names[i])
}

impl BackendView {
    /// No sink is enabled twice, and none of our own is.
    pub open spec fn wf(self) -> bool {
        proper(self.enabled)
    }
}

impl LinuxBackend {
    /// A backend that tracks nothing yet.
    pub fn new() -> (r: LinuxBackend)
        ensures
            r.deep_view().wf(),
            r.deep_view() == (BackendView {
                enabled: Seq::empty(),
                combine_module: None,
                null_module: None,
            }),
    {
        let r = LinuxBackend { enabled: Vec::new(), combine_module: None, null_module: None };
        assert(r.deep_view().enabled =~= Seq::empty());
        r
    }
}

/// The names in `ids` that are in `existing`, in the order of `ids` and each
/// once.
pub open spec fn selection(ids: Seq<Seq<char>>, existing: Seq<Seq<char>>) -> Seq<Seq<char>>
    decreases ids.len(),
{
    if ids.len() == 0 {
        Seq::empty()
    } else {
        let before = selection(ids.drop_last(), existing);
        if existing.contains(ids.last()) && !before.contains(ids.last()) {
            before.push(ids.last())
        } else {
            before
        }
    }
}

/// The names of the real sinks.
pub fn real_sink_names(sinks: &Vec<Sink>) -> (names: Vec<String>)
    ensures
        names.deep_view() == real_names(sinks.deep_view()),
{
    let mut names: Vec<String> = Vec::new();
    let ghost model = sinks.deep_view();
    let ghost keep = |s: SinkView| !ours(s.name);
    let ghost name = |s: SinkView| s.name;
    let mut i: usize = 0;
    assert(model.take(0).filter(keep) =~= Seq::empty()) by {
        reveal(Seq::filter);
    }
    assert(model.take(0).filter(keep).map_values(name) =~= Seq::empty());
    while i < sinks.len()
        invariant
            i <= sinks.len(),
            model == sinks.deep_view(),
            keep == (|s: SinkView| !ours(s.name)),
            name == (|s: SinkView| s.name),
            names.deep_view() == model.take(i as int).filter(keep).map_values(name),
        decreases sinks.len() - i,
    {
        let s = &sinks[i];
        let ghost before = names.deep_view();
        let ghost kept = model.take(i as int).filter(keep);
        proof {
            reveal(Seq::filter);
            assert(model.take(i + 1).drop_last() =~= model.take(i as int));
            assert(model.take(i + 1).last() == s.deep_view());
        }
        if !is_ours(s.name.as_str()) {
            names.push(s.name.clone());
            assert(names.deep_view() =~= before.push(s.name@));
            assert(kept.push(s.deep_view()).map_values(name) =~= kept.map_values(name).push(
                s.name@,
            ));
        }
        i += 1;
    }
    assert(model.take(i as int) =~= model);
    names
}

/// The names in `ids` that are in `existing`, in the order of `ids`; unknown
/// names and repeats are dropped.
pub fn select(ids: &Vec<String>, existing: &Vec<String>) -> (selected: Vec<String>)
    ensures
        selected.deep_view() == selection(ids.deep_view(), existing.deep_view()),
{
    let mut selected: Vec<String> = Vec::new();
    let mut i: usize = 0;
    assert(selected.deep_view() =~= selection(ids.deep_view().take(0), existing.deep_view()));
    while i < ids.len()
        invariant
            i <= ids.len(),
            selected.deep_view() == selection(
                ids.deep_view().take(i as int),
                existing.deep_view(),
            ),
        decreases ids.len() - i,
    {
        let id = &ids[i];
        let ghost before = selected.deep_view();
        assert(ids.deep_view().take(i + 1).drop_last() =~= ids.deep_view().take(i as int));
        assert(ids.deep_view().take(i + 1).last() == id@);
        if has_name(existing, id.as_str()) && !has_name(&selected, id.as_str()) {
            selected.push(id.clone());
            assert(selected.deep_view() =~= before.push(id@));
        }
        i += 1;
    }
    assert(ids.deep_view().take(i as int) =~= ids.deep_view());
    selected
}

/// A selection holds exactly the requested names that exist, each once.
pub proof fn lemma_selection_is_what_exists_each_once(ids: Seq<Seq<char>>, existing: Seq<Seq<char>>)
    ensures
        selection(ids, existing).no_duplicates(),
        selection(ids, existing).len() <= ids.len(),
        forall|name: Seq<char>| #[trigger]
            selection(ids, existing).contains(name) <==> ids.contains(name) && existing.contains(
                name,
            ),
    decreases ids.len(),
{
    if ids.len() > 0 {
        lemma_selection_is_what_exists_each_once(ids.drop_last(), existing);
        let before = selection(ids.drop_last(), existing);
        let all = selection(ids, existing);
        assert forall|name: Seq<char>| #[trigger]
            all.contains(name) <==> ids.contains(name) && existing.contains(name) by {
            assert(ids =~= ids.drop_last().push(ids.last()));
            assert(before.push(ids.last()).last() == ids.last());
            if ids.contains(name) && name != ids.last() {
                let i = choose|i: int| 0 <= i < ids.len() && ids[i] == name;
                assert(ids.drop_last()[i] == name);
            }
            if ids.drop_last().contains(name) {
                let i = choose|i: int|
                    0 <= i < ids.drop_last().len() && ids.drop_last()[i] == name;
                assert(ids[i] == name);
            }
            if before.contains(name) {
                let i = choose|i: int| 0 <= i < before.len() && before[i] == name;
                assert(before.push(ids.last())[i] == name);
            }
            if all.contains(name) && !before.contains(name) {
                let i = choose|i: int| 0 <= i < all.len() && all[i] == name;
                assert(i == before.len());
            }
        }
    }
}

/// A real sink does not carry our prefix.
pub proof fn lemma_real_names_are_not_ours(sinks: Seq<SinkView>, name: Seq<char>)
    requires
        real_names(sinks).contains(name),
    ensures
        !ours(name),
{
    let keep = |s: SinkView| !ours(s.name);
    let i = choose|i: int| 0 <= i < real_names(sinks).len() && real_names(sinks)[i] == name;
    sinks.lemma_filter_pred(keep, i);
}

/// A selection from the real sinks holds none of our own.
pub proof fn lemma_selection_is_proper(ids: Seq<Seq<char>>, sinks: Seq<SinkView>)
    ensures
        proper(selection(ids, real_names(sinks))),
{
    let selected = selection(ids, real_names(sinks));
    lemma_selection_is_what_exists_each_once(ids, real_names(sinks));
    assert forall|i: int| 0 <= i < selected.len() implies !ours(#[trigger] selected[i]) by {
        assert(selected.contains(selected[i]));
        lemma_real_names_are_not_ours(sinks, selected[i]);
    }
}

} // verus!
