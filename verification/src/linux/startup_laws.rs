//! What startup recovers of what routing set up.

use vstd::prelude::*;
use crate::linux::backend::{
    lemma_selection_is_what_exists_each_once, selection, BackendView,
};
use crate::linux::modules::{
    arg, first_arg, list_item, our_rows, slaves_of, OurModuleView, COMBINED_SINK,
};
use crate::linux::pactl::{arguments, Command, ReplyView};
use crate::linux::sinks::{owner_alive, real_names, SinkView};
use crate::linux::sinks_laws::lemma_real_names_are_listed;
use crate::linux::startup::{
    adopted, carries_default, exists_named, orphans, taking_over, StartupError, StartupPhase,
    StartupView,
};
use crate::text::{is_space, joined, pieces, trimmed, words};
use crate::text_laws::{
    is_word, lacks, lemma_a_word_is_trimmed, lemma_joined_items_are_found,
    lemma_joined_words_are_found,
};

verus! {

/// A sink name that stands in a list as it is: one word, without commas.
pub open spec fn listable(name: Seq<char>) -> bool {
    is_word(name) && lacks(name, ',')
}

/// The arguments of a module as the server lists them: those of the command
/// that loaded it, behind the name of the module.
pub open spec fn listed_arguments(slaves: Seq<Seq<char>>) -> Seq<char> {
    joined(arguments(Command::LoadCombine(joined(slaves, ","@)), 0).skip(2), " "@)
}

proof fn lemma_list_is_a_word(names: Seq<Seq<char>>)
    requires
        names.len() > 0,
        forall|i: int| 0 <= i < names.len() ==> listable(#[trigger] names[i]),
    ensures
        is_word(joined(names, seq![','])),
    decreases names.len(),
{
    assert(listable(names[names.len() - 1]));
    if names.len() > 1 {
        let front = names.drop_last();
        assert forall|i: int| 0 <= i < front.len() implies listable(#[trigger] front[i]) by {
            assert(front[i] == names[i]);
        }
        lemma_list_is_a_word(front);
        let start = joined(front, seq![',']);
        let last = names.last();
        let all = start + seq![','] + last;
        assert forall|i: int| 0 <= i < all.len() implies !is_space(#[trigger] all[i]) by {
            if i < start.len() {
                assert(all[i] == start[i]);
            } else if i > start.len() {
                assert(all[i] == last[i - start.len() - 1]);
            }
        }
    }
}

proof fn lemma_items_stay(names: Seq<Seq<char>>)
    requires
        forall|i: int| 0 <= i < names.len() ==> listable(#[trigger] names[i]),
    ensures
        names.filter_map(|item: Seq<char>| list_item(item)) == names,
    decreases names.len(),
{
    let f = |item: Seq<char>| list_item(item);
    if names.len() > 0 {
        let front = names.drop_last();
        assert forall|i: int| 0 <= i < front.len() implies listable(#[trigger] front[i]) by {
            assert(front[i] == names[i]);
        }
        lemma_items_stay(front);
        let n = names.len() - 1;
        names.lemma_filter_map_take_succ(f, n as int);
        assert(names.take(n as int) =~= front);
        assert(names.take(n + 1) =~= names);
        assert(listable(names[n as int]));
        lemma_a_word_is_trimmed(names[n as int]);
        assert(front.push(names[n as int]) =~= names);
    } else {
        reveal(Seq::filter_map);
        assert(names.filter_map(f) =~= names);
    }
}

/// A combined sink tells what it plays on: from its arguments as the server
/// lists them, its name and the names of its sinks are read as they were
/// written.
pub proof fn lemma_a_combined_sink_tells_its_slaves(names: Seq<Seq<char>>)
    requires
        names.len() > 0,
        forall|i: int| 0 <= i < names.len() ==> listable(#[trigger] names[i]),
    ensures
        arg(listed_arguments(names), "sink_name"@) == Some(COMBINED_SINK@),
        slaves_of(listed_arguments(names)) == names,
{
    reveal_strlit(",");
    reveal_strlit(" ");
    reveal_strlit("sink_name");
    reveal_strlit("sink_name=");
    reveal_strlit("slaves");
    reveal_strlit("slaves=");
    reveal_strlit("sound_multiplexer_combined");
    reveal_strlit("sink_properties=device.description='Sound-Multiplexer'");
    assert(","@ =~= seq![',']);
    assert(" "@ =~= seq![' ']);
    let list = joined(names, ","@);
    lemma_list_is_a_word(names);
    let name = "sink_name="@ + COMBINED_SINK@;
    let slaves = "slaves="@ + list;
    let properties = "sink_properties=device.description='Sound-Multiplexer'"@;
    let tokens = seq![name, slaves, properties];
    assert(arguments(Command::LoadCombine(list), 0).skip(2) =~= tokens);
    assert(is_word(name));
    assert(is_word(slaves)) by {
        assert forall|i: int| 0 <= i < slaves.len() implies !is_space(#[trigger] slaves[i]) by {
            if i >= 7 {
                assert(slaves[i] == list[i - 7]);
            }
        }
    }
    assert(is_word(properties));
    lemma_joined_words_are_found(tokens);
    assert(words(listed_arguments(names)) == tokens);
    let sink_key = "sink_name"@;
    let slaves_key = "slaves"@;
    assert(sink_key.push('=') =~= "sink_name="@);
    assert(slaves_key.push('=') =~= "slaves="@);
    assert(tokens.first() == name);
    assert(name.skip(sink_key.len() as int + 1) =~= COMBINED_SINK@);
    assert(sink_key.push('=').is_prefix_of(name));
    assert(first_arg(tokens, sink_key) == Some(COMBINED_SINK@));
    let rest = tokens.drop_first();
    assert(rest.first() == slaves);
    assert(name[1] != slaves_key.push('=')[1]);
    assert(!slaves_key.push('=').is_prefix_of(name));
    assert(slaves_key.push('=').is_prefix_of(slaves));
    assert(slaves.skip(slaves_key.len() as int + 1) =~= list);
    assert(first_arg(rest, slaves_key) == Some(list));
    assert(first_arg(tokens, slaves_key) == Some(list));
    assert forall|i: int| 0 <= i < names.len() implies lacks(#[trigger] names[i], ',') by {
        assert(listable(names[i]));
    }
    lemma_joined_items_are_found(names, ',');
    assert(pieces(list, ',') == names);
    lemma_items_stay(names);
}

proof fn lemma_everything_is_selected(names: Seq<Seq<char>>, existing: Seq<Seq<char>>)
    requires
        names.no_duplicates(),
        forall|i: int| 0 <= i < names.len() ==> existing.contains(#[trigger] names[i]),
    ensures
        selection(names, existing) == names,
    decreases names.len(),
{
    if names.len() > 0 {
        let front = names.drop_last();
        assert forall|i: int| 0 <= i < front.len() implies existing.contains(
            #[trigger] front[i],
        ) by {
            assert(front[i] == names[i]);
        }
        lemma_everything_is_selected(front, existing);
        assert(existing.contains(names[names.len() - 1]));
        assert(!front.contains(names.last())) by {
            if front.contains(names.last()) {
                let i = choose|i: int| 0 <= i < front.len() && front[i] == names.last();
                assert(names[i] == names[names.len() - 1]);
            }
        }
        assert(front.push(names.last()) =~= names);
    }
}

/// A run that ends without cleaning up loses nothing: the backend that takes
/// its combined sink over has the sinks enabled over which it was loaded, in
/// their order, if they still exist.
pub proof fn lemma_startup_recovers_the_enabled_set(
    backend: BackendView,
    names: Seq<Seq<char>>,
    id: u32,
    sinks: Seq<SinkView>,
)
    requires
        names.len() > 0,
        names.no_duplicates(),
        forall|i: int| 0 <= i < names.len() ==> listable(#[trigger] names[i]),
        forall|i: int|
            0 <= i < names.len() ==> real_names(sinks).contains(#[trigger] names[i]),
    ensures
        ({
            let module = OurModuleView {
                id,
                sink_name: COMBINED_SINK@,
                args: listed_arguments(names),
            };
            let after = taking_over(backend, module, sinks);
            &&& after.enabled == names
            &&& after.combine_module == Some(id)
        }),
{
    lemma_a_combined_sink_tells_its_slaves(names);
    lemma_everything_is_selected(names, real_names(sinks));
}

// ---------------------------------------------------------------------------
// The sequence of startup
// ---------------------------------------------------------------------------

/// The startup that begins.
pub open spec fn starting() -> StartupView {
    StartupView {
        backend: BackendView {
            enabled: Seq::empty(),
            combine_module: None,
            null_module: None,
        },
        modules: Seq::empty(),
        orphans: Seq::empty(),
        phase: StartupPhase::Reach,
    }
}

/// Where no module was left behind, the default sink is enabled at first, if it
/// is a listed sink with a name and none of this app's; otherwise nothing is.
/// No module is tracked.
pub proof fn lemma_a_fresh_start_enables_the_default(
    info: Seq<char>,
    listing: Seq<char>,
    default_text: Seq<char>,
    sinks: Seq<SinkView>,
)
    requires
        our_rows(listing).len() == 0,
    ensures
        ({
            let reached = starting().next(ReplyView::Output(info));
            let asked = reached.next(ReplyView::Output(listing));
            let told = asked.next(ReplyView::Output(default_text));
            let name = trimmed(default_text);
            let seen = told.next(ReplyView::Sinks(sinks));
            let end = if told.ended() {
                told
            } else {
                seen
            };
            let is_there = exists|i: int|
                0 <= i < sinks.len() && (#[trigger] sinks[i]).name == name;
            &&& starting().command() is Info
            &&& !reached.ended() && reached.command() is ListModules && reached.phase is Modules
            &&& !asked.ended() && asked.command() is GetDefault
            &&& told.phase is Ready <==> name.len() == 0
                || "sound_multiplexer"@.is_prefix_of(name)
            &&& !told.ended() ==> told.command() is ListSinks
            &&& end.phase is Ready
            &&& end.backend.enabled == if !told.ended() && is_there {
                seq![name]
            } else {
                Seq::empty()
            }
            &&& end.backend.combine_module is None
            &&& end.backend.null_module is None
        }),
{
    let name = trimmed(default_text);
    assert(exists_named(sinks, name) <==> exists|i: int|
        0 <= i < sinks.len() && (#[trigger] sinks[i]).name == name);
    assert(Seq::<Seq<char>>::empty().push(name) =~= seq![name]);
}

/// The first module that carries the default sink is taken over: its sink has the
/// name of the default, and it owns a listed sink. A combined sink is tracked as
/// such and brings its slaves that are real sinks; the null sink is tracked as
/// such and brings nothing. All other modules are unloaded, in their order.
pub proof fn lemma_the_carrier_of_the_default_is_taken_over(
    startup: StartupView,
    name: Seq<char>,
    sinks: Seq<SinkView>,
    i: int,
)
    requires
        startup.phase == StartupPhase::LeftoverSinks(name),
        0 <= i < startup.modules.len(),
        startup.modules[i].sink_name == name,
        exists|k: int|
            0 <= k < sinks.len() && (#[trigger] sinks[k]).owner_module == Some(
                startup.modules[i].id as u64,
            ),
        forall|j: int|
            0 <= j < i ==> !((#[trigger] startup.modules[j]).sink_name == name && exists|k: int|
                0 <= k < sinks.len() && (#[trigger] sinks[k]).owner_module == Some(
                    startup.modules[j].id as u64,
                )),
    ensures
        ({
            let module = startup.modules[i];
            let after = startup.next(ReplyView::Sinks(sinks)).backend;
            let unloaded = startup.next(ReplyView::Sinks(sinks)).orphans;
            &&& unloaded.len() == startup.modules.len() - 1
            &&& forall|j: int|
                0 <= j < i ==> unloaded[j] == (#[trigger] startup.modules[j]).id
            &&& forall|j: int|
                i < j < startup.modules.len() ==> unloaded[j - 1] == (
                #[trigger] startup.modules[j]).id
            &&& if name == "sound_multiplexer_combined"@ {
                &&& after.combine_module == Some(module.id)
                &&& after.null_module == startup.backend.null_module
                &&& after.enabled.no_duplicates()
                &&& forall|slave: Seq<char>| #[trigger]
                    after.enabled.contains(slave) <==> slaves_of(module.args).contains(slave)
                        && !"sound_multiplexer"@.is_prefix_of(slave) && exists|k: int|
                        0 <= k < sinks.len() && (#[trigger] sinks[k]).name == slave
            } else {
                &&& after.null_module == Some(module.id)
                &&& after.combine_module == startup.backend.combine_module
                &&& after.enabled.len() == 0
            }
        }),
{
    let modules = startup.modules;
    assert(owner_alive(sinks, modules[i].id));
    assert(carries_default(modules[i], name, sinks));
    assert forall|j: int| 0 <= j < i implies !carries_default(
        #[trigger] modules[j],
        name,
        sinks,
    ) by {
        assert(owner_alive(sinks, modules[j].id) <==> exists|k: int|
            0 <= k < sinks.len() && (#[trigger] sinks[k]).owner_module == Some(
                modules[j].id as u64,
            ));
    }
    lemma_adopted_is(modules, name, sinks, i);
    lemma_orphans_of(modules, Some(i));
    let module = modules[i];
    let after = startup.next(ReplyView::Sinks(sinks)).backend;
    lemma_selection_is_what_exists_each_once(slaves_of(module.args), real_names(sinks));
    if name == "sound_multiplexer_combined"@ {
        assert forall|slave: Seq<char>| #[trigger] after.enabled.contains(slave) <==> slaves_of(
            module.args,
        ).contains(slave) && !"sound_multiplexer"@.is_prefix_of(slave) && exists|k: int|
            0 <= k < sinks.len() && (#[trigger] sinks[k]).name == slave by {
            lemma_real_names_are_listed(sinks, slave);
        }
    }
}

proof fn lemma_adopted_is(
    modules: Seq<OurModuleView>,
    name: Seq<char>,
    sinks: Seq<SinkView>,
    i: int,
)
    requires
        0 <= i < modules.len(),
        carries_default(modules[i], name, sinks),
        forall|j: int| 0 <= j < i ==> !carries_default(#[trigger] modules[j], name, sinks),
    ensures
        adopted(modules, name, sinks) == Some(i),
    decreases modules.len(),
{
    let before = modules.drop_last();
    if i < before.len() {
        assert forall|j: int| 0 <= j < i implies !carries_default(
            #[trigger] before[j],
            name,
            sinks,
        ) by {
            assert(before[j] == modules[j]);
        }
        lemma_adopted_is(before, name, sinks, i);
    } else {
        lemma_adopts_none(before, name, sinks);
    }
}

proof fn lemma_adopts_none(modules: Seq<OurModuleView>, name: Seq<char>, sinks: Seq<SinkView>)
    requires
        forall|j: int|
            0 <= j < modules.len() ==> !carries_default(#[trigger] modules[j], name, sinks),
    ensures
        adopted(modules, name, sinks) is None,
    decreases modules.len(),
{
    if modules.len() > 0 {
        let before = modules.drop_last();
        assert(!carries_default(modules[modules.len() - 1], name, sinks));
        assert forall|j: int| 0 <= j < before.len() implies !carries_default(
            #[trigger] before[j],
            name,
            sinks,
        ) by {
            assert(before[j] == modules[j]);
        }
        lemma_adopts_none(before, name, sinks);
    }
}

/// Where no leftover module carries the default sink, none is taken over and all
/// are unloaded.
pub proof fn lemma_without_a_carrier_nothing_is_taken_over(
    startup: StartupView,
    name: Seq<char>,
    sinks: Seq<SinkView>,
)
    requires
        startup.phase == StartupPhase::LeftoverSinks(name),
        forall|j: int|
            0 <= j < startup.modules.len() ==> !((#[trigger] startup.modules[j]).sink_name == name
                && exists|k: int|
                0 <= k < sinks.len() && (#[trigger] sinks[k]).owner_module == Some(
                    startup.modules[j].id as u64,
                )),
    ensures
        startup.next(ReplyView::Sinks(sinks)).backend == startup.backend,
        startup.next(ReplyView::Sinks(sinks)).orphans.len() == startup.modules.len(),
        forall|j: int|
            0 <= j < startup.modules.len() ==> startup.next(ReplyView::Sinks(sinks)).orphans[j]
                == (#[trigger] startup.modules[j]).id,
{
    let modules = startup.modules;
    assert forall|j: int| 0 <= j < modules.len() implies !carries_default(
        #[trigger] modules[j],
        name,
        sinks,
    ) by {
        assert(owner_alive(sinks, modules[j].id) <==> exists|k: int|
            0 <= k < sinks.len() && (#[trigger] sinks[k]).owner_module == Some(
                modules[j].id as u64,
            ));
    }
    lemma_adopts_none(modules, name, sinks);
    lemma_orphans_of(modules, None);
}

proof fn lemma_orphans_of(modules: Seq<OurModuleView>, kept: Option<int>)
    requires
        kept matches Some(i) ==> 0 <= i,
    ensures
        ({
            let ids = orphans(modules, kept);
            let spared = kept is Some && kept->0 < modules.len();
            &&& ids.len() == modules.len() - (if spared {
                1int
            } else {
                0int
            })
            &&& forall|j: int|
                0 <= j < modules.len() && kept != Some(j) ==> ids[if kept is Some && kept->0 < j {
                    j - 1
                } else {
                    j
                }] == (#[trigger] modules[j]).id
        }),
    decreases modules.len(),
{
    if modules.len() > 0 {
        let before = modules.drop_last();
        lemma_orphans_of(before, kept);
        let rest = orphans(before, kept);
        let ids = orphans(modules, kept);
        assert forall|j: int| 0 <= j < modules.len() && kept != Some(j) implies ids[if kept is Some
            && kept->0 < j {
            j - 1
        } else {
            j
        }] == (#[trigger] modules[j]).id by {
            if j < before.len() {
                assert(before[j] == modules[j]);
            }
        }
    }
}

/// The modules that are unloaded are all leftover modules but the one at the
/// position that is taken over, in their order.
pub proof fn lemma_every_other_module_is_an_orphan(modules: Seq<OurModuleView>, i: int)
    requires
        0 <= i < modules.len(),
    ensures
        orphans(modules, Some(i)).len() == modules.len() - 1,
        forall|j: int|
            0 <= j < i ==> orphans(modules, Some(i))[j] == (#[trigger] modules[j]).id,
        forall|j: int|
            i < j < modules.len() ==> orphans(modules, Some(i))[j - 1] == (
            #[trigger] modules[j]).id,
{
    lemma_orphans_of(modules, Some(i));
}

/// The orphans are unloaded one after the other, whether or not an unload works,
/// and then the default sink is asked for. The tracked state stays as it is.
pub proof fn lemma_orphans_are_unloaded_in_order(
    startup: StartupView,
    at: usize,
    reply: ReplyView,
)
    requires
        startup.wf(),
        startup.phase == StartupPhase::<Seq<char>>::Orphan(at),
        reply is Output || reply is Failed,
    ensures
        startup.command() == Command::<Seq<char>>::Unload(startup.orphans[at as int]),
        startup.next(reply).backend == startup.backend,
        startup.next(reply).orphans == startup.orphans,
        !startup.next(reply).ended(),
        at + 1 < startup.orphans.len() ==> startup.next(reply).phase == StartupPhase::<
            Seq<char>,
        >::Orphan((at + 1) as usize),
        at + 1 == startup.orphans.len() ==> startup.next(reply).phase is Default,
        startup.next(reply).command() == if at + 1 < startup.orphans.len() {
            Command::<Seq<char>>::Unload(startup.orphans[at + 1])
        } else {
            Command::<Seq<char>>::GetDefault
        },
{
}

/// Leftover modules lead to the questions for the default and for the sinks, and
/// then to the first orphan; without an orphan the default is asked for again.
pub proof fn lemma_leftovers_are_looked_into(
    startup: StartupView,
    listing: Seq<char>,
    default_text: Seq<char>,
    sinks: Seq<SinkView>,
)
    requires
        startup.phase is Modules,
        our_rows(listing).len() > 0,
    ensures
        ({
            let found = startup.next(ReplyView::Output(listing));
            let told = found.next(ReplyView::Output(default_text));
            let seen = told.next(ReplyView::Sinks(sinks));
            &&& found.modules == our_rows(listing)
            &&& !found.ended() && found.command() is GetDefault
            &&& !told.ended() && told.command() is ListSinks
            &&& told.phase == StartupPhase::LeftoverSinks(trimmed(default_text))
            &&& !seen.ended()
            &&& seen.orphans.len() > 0 ==> seen.phase == StartupPhase::<Seq<char>>::Orphan(0)
            &&& seen.orphans.len() == 0 ==> seen.phase is Default
            &&& seen.command() == if seen.orphans.len() > 0 {
                Command::<Seq<char>>::Unload(seen.orphans[0])
            } else {
                Command::<Seq<char>>::GetDefault
            }
        }),
{
}

/// A default sink that is listed is enabled too, behind what was recovered, and
/// once; nothing else is changed by it.
pub proof fn lemma_a_listed_default_is_enabled_too(
    startup: StartupView,
    name: Seq<char>,
    sinks: Seq<SinkView>,
)
    requires
        startup.phase == StartupPhase::Sinks(name),
    ensures
        ({
            let end = startup.next(ReplyView::Sinks(sinks));
            let is_there = exists|i: int|
                0 <= i < sinks.len() && (#[trigger] sinks[i]).name == name;
            &&& end.phase is Ready
            &&& end.backend.combine_module == startup.backend.combine_module
            &&& end.backend.null_module == startup.backend.null_module
            &&& end.backend.enabled == if is_there && !startup.backend.enabled.contains(name) {
                startup.backend.enabled.push(name)
            } else {
                startup.backend.enabled
            }
        }),
{
    assert(exists_named(sinks, name) <==> exists|i: int|
        0 <= i < sinks.len() && (#[trigger] sinks[i]).name == name);
}

/// A server that does not answer the first question is unreachable; any later
/// failure is told as `pactl` told it. Only the unload of an orphan may fail.
pub proof fn lemma_what_startup_fails_with(startup: StartupView, why: Seq<char>)
    requires
        startup.wf(),
        !startup.ended(),
    ensures
        startup.phase is Reach ==> startup.next(ReplyView::Failed(why)).phase
            == StartupPhase::Failed(StartupError::Unreachable(why)),
        !(startup.phase is Reach) && !(startup.phase is Orphan) ==> startup.next(
            ReplyView::Failed(why),
        ).phase == StartupPhase::Failed(StartupError::Pactl(why)),
        startup.phase is Orphan ==> !(startup.next(ReplyView::Failed(why)).phase is Failed),
{
}

/// Once the leftover modules are dealt with, the default sink decides whether the
/// sinks are listed to enable it: it must have a name that does not begin as
/// those of this app's sinks do. Otherwise startup is over as it is.
pub proof fn lemma_which_defaults_may_be_enabled(startup: StartupView, default_text: Seq<char>)
    requires
        startup.phase is Default,
    ensures
        ({
            let next = startup.next(ReplyView::Output(default_text));
            let name = trimmed(default_text);
            &&& next.backend == startup.backend
            &&& next.phase == if name.len() > 0 && !"sound_multiplexer"@.is_prefix_of(name) {
                StartupPhase::Sinks(name)
            } else {
                StartupPhase::Ready
            }
        }),
{
}

} // verus!
