//! What the listings of modules and the command lines of `pactl` say.

use vstd::prelude::*;
use crate::linux::modules::{
    arg, first_arg, list_item, our_row, our_rows, ours, row_id, row_ids, slaves_of,
    OurModuleView,
};
use crate::linux::pactl::{
    arguments, loaded, unload_command, unload_verdict, Command, LoadFailure, ReplyView,
    UnloadStage,
};
use crate::seq_laws::{
    lemma_filter_map_finds, lemma_filter_map_keeps_the_order, lemma_filter_map_of_two,
};
use crate::text::{cut_at, decimal, line_seq, number, number_error, pieces, trimmed, words};
use crate::text_laws::{
    is_blank, is_word, lacks, lemma_a_cut_is_at_the_first_separator, lemma_a_field_is_cut_off,
    lemma_a_number_is_a_word, lemma_a_word_is_trimmed, lemma_decimal_reads_back,
    lemma_lines_come_one_by_one, lemma_white_space_around_is_trimmed,
};
use crate::volume::Volume;

verus! {

// ---------------------------------------------------------------------------
// Listings
// ---------------------------------------------------------------------------

/// A sink is one of this app's exactly if its name begins with
/// "sound_multiplexer", whatever follows.
pub proof fn lemma_whose_sinks_are_ours(name: Seq<char>)
    ensures
        ours(name) <==> exists|rest: Seq<char>| name == #[trigger] ("sound_multiplexer"@ + rest),
{
    if ours(name) {
        let rest = name.skip("sound_multiplexer"@.len() as int);
        assert(name =~= "sound_multiplexer"@ + rest);
    }
    if exists|rest: Seq<char>| name == #[trigger] ("sound_multiplexer"@ + rest) {
        let rest = choose|rest: Seq<char>| name == #[trigger] ("sound_multiplexer"@ + rest);
        assert("sound_multiplexer"@.is_prefix_of(name));
    }
}

proof fn lemma_first_arg(tokens: Seq<Seq<char>>, key: Seq<char>)
    ensures
        match first_arg(tokens, key) {
            Some(value) => exists|i: int|
                0 <= i < tokens.len() && #[trigger] tokens[i] == key.push('=') + value && forall|
                    j: int,
                | 0 <= j < i ==> !key.push('=').is_prefix_of(#[trigger] tokens[j]),
            None => forall|i: int|
                0 <= i < tokens.len() ==> !key.push('=').is_prefix_of(#[trigger] tokens[i]),
        },
    decreases tokens.len(),
{
    let mark = key.push('=');
    if tokens.len() > 0 {
        if mark.is_prefix_of(tokens.first()) {
            assert(tokens[0] =~= mark + tokens[0].skip(key.len() as int + 1));
        } else {
            let rest = tokens.drop_first();
            lemma_first_arg(rest, key);
            match first_arg(rest, key) {
                Some(value) => {
                    let i = choose|i: int|
                        0 <= i < rest.len() && #[trigger] rest[i] == mark + value && forall|
                            j: int,
                        | 0 <= j < i ==> !mark.is_prefix_of(#[trigger] rest[j]);
                    assert(tokens[i + 1] == mark + value);
                    assert forall|j: int| 0 <= j < i + 1 implies !mark.is_prefix_of(
                        #[trigger] tokens[j],
                    ) by {
                        if j > 0 {
                            assert(rest[j - 1] == tokens[j]);
                        }
                    }
                },
                None => {
                    assert forall|j: int| 0 <= j < tokens.len() implies !mark.is_prefix_of(
                        #[trigger] tokens[j],
                    ) by {
                        if j > 0 {
                            assert(rest[j - 1] == tokens[j]);
                        }
                    }
                },
            }
        }
    }
}

/// The value of an argument is what follows the key and an equals sign in the
/// first word that begins with them; there is none exactly if no word does.
pub proof fn lemma_the_first_argument_counts(args: Seq<char>, key: Seq<char>)
    ensures
        match arg(args, key) {
            Some(value) => exists|i: int|
                0 <= i < words(args).len() && #[trigger] words(args)[i] == key.push('=') + value
                    && forall|j: int|
                    0 <= j < i ==> !key.push('=').is_prefix_of(#[trigger] words(args)[j]),
            None => forall|i: int|
                0 <= i < words(args).len() ==> !key.push('=').is_prefix_of(
                    #[trigger] words(args)[i],
                ),
        },
{
    lemma_first_arg(words(args), key);
}

/// The slaves are the items between the commas of the first `slaves=` argument,
/// without the white space around them; blank ones do not count.
pub proof fn lemma_slaves_are_the_items_of_the_list(args: Seq<char>, name: Seq<char>)
    ensures
        arg(args, "slaves"@) is None ==> slaves_of(args).len() == 0,
        arg(args, "slaves"@) matches Some(list) ==> (slaves_of(args).contains(name) <==> name.len()
            > 0 && exists|i: int|
            0 <= i < pieces(list, ',').len() && trimmed(#[trigger] pieces(list, ',')[i]) == name),
{
    if let Some(list) = arg(args, "slaves"@) {
        let f = |item: Seq<char>| list_item(item);
        let items = pieces(list, ',');
        lemma_filter_map_finds(items, f, name);
        if slaves_of(args).contains(name) {
            let i = choose|i: int| 0 <= i < items.len() && f(#[trigger] items[i]) == Some(name);
            assert(trimmed(items[i]) == name);
        }
        if name.len() > 0 && exists|i: int|
            0 <= i < items.len() && trimmed(#[trigger] items[i]) == name {
            let i = choose|i: int| 0 <= i < items.len() && trimmed(#[trigger] items[i]) == name;
            assert(f(items[i]) == Some(name));
        }
    }
}

/// The id of a line is the number in front of its first tab, or the number that
/// the whole line is; another line has none.
pub proof fn lemma_the_id_stands_first(field: Seq<char>, rest: Seq<char>)
    requires
        lacks(field, '\t'),
    ensures
        row_id(field.push('\t') + rest) == number(trimmed(field)),
        row_id(field) == number(trimmed(field)),
{
    lemma_a_field_is_cut_off(field, '\t', rest);
    lemma_a_cut_is_at_the_first_separator(field, '\t');
    let (head, tail) = cut_at(field, '\t');
    if let Some(t) = tail {
        assert((head.push('\t') + t)[head.len() as int] == '\t');
        assert(field[head.len() as int] == '\t');
    }
}

/// An id that is written in front of a tab is read back.
pub proof fn lemma_a_listed_id_is_read_back(id: u32, rest: Seq<char>)
    ensures
        row_id(decimal(id as nat).push('\t') + rest) == Some(id),
{
    lemma_a_number_is_a_word(id);
    lemma_a_word_is_trimmed(decimal(id as nat));
    lemma_decimal_reads_back(id);
    lemma_the_id_stands_first(decimal(id as nat), rest);
}

/// A line of three fields describes a module of ours exactly if the first is a
/// number, the second begins with "module-", and the `sink_name=` argument in
/// the third is one of our two names; the module then has that id, that name and
/// those arguments.
pub proof fn lemma_which_lines_are_ours(first: Seq<char>, second: Seq<char>, third: Seq<char>)
    requires
        lacks(first, '\t'),
        lacks(second, '\t'),
    ensures
        ({
            let line = first.push('\t') + (second.push('\t') + third);
            let id = number(trimmed(first));
            let sink_name = arg(trimmed(third), "sink_name"@);
            let is_one = id is Some && "module-"@.is_prefix_of(trimmed(second)) && (sink_name
                == Some("sound_multiplexer_combined"@) || sink_name == Some(
                "sound_multiplexer_null"@,
            ));
            &&& our_row(line) is Some <==> is_one
            &&& is_one ==> our_row(line) == Some(
                OurModuleView { id: id->0, sink_name: sink_name->0, args: trimmed(third) },
            )
        }),
{
    lemma_a_field_is_cut_off(first, '\t', second.push('\t') + third);
    lemma_a_field_is_cut_off(second, '\t', third);
}

/// The modules of ours in a listing are those of its lines, line for line: the
/// first line, and then the rest. So are all the ids in it.
pub proof fn lemma_listings_are_read_line_by_line(line: Seq<char>, rest: Seq<char>)
    requires
        lacks(line, '\n'),
        line.len() == 0 || line.last() != '\r',
    ensures
        our_rows(line.push('\n') + rest) == (match our_row(line) {
            Some(module) => seq![module],
            None => Seq::empty(),
        }) + our_rows(rest),
        row_ids(line.push('\n') + rest) == (match row_id(line) {
            Some(id) => seq![id],
            None => Seq::empty(),
        }) + row_ids(rest),
        our_rows(Seq::<char>::empty()) == Seq::<OurModuleView>::empty(),
        row_ids(Seq::<char>::empty()) == Seq::<u32>::empty(),
        line.len() > 0 ==> our_rows(line) == (match our_row(line) {
            Some(module) => seq![module],
            None => Seq::empty(),
        }),
        line.len() > 0 ==> row_ids(line) == (match row_id(line) {
            Some(id) => seq![id],
            None => Seq::empty(),
        }),
{
    let module = |l: Seq<char>| our_row(l);
    let id = |l: Seq<char>| row_id(l);
    lemma_lines_come_one_by_one(line, rest);
    lemma_lines_come_one_by_one(Seq::empty(), rest);
    lemma_filter_map_of_two(seq![line], line_seq(rest), module);
    lemma_filter_map_of_two(seq![line], line_seq(rest), id);
    Seq::lemma_filter_map_singleton(line, module);
    Seq::lemma_filter_map_singleton(line, id);
    assert(Seq::<Seq<char>>::empty().filter_map(module) =~= Seq::empty()) by {
        reveal(Seq::filter_map);
    }
    assert(Seq::<Seq<char>>::empty().filter_map(id) =~= Seq::empty()) by {
        reveal(Seq::filter_map);
    }
}

/// An id is listed exactly if some line of the listing has it, and a module of
/// ours is found exactly if some line describes it.
pub proof fn lemma_every_line_counts(listing: Seq<char>, id: u32, module: OurModuleView)
    ensures
        row_ids(listing).contains(id) <==> exists|i: int|
            0 <= i < line_seq(listing).len() && row_id(#[trigger] line_seq(listing)[i]) == Some(
                id,
            ),
        our_rows(listing).contains(module) <==> exists|i: int|
            0 <= i < line_seq(listing).len() && our_row(#[trigger] line_seq(listing)[i]) == Some(
                module,
            ),
{
    let g = |l: Seq<char>| row_id(l);
    let f = |l: Seq<char>| our_row(l);
    let lines = line_seq(listing);
    lemma_filter_map_finds(lines, g, id);
    lemma_filter_map_finds(lines, f, module);
    if row_ids(listing).contains(id) {
        let i = choose|i: int| 0 <= i < lines.len() && g(#[trigger] lines[i]) == Some(id);
        assert(row_id(lines[i]) == Some(id));
    }
    if exists|i: int| 0 <= i < lines.len() && row_id(#[trigger] lines[i]) == Some(id) {
        let i = choose|i: int| 0 <= i < lines.len() && row_id(#[trigger] lines[i]) == Some(id);
        assert(g(lines[i]) == Some(id));
    }
    if our_rows(listing).contains(module) {
        let i = choose|i: int| 0 <= i < lines.len() && f(#[trigger] lines[i]) == Some(module);
        assert(our_row(lines[i]) == Some(module));
    }
    if exists|i: int| 0 <= i < lines.len() && our_row(#[trigger] lines[i]) == Some(module) {
        let i = choose|i: int|
            0 <= i < lines.len() && our_row(#[trigger] lines[i]) == Some(module);
        assert(f(lines[i]) == Some(module));
    }
}

// ---------------------------------------------------------------------------
// Loading and unloading
// ---------------------------------------------------------------------------

/// A load succeeds exactly if an id is printed, white space around it or not,
/// and with that id. Another output is kept whole, with the reason why it is no
/// id, and so is what `pactl` said of a failure.
pub proof fn lemma_a_load_prints_the_id(
    id: u32,
    front: Seq<char>,
    back: Seq<char>,
    output: Seq<char>,
    why: Seq<char>,
)
    requires
        is_blank(front),
        is_blank(back),
    ensures
        loaded(ReplyView::Output(front + decimal(id as nat) + back)) == Ok::<
            u32,
            LoadFailure<Seq<char>>,
        >(id),
        number(trimmed(output)) is None ==> loaded(ReplyView::Output(output)) == Err::<
            u32,
            LoadFailure<Seq<char>>,
        >(LoadFailure::UnexpectedOutput(output, number_error(trimmed(output)))),
        number(trimmed(output)) matches Some(n) ==> loaded(ReplyView::Output(output)) == Ok::<
            u32,
            LoadFailure<Seq<char>>,
        >(n),
        loaded(ReplyView::Failed(why)) == Err::<u32, LoadFailure<Seq<char>>>(
            LoadFailure::Pactl(why),
        ),
{
    let text = decimal(id as nat);
    lemma_a_number_is_a_word(id);
    assert(is_word(text));
    assert(text.first() == text[0] && text.last() == text[text.len() - 1]);
    lemma_white_space_around_is_trimmed(front, text, back);
    lemma_decimal_reads_back(id);
}

/// A module is gone once its unload worked. After an unload that failed the
/// listing is asked for, and the module is gone exactly if no line of that has
/// its id; without a listing it counts as there.
pub proof fn lemma_a_module_is_gone_only_if_that_is_known(
    id: u32,
    reply: ReplyView,
    listing: Seq<char>,
    why: Seq<char>,
)
    ensures
        unload_command(UnloadStage::Unloading, id) == Command::<Seq<char>>::Unload(id),
        unload_command(UnloadStage::Verifying, id) == Command::<Seq<char>>::ListModules,
        !(reply is Failed) ==> unload_verdict(UnloadStage::Unloading, id, reply) == Some(true),
        reply is Failed ==> unload_verdict(UnloadStage::Unloading, id, reply) is None,
        unload_verdict(UnloadStage::Verifying, id, ReplyView::Output(listing)) == Some(
            forall|i: int|
                0 <= i < line_seq(listing).len() ==> row_id(#[trigger] line_seq(listing)[i])
                    != Some(id),
        ),
        unload_verdict(UnloadStage::Verifying, id, ReplyView::Failed(why)) == Some(false),
{
    let lines = line_seq(listing);
    let g = |l: Seq<char>| row_id(l);
    lemma_filter_map_finds(lines, g, id);
    if row_ids(listing).contains(id) {
        let i = choose|i: int| 0 <= i < lines.len() && g(#[trigger] lines[i]) == Some(id);
        assert(row_id(lines[i]) == Some(id));
    } else {
        assert forall|i: int| 0 <= i < lines.len() implies row_id(#[trigger] lines[i]) != Some(
            id,
        ) by {
            assert(g(lines[i]) != Some(id));
        }
    }
}

// ---------------------------------------------------------------------------
// Command lines
// ---------------------------------------------------------------------------

/// The arguments that each question has.
pub proof fn lemma_how_questions_are_put(percent: u32)
    ensures
        arguments(Command::Info, percent) == seq!["info"@],
        arguments(Command::ListSinks, percent) == seq!["-f"@, "json"@, "list"@, "sinks"@],
        arguments(Command::ListModules, percent) == seq!["list"@, "short"@, "modules"@],
        arguments(Command::GetDefault, percent) == seq!["get-default-sink"@],
{
}

/// The arguments that a command on a sink has: what to do, the name of the sink
/// as it is, and the level in per cent, or 1 to mute and 0 to lift a mute.
pub proof fn lemma_how_a_sink_is_set(
    sink: Seq<char>,
    volume: Volume,
    percent: u32,
    muted: bool,
)
    ensures
        arguments(Command::SetDefault(sink), percent) == seq!["set-default-sink"@, sink],
        arguments(Command::SetVolume(sink, volume), percent) == seq![
            "set-sink-volume"@,
            sink,
            decimal(percent as nat) + "%"@,
        ],
        arguments(Command::SetMute(sink, true), percent) == seq!["set-sink-mute"@, sink, "1"@],
        arguments(Command::SetMute(sink, false), percent) == seq!["set-sink-mute"@, sink, "0"@],
{
}

/// The arguments with which our modules are loaded, under our names and over the
/// sinks given, and with which a module is unloaded by its id.
pub proof fn lemma_how_modules_are_loaded(slaves: Seq<char>, id: u32, percent: u32)
    ensures
        arguments(Command::LoadNull, percent) == seq![
            "load-module"@,
            "module-null-sink"@,
            "sink_name="@ + "sound_multiplexer_null"@,
            "sink_properties=device.description='Sound-Multiplexer-Silence'"@,
        ],
        arguments(Command::LoadCombine(slaves), percent) == seq![
            "load-module"@,
            "module-combine-sink"@,
            "sink_name="@ + "sound_multiplexer_combined"@,
            "slaves="@ + slaves,
            "sink_properties=device.description='Sound-Multiplexer'"@,
        ],
        arguments(Command::<Seq<char>>::Unload(id), percent) == seq![
            "unload-module"@,
            decimal(id as nat),
        ],
{
}

/// A line of one field or of two describes no module of ours.
pub proof fn lemma_short_lines_are_not_ours(first: Seq<char>, second: Seq<char>)
    requires
        lacks(first, '\t'),
        lacks(second, '\t'),
    ensures
        our_row(first) is None,
        our_row(first.push('\t') + second) is None,
{
    lemma_a_field_is_cut_off(first, '\t', second);
    lemma_no_cut(first);
    lemma_no_cut(second);
    assert(trimmed(Seq::<char>::empty()) =~= Seq::empty());
    assert(words(Seq::<char>::empty()) =~= Seq::empty());
}

proof fn lemma_no_cut(s: Seq<char>)
    requires
        lacks(s, '\t'),
    ensures
        cut_at(s, '\t') == (s, None::<Seq<char>>),
{
    lemma_a_cut_is_at_the_first_separator(s, '\t');
    let (head, tail) = cut_at(s, '\t');
    if let Some(t) = tail {
        assert((head.push('\t') + t)[head.len() as int] == '\t');
        assert(s[head.len() as int] == '\t');
    }
}

/// The slaves stand in the order of the list.
pub proof fn lemma_slaves_keep_the_order(args: Seq<char>, list: Seq<char>, i: int, j: int)
    requires
        arg(args, "slaves"@) == Some(list),
        0 <= i < j < pieces(list, ',').len(),
        trimmed(pieces(list, ',')[i]).len() > 0,
        trimmed(pieces(list, ',')[j]).len() > 0,
    ensures
        exists|p: int, q: int|
            0 <= p < q < slaves_of(args).len() && #[trigger] slaves_of(args)[p] == trimmed(
                pieces(list, ',')[i],
            ) && #[trigger] slaves_of(args)[q] == trimmed(pieces(list, ',')[j]),
{
    let f = |item: Seq<char>| list_item(item);
    let items = pieces(list, ',');
    let slaves = slaves_of(args);
    lemma_filter_map_keeps_the_order(items, f, i, j);
    let (p, q) = choose|p: int, q: int|
        0 <= p < q < slaves.len() && #[trigger] slaves[p] == f(items[i])->0 && #[trigger] slaves[q]
            == f(items[j])->0;
    assert(slaves[p] == trimmed(items[i]) && slaves[q] == trimmed(items[j]));
}

} // verus!
