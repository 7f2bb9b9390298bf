//! What `pactl list short modules` and `pactl load-module` print.

use vstd::prelude::*;
use crate::text::{
    chars_of, cut, cut_at, line_seq, lines, number, number_error, parse_u32, pieces, read_u32,
    same, split, split_whitespace, starts_with, trim, trimmed, words, NumberError,
};

verus! {

/// Prefix of every sink that this app creates.
pub const OUR_PREFIX: &'static str = "sound_multiplexer";

/// Name of the sink that plays on two or more devices.
pub const COMBINED_SINK: &'static str = "sound_multiplexer_combined";

/// Name of the sink that plays nowhere.
pub const NULL_SINK: &'static str = "sound_multiplexer_null";

// ---------------------------------------------------------------------------
// Model
// ---------------------------------------------------------------------------

/// `sink_name` is one of this app's sinks, by its prefix.
pub open spec fn ours(sink_name: Seq<char>) -> bool {
    OUR_PREFIX@.is_prefix_of(sink_name)
}

/// The value of the first token `key=value` among `tokens`.
pub open spec fn first_arg(tokens: Seq<Seq<char>>, key: Seq<char>) -> Option<Seq<char>>
    decreases tokens.len(),
{
    if tokens.len() == 0 {
        None
    } else if key.push('=').is_prefix_of(tokens.first()) {
        Some(tokens.first().skip(key.len() as int + 1))
    } else {
        first_arg(tokens.drop_first(), key)
    }
}

/// The value of `key=value` in a module argument string.
pub open spec fn arg(args: Seq<char>, key: Seq<char>) -> Option<Seq<char>> {
    first_arg(words(args), key)
}

/// A list item without surrounding white space; blank items are none.
pub open spec fn list_item(item: Seq<char>) -> Option<Seq<char>> {
    if trimmed(item).len() == 0 {
        None
    } else {
        Some(trimmed(item))
    }
}

/// The sink names in the `slaves=` argument.
pub open spec fn slaves_of(args: Seq<char>) -> Seq<Seq<char>> {
    match arg(args, "slaves"@) {
        Some(list) => pieces(list, ',').filter_map(|item: Seq<char>| list_item(item)),
        None => Seq::empty(),
    }
}

/// What an [`OurModule`] says, in terms of text.
pub struct OurModuleView {
    pub id: u32,
    pub sink_name: Seq<char>,
    pub args: Seq<char>,
}

/// The module id in front of a line of the short listing.
pub open spec fn row_id(line: Seq<char>) -> Option<u32> {
    number(trimmed(cut_at(line, '\t').0))
}

/// The module name and the arguments of a line of the short listing: its
/// second tab-separated field, and all that follows.
pub open spec fn row_name_and_args(line: Seq<char>) -> Option<(Seq<char>, Seq<char>)> {
    match cut_at(line, '\t').1 {
        Some(rest) => {
            let (name, args) = cut_at(rest, '\t');
            Some(
                (
                    trimmed(name),
                    trimmed(
                        match args {
                            Some(a) => a,
                            None => Seq::empty(),
                        },
                    ),
                ),
            )
        },
        None => None,
    }
}

/// The module of ours that a line of the short listing describes: a numeric
/// id, a `module-` name and exactly one of our sink names.
pub open spec fn our_row(line: Seq<char>) -> Option<OurModuleView> {
    match (row_id(line), row_name_and_args(line)) {
        (Some(id), Some((name, args))) => match arg(args, "sink_name"@) {
            Some(sink_name) => if "module-"@.is_prefix_of(name) && (sink_name == COMBINED_SINK@
                || sink_name == NULL_SINK@) {
                Some(OurModuleView { id, sink_name, args })
            } else {
                None
            },
            None => None,
        },
        _ => None,
    }
}

/// Our modules in the short listing, in its order.
pub open spec fn our_rows(listing: Seq<char>) -> Seq<OurModuleView> {
    line_seq(listing).filter_map(|line: Seq<char>| our_row(line))
}

/// Every module id in the short listing, in its order.
pub open spec fn row_ids(listing: Seq<char>) -> Seq<u32> {
    line_seq(listing).filter_map(|line: Seq<char>| row_id(line))
}

// ---------------------------------------------------------------------------
// Parsers
// ---------------------------------------------------------------------------

/// Whether `sink_name` is one of this app's sinks, by its prefix.
pub fn is_ours(sink_name: &str) -> (r: bool)
    ensures
        r == ours(sink_name@),
{
    starts_with(sink_name, OUR_PREFIX)
}

/// Output of `pactl load-module` that holds no module id.
#[derive(Debug)]
pub struct UnexpectedOutput {
    pub output: String,
    /// Why it is no number.
    pub cause: NumberError,
}

/// The module id that `pactl load-module` printed.
pub fn parse_module_id(load_module_stdout: &str) -> (r: Result<u32, UnexpectedOutput>)
    ensures
        match r {
            Ok(id) => number(trimmed(load_module_stdout@)) == Some(id),
            Err(e) => {
                &&& number(trimmed(load_module_stdout@)) is None
                &&& e.output@ == load_module_stdout@
                &&& e.cause == number_error(trimmed(load_module_stdout@))
            },
        },
{
    match read_u32(trim(load_module_stdout)) {
        Ok(id) => Ok(id),
        Err(cause) => Err(UnexpectedOutput { output: load_module_stdout.to_owned(), cause }),
    }
}

/// Value of a `key=value` token in a module argument string; the first one
/// wins. The values that we read from our own modules hold no white space.
pub fn arg_value<'a>(args: &'a str, key: &str) -> (r: Option<&'a str>)
    ensures
        r.deep_view() == arg(args@, key@),
{
    let tokens = split_whitespace(args);
    let mut prefix = key.to_owned();
    prefix.push('=');
    let key_len = chars_of(prefix.as_str()).len();
    let ghost model = words(args@);
    let mut i: usize = 0;
    assert(model.skip(0) =~= model);
    while i < tokens.len()
        invariant
            i <= tokens.len(),
            tokens.deep_view() == model,
            prefix@ == key@.push('='),
            key_len == key@.len() + 1,
            first_arg(model, key@) == first_arg(model.skip(i as int), key@),
            model == words(args@),
        decreases tokens.len() - i,
    {
        let token = tokens[i];
        assert(token@ == model.skip(i as int).first());
        assert(model.skip(i as int).drop_first() =~= model.skip(i + 1));
        if starts_with(token, prefix.as_str()) {
            let len = chars_of(token).len();
            let value = token.substring_char(key_len, len);
            assert(value@ =~= token@.skip(key_len as int));
            return Some(value);
        }
        i += 1;
    }
    None
}

/// Slave sink names from the arguments of a combine module.
pub fn parse_slaves(args: &str) -> (r: Vec<&str>)
    ensures
        r.deep_view() == slaves_of(args@),
{
    let mut out: Vec<&str> = Vec::new();
    match arg_value(args, "slaves") {
        Some(list) => {
            let items = split(list, ',');
            let ghost model = pieces(list@, ',');
            let ghost f = |item: Seq<char>| list_item(item);
            let mut i: usize = 0;
            assert(model.take(0) =~= Seq::empty());
            assert(out.deep_view() =~= model.take(0).filter_map(f));
            while i < items.len()
                invariant
                    i <= items.len(),
                    items.deep_view() == model,
                    f == (|item: Seq<char>| list_item(item)),
                    out.deep_view() == model.take(i as int).filter_map(f),
                decreases items.len() - i,
            {
                let item = trim(items[i]);
                let ghost before = out.deep_view();
                proof {
                    assert(model[i as int] == items[i as int]@);
                    model.lemma_filter_map_take_succ(f, i as int);
                }
                if !item.is_empty() {
                    out.push(item);
                    assert(out.deep_view() =~= before + seq![item@]);
                } else {
                    assert(out.deep_view() =~= before + Seq::<Seq<char>>::empty());
                }
                i += 1;
            }
            assert(model.take(i as int) =~= model);
        },
        None => {
            assert(out.deep_view() =~= Seq::<Seq<char>>::empty());
        },
    }
    out
}

/// One of our modules in `pactl list short modules`.
#[derive(Debug, PartialEq, Eq)]
pub struct OurModule {
    pub id: u32,
    /// Exact `sink_name=` argument: the combined or the null sink.
    pub sink_name: String,
    /// Full argument string (holds `slaves=` for the combined sink).
    pub args: String,
}

impl DeepView for OurModule {
    type V = OurModuleView;

    open spec fn deep_view(&self) -> OurModuleView {
        OurModuleView { id: self.id, sink_name: self.sink_name@, args: self.args@ }
    }
}

/// The module of ours that a line of the short listing describes.
fn parse_our_row(line: &str) -> (r: Option<OurModule>)
    ensures
        r.deep_view() == our_row(line@),
{
    let (first, rest) = cut(line, '\t');
    let id = match parse_u32(trim(first)) {
        Some(id) => id,
        None => {
            return None;
        },
    };
    let rest = match rest {
        Some(rest) => rest,
        None => {
            return None;
        },
    };
    let (second, third) = cut(rest, '\t');
    let name = trim(second);
    let args = trim(
        match third {
            Some(args) => args,
            None => line.substring_char(0, 0),
        },
    );
    proof {
        assert(line@.subrange(0, 0) =~= Seq::<char>::empty());
    }
    if !starts_with(name, "module-") {
        return None;
    }
    match arg_value(args, "sink_name") {
        Some(sink_name) => if same(sink_name, COMBINED_SINK) || same(sink_name, NULL_SINK) {
            Some(OurModule { id, sink_name: sink_name.to_owned(), args: args.to_owned() })
        } else {
            None
        },
        None => None,
    }
}

/// Our modules in `pactl list short modules`, matched by their exact
/// `sink_name=` argument so that no foreign module is ever taken for ours.
///
/// Native PipeWire modules print arguments over several lines in this listing;
/// only lines whose first tab-separated field is a number are module rows.
pub fn parse_our_modules(short_modules: &str) -> (r: Vec<OurModule>)
    ensures
        r.deep_view() == our_rows(short_modules@),
{
    let rows = lines(short_modules);
    let ghost model = line_seq(short_modules@);
    let ghost f = |line: Seq<char>| our_row(line);
    let mut out: Vec<OurModule> = Vec::new();
    let mut i: usize = 0;
    assert(model.take(0) =~= Seq::empty());
    assert(out.deep_view() =~= model.take(0).filter_map(f));
    while i < rows.len()
        invariant
            i <= rows.len(),
            rows.deep_view() == model,
            f == (|line: Seq<char>| our_row(line)),
            out.deep_view() == model.take(i as int).filter_map(f),
        decreases rows.len() - i,
    {
        let ghost before = out.deep_view();
        proof {
            assert(model[i as int] == rows[i as int]@);
            model.lemma_filter_map_take_succ(f, i as int);
        }
        match parse_our_row(rows[i]) {
            Some(module) => {
                out.push(module);
                assert(out.deep_view() =~= before + seq![module.deep_view()]);
            },
            None => {
                assert(out.deep_view() =~= before + Seq::<OurModuleView>::empty());
            },
        }
        i += 1;
    }
    assert(model.take(i as int) =~= model);
    out
}

/// Every module id in `pactl list short modules`; continuation lines of native
/// modules never parse as one.
pub fn listed_module_ids(short_modules: &str) -> (r: Vec<u32>)
    ensures
        r@ == row_ids(short_modules@),
{
    let rows = lines(short_modules);
    let ghost model = line_seq(short_modules@);
    let ghost f = |line: Seq<char>| row_id(line);
    let mut out: Vec<u32> = Vec::new();
    let mut i: usize = 0;
    assert(model.take(0) =~= Seq::empty());
    assert(out@ =~= model.take(0).filter_map(f));
    while i < rows.len()
        invariant
            i <= rows.len(),
            rows.deep_view() == model,
            f == (|line: Seq<char>| row_id(line)),
            out@ == model.take(i as int).filter_map(f),
        decreases rows.len() - i,
    {
        let ghost before = out@;
        proof {
            assert(model[i as int] == rows[i as int]@);
            model.lemma_filter_map_take_succ(f, i as int);
        }
        let (first, _) = cut(rows[i], '\t');
        match parse_u32(trim(first)) {
            Some(id) => {
                out.push(id);
                assert(out@ =~= before + seq![id]);
            },
            None => {
                assert(out@ =~= before + Seq::<u32>::empty());
            },
        }
        i += 1;
    }
    assert(model.take(i as int) =~= model);
    out
}

/// Whether `id` is among the module ids of `pactl list short modules`.
pub fn is_listed(short_modules: &str, id: u32) -> (r: bool)
    ensures
        r == row_ids(short_modules@).contains(id),
{
    let ids = listed_module_ids(short_modules);
    let mut i: usize = 0;
    while i < ids.len()
        invariant
            i <= ids.len(),
            ids@ == row_ids(short_modules@),
            forall|j: int| 0 <= j < i ==> ids[j] != id,
        decreases ids.len() - i,
    {
        if ids[i] == id {
            assert(ids@[i as int] == id);
            return true;
        }
        i += 1;
    }
    false
}

/// No foreign module is taken for one of ours: each that is found has exactly
/// one of our sink names as its `sink_name=` argument, the prefix is not enough.
pub proof fn lemma_only_exact_names_are_ours(listing: Seq<char>, i: int)
    requires
        0 <= i < our_rows(listing).len(),
    ensures
        ({
            let module = our_rows(listing)[i];
            &&& module.sink_name == COMBINED_SINK@ || module.sink_name == NULL_SINK@
            &&& arg(module.args, "sink_name"@) == Some(module.sink_name)
        }),
{
    let f = |line: Seq<char>| our_row(line);
    let module = our_rows(listing)[i];
    assert(our_rows(listing).contains(module));
    line_seq(listing).lemma_filter_map_contains(f, module);
}

} // verus!
