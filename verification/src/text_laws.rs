//! What is written and read again: numbers, words and lists.

use vstd::prelude::*;
use crate::text::{
    all_digits, ascii_lower, cut_at, decimal, digit_char, digits_value, flat, is_digit, is_space,
    joined, line_seq, mentions, number, number_error, overflows, pieces, stands_at, trimmed,
    trimmed_end, trimmed_start, unsigned_part, words, NumberError,
};

verus! {

proof fn lemma_decimal_digits(n: nat)
    ensures
        decimal(n).len() > 0,
        forall|i: int| 0 <= i < decimal(n).len() ==> is_digit(#[trigger] decimal(n)[i]),
        digits_value(decimal(n)) == n,
    decreases n,
{
    let d = digit_char(n % 10);
    assert(is_digit(d) && d as nat - '0' as nat == n % 10);
    if n < 10 {
        assert(decimal(n).drop_last() =~= Seq::empty());
        assert(decimal(n).last() == d);
        assert(digits_value(Seq::<char>::empty()) == 0);
    } else {
        lemma_decimal_digits(n / 10);
        let front = decimal(n / 10);
        assert(decimal(n) == front.push(d));
        assert(front.push(d).drop_last() =~= front);
        assert(front.push(d).last() == d);
    }
}

/// A number written in decimal reads back as itself.
pub proof fn lemma_decimal_reads_back(n: u32)
    ensures
        number(decimal(n as nat)) == Some(n),
{
    lemma_decimal_digits(n as nat);
    assert(is_digit(decimal(n as nat)[0]));
}

/// A text that is one word: not empty, and without white space.
pub open spec fn is_word(s: Seq<char>) -> bool {
    s.len() > 0 && forall|i: int| 0 <= i < s.len() ==> !is_space(#[trigger] s[i])
}

/// A word has no white space to trim.
pub proof fn lemma_a_word_is_trimmed(s: Seq<char>)
    requires
        is_word(s),
    ensures
        trimmed(s) == s,
{
    assert(!is_space(s[0]));
    assert(!is_space(s[s.len() - 1]));
}

proof fn lemma_words_take_one_more(s: Seq<char>, w: Seq<char>)
    requires
        s.len() == 0 || is_space(s.last()),
        is_word(w),
    ensures
        words(s + w) == words(s).push(w),
    decreases w.len(),
{
    let all = s + w;
    let front = w.drop_last();
    assert(all.drop_last() =~= s + front);
    assert(all.last() == w[w.len() - 1]);
    assert(!is_space(w[w.len() - 1]));
    if front.len() == 0 {
        assert(s + front =~= s);
        assert(seq![w.last()] =~= w);
    } else {
        assert(forall|i: int| 0 <= i < front.len() ==> front[i] == #[trigger] w[i]);
        assert forall|i: int| 0 <= i < front.len() implies !is_space(#[trigger] front[i]) by {
            assert(front[i] == w[i]);
        }
        lemma_words_take_one_more(s, front);
        assert((s + front).last() == front.last());
        assert(!is_space(front[front.len() - 1]));
        let before = words(s + front);
        assert(before.drop_last() =~= words(s));
        assert(before.last() == front);
        assert(front.push(w.last()) =~= w);
    }
}

/// Words that are joined with spaces are found again.
pub proof fn lemma_joined_words_are_found(tokens: Seq<Seq<char>>)
    requires
        forall|i: int| 0 <= i < tokens.len() ==> is_word(#[trigger] tokens[i]),
    ensures
        words(joined(tokens, seq![' '])) == tokens,
    decreases tokens.len(),
{
    let space = seq![' '];
    if tokens.len() == 1 {
        assert(is_word(tokens[0]));
        lemma_words_take_one_more(Seq::empty(), tokens[0]);
        assert(Seq::<char>::empty() + tokens[0] =~= tokens[0]);
        assert(words(Seq::<char>::empty()) =~= Seq::empty());
        assert(Seq::<Seq<char>>::empty().push(tokens[0]) =~= tokens);
    } else if tokens.len() > 1 {
        let front = tokens.drop_last();
        assert forall|i: int| 0 <= i < front.len() implies is_word(#[trigger] front[i]) by {
            assert(front[i] == tokens[i]);
        }
        lemma_joined_words_are_found(front);
        let start = joined(front, space) + space;
        assert(start.drop_last() =~= joined(front, space));
        assert(start.last() == ' ');
        assert(words(start) == words(joined(front, space)));
        assert(is_word(tokens[tokens.len() - 1]));
        lemma_words_take_one_more(start, tokens.last());
        assert(front.push(tokens.last()) =~= tokens);
    } else {
        assert(words(Seq::<char>::empty()) =~= tokens);
    }
}

/// A text without the character `sep`.
pub open spec fn lacks(s: Seq<char>, sep: char) -> bool {
    forall|i: int| 0 <= i < s.len() ==> #[trigger] s[i] != sep
}

proof fn lemma_pieces_grow(s: Seq<char>, w: Seq<char>, sep: char)
    requires
        lacks(w, sep),
    ensures
        pieces(s, sep).len() > 0,
        pieces(s + w, sep) == pieces(s, sep).drop_last().push(pieces(s, sep).last() + w),
    decreases s.len() + w.len(),
{
    if w.len() == 0 {
        assert(s + w =~= s);
        if s.len() > 0 {
            lemma_pieces_grow(s.drop_last(), Seq::empty(), sep);
        }
        let all = pieces(s, sep);
        assert(all.last() + w =~= all.last());
        assert(all.drop_last().push(all.last()) =~= all);
    } else {
        let front = w.drop_last();
        assert forall|i: int| 0 <= i < front.len() implies #[trigger] front[i] != sep by {
            assert(front[i] == w[i]);
        }
        lemma_pieces_grow(s, front, sep);
        assert((s + w).drop_last() =~= s + front);
        assert((s + w).last() == w[w.len() - 1]);
        let before = pieces(s + front, sep);
        let base = pieces(s, sep);
        assert(before.drop_last() =~= base.drop_last());
        assert((base.last() + front).push(w.last()) =~= base.last() + w);
    }
}

/// Items that are joined with a separator that none of them holds are found
/// again.
pub proof fn lemma_joined_items_are_found(items: Seq<Seq<char>>, sep: char)
    requires
        items.len() > 0,
        forall|i: int| 0 <= i < items.len() ==> lacks(#[trigger] items[i], sep),
    ensures
        pieces(joined(items, seq![sep]), sep) == items,
    decreases items.len(),
{
    let mark = seq![sep];
    assert(lacks(items[items.len() - 1], sep));
    if items.len() == 1 {
        lemma_pieces_grow(Seq::empty(), items[0], sep);
        assert(Seq::<char>::empty() + items[0] =~= items[0]);
        assert(pieces(Seq::empty(), sep) =~= seq![Seq::<char>::empty()]);
        assert(pieces(Seq::empty(), sep).drop_last().push(items[0]) =~= items);
    } else {
        let front = items.drop_last();
        assert forall|i: int| 0 <= i < front.len() implies lacks(#[trigger] front[i], sep) by {
            assert(front[i] == items[i]);
        }
        lemma_joined_items_are_found(front, sep);
        let start = joined(front, mark) + mark;
        assert(start.drop_last() =~= joined(front, mark));
        assert(start.last() == sep);
        let before = pieces(start, sep);
        assert(before == front.push(Seq::<char>::empty()));
        lemma_pieces_grow(start, items.last(), sep);
        assert(before.drop_last() =~= front);
        assert(before.last() + items.last() =~= items.last());
        assert(front.push(items.last()) =~= items);
    }
}

// ---------------------------------------------------------------------------
// Finding and trimming
// ---------------------------------------------------------------------------

/// Among the ASCII characters, white space is the tab, the four line and page
/// breaks after it, and the space.
pub proof fn lemma_ascii_white_space(c: char)
    requires
        (c as u32) < 128,
    ensures
        is_space(c) <==> 9 <= c as u32 <= 13 || c as u32 == 32,
{
}

/// Beyond ASCII, the next line, the no-break space and the spaces of other
/// scripts are white space.
pub proof fn lemma_white_space_beyond_ascii(c: char)
    requires
        (c as u32) >= 128,
    ensures
        is_space(c) <==> c as u32 == 0x85 || c as u32 == 0xa0 || c as u32 == 0x1680 || (0x2000
            <= c as u32 <= 0x200a) || c as u32 == 0x2028 || c as u32 == 0x2029 || c as u32
            == 0x202f || c as u32 == 0x205f || c as u32 == 0x3000,
{
}

/// A text mentions another exactly if that stands somewhere between two parts
/// of it.
pub proof fn lemma_mentioned_text_stands_inside(hay: Seq<char>, needle: Seq<char>)
    ensures
        mentions(hay, needle) <==> exists|a: Seq<char>, b: Seq<char>| hay == #[trigger] (a + needle
            + b),
{
    if mentions(hay, needle) {
        let at = choose|at: int| stands_at(hay, needle, at);
        let a = hay.take(at);
        let b = hay.skip(at + needle.len());
        assert(hay.subrange(at, at + needle.len()) =~= needle);
        assert(hay =~= a + needle + b) by {
            assert forall|i: int| 0 <= i < hay.len() implies hay[i] == (a + needle + b)[i] by {
                if at <= i < at + needle.len() {
                    assert(hay.subrange(at, at + needle.len())[i - at] == needle[i - at]);
                }
            }
        }
    }
    if exists|a: Seq<char>, b: Seq<char>| hay == #[trigger] (a + needle + b) {
        let (a, b) = choose|a: Seq<char>, b: Seq<char>| hay == #[trigger] (a + needle + b);
        assert(hay.subrange(a.len() as int, (a.len() + needle.len()) as int) =~= needle);
        assert(stands_at(hay, needle, a.len() as int));
    }
}

/// A text of white space alone.
pub open spec fn is_blank(s: Seq<char>) -> bool {
    forall|i: int| 0 <= i < s.len() ==> is_space(#[trigger] s[i])
}

proof fn lemma_trimmed_start(s: Seq<char>) -> (front: Seq<char>)
    ensures
        s == front + trimmed_start(s),
        is_blank(front),
        trimmed_start(s).len() > 0 ==> !is_space(trimmed_start(s).first()),
    decreases s.len(),
{
    if s.len() > 0 && is_space(s.first()) {
        let rest = lemma_trimmed_start(s.drop_first());
        let front = seq![s.first()] + rest;
        assert(s =~= front + trimmed_start(s)) by {
            assert(s =~= seq![s.first()] + s.drop_first());
        }
        assert forall|i: int| 0 <= i < front.len() implies is_space(#[trigger] front[i]) by {
            if i > 0 {
                assert(front[i] == rest[i - 1]);
            }
        }
        front
    } else {
        assert(s =~= Seq::<char>::empty() + s);
        Seq::empty()
    }
}

proof fn lemma_trimmed_end(s: Seq<char>) -> (back: Seq<char>)
    ensures
        s == trimmed_end(s) + back,
        is_blank(back),
        trimmed_end(s).len() > 0 ==> !is_space(trimmed_end(s).last()),
    decreases s.len(),
{
    if s.len() > 0 && is_space(s.last()) {
        let rest = lemma_trimmed_end(s.drop_last());
        let back = rest.push(s.last());
        assert(s =~= trimmed_end(s) + back) by {
            assert(s =~= s.drop_last().push(s.last()));
        }
        assert forall|i: int| 0 <= i < back.len() implies is_space(#[trigger] back[i]) by {
            if i < rest.len() {
                assert(back[i] == rest[i]);
            }
        }
        back
    } else {
        assert(s =~= s + Seq::<char>::empty());
        Seq::empty()
    }
}

/// Trimming takes white space off both ends, all of it, and nothing else.
pub proof fn lemma_trimming_takes_the_ends_off(s: Seq<char>)
    ensures
        exists|a: Seq<char>, b: Seq<char>|
            s == #[trigger] (a + trimmed(s) + b) && is_blank(a) && is_blank(b),
        trimmed(s).len() > 0 ==> !is_space(trimmed(s).first()) && !is_space(trimmed(s).last()),
{
    let front = lemma_trimmed_start(s);
    let mid = trimmed_start(s);
    let back = lemma_trimmed_end(mid);
    assert(s =~= front + trimmed(s) + back);
    if trimmed(s).len() > 0 {
        assert(mid.first() == trimmed(s).first());
    }
}

// ---------------------------------------------------------------------------
// Splitting
// ---------------------------------------------------------------------------

/// The pieces of a text put together again give the text, and none of them
/// holds the separator.
pub proof fn lemma_pieces_put_together_again(s: Seq<char>, sep: char)
    ensures
        pieces(s, sep).len() > 0,
        joined(pieces(s, sep), seq![sep]) == s,
        forall|i: int| 0 <= i < pieces(s, sep).len() ==> lacks(#[trigger] pieces(s, sep)[i], sep),
    decreases s.len(),
{
    let all = pieces(s, sep);
    let mark = seq![sep];
    if s.len() == 0 {
        assert(all =~= seq![Seq::<char>::empty()]);
        assert(joined(all, mark) =~= s);
    } else {
        let before = pieces(s.drop_last(), sep);
        lemma_pieces_put_together_again(s.drop_last(), sep);
        assert(s =~= s.drop_last().push(s.last()));
        if s.last() == sep {
            assert(all.drop_last() =~= before);
            assert(joined(all, mark) =~= s);
            assert forall|i: int| 0 <= i < all.len() implies lacks(#[trigger] all[i], sep) by {
                if i < before.len() {
                    assert(all[i] == before[i]);
                }
            }
        } else {
            assert(all.drop_last() =~= before.drop_last());
            assert(all.len() == before.len());
            if all.len() == 1 {
                assert(joined(all, mark) =~= s);
            } else {
                assert(joined(all, mark) =~= joined(before, mark).push(s.last()));
            }
            assert forall|i: int| 0 <= i < all.len() implies lacks(#[trigger] all[i], sep) by {
                assert(lacks(before[before.len() - 1], sep));
                if i < before.len() - 1 {
                    assert(all[i] == before[i]);
                } else {
                    let last = before.last();
                    assert(all[i] == last.push(s.last()));
                    assert forall|j: int| 0 <= j < all[i].len() implies #[trigger] all[i][j]
                        != sep by {
                        if j < last.len() {
                            assert(all[i][j] == last[j]);
                        }
                    }
                }
            }
        }
    }
}

/// The pieces on both sides of a separator are those of either side.
pub proof fn lemma_pieces_of_two_sides(a: Seq<char>, b: Seq<char>, sep: char)
    ensures
        pieces(a.push(sep) + b, sep) == pieces(a, sep) + pieces(b, sep),
    decreases b.len(),
{
    lemma_pieces_put_together_again(a, sep);
    lemma_pieces_put_together_again(b, sep);
    let all = a.push(sep) + b;
    if b.len() == 0 {
        assert(all =~= a.push(sep));
        assert(all.drop_last() =~= a);
        assert(pieces(all, sep) =~= pieces(a, sep) + pieces(b, sep));
    } else {
        let front = b.drop_last();
        lemma_pieces_of_two_sides(a, front, sep);
        lemma_pieces_put_together_again(front, sep);
        assert(all.drop_last() =~= a.push(sep) + front);
        assert(all.last() == b.last());
        let before = pieces(a, sep) + pieces(front, sep);
        assert(before.last() == pieces(front, sep).last());
        if b.last() == sep {
            assert(pieces(all, sep) =~= pieces(a, sep) + pieces(b, sep));
        } else {
            assert(before.drop_last() =~= pieces(a, sep) + pieces(front, sep).drop_last());
            assert(pieces(all, sep) =~= pieces(a, sep) + pieces(b, sep));
        }
    }
}

proof fn lemma_one_piece(s: Seq<char>, sep: char)
    requires
        lacks(s, sep),
    ensures
        pieces(s, sep) == seq![s],
{
    lemma_pieces_grow(Seq::empty(), s, sep);
    assert(Seq::<char>::empty() + s =~= s);
    assert(pieces(Seq::<char>::empty(), sep) =~= seq![Seq::<char>::empty()]);
    assert(pieces(s, sep) =~= seq![s]);
}

/// The lines of a text: up to the first line feed comes the first line, without
/// a carriage return at its end, and behind it come the lines of the rest. What
/// no line feed ends is a line as it is, unless it is empty.
pub proof fn lemma_lines_come_one_by_one(line: Seq<char>, rest: Seq<char>)
    requires
        lacks(line, '\n'),
    ensures
        line_seq(line.push('\n') + rest) == seq![
            if line.len() > 0 && line.last() == '\r' {
                line.drop_last()
            } else {
                line
            },
        ] + line_seq(rest),
        line_seq(line) == if line.len() == 0 {
            Seq::<Seq<char>>::empty()
        } else {
            seq![line]
        },
{
    lemma_one_piece(line, '\n');
    lemma_pieces_of_two_sides(line, rest, '\n');
    lemma_pieces_put_together_again(rest, '\n');
    let tail = pieces(rest, '\n');
    let all = pieces(line.push('\n') + rest, '\n');
    assert(all.last() == tail.last());
    assert(all.drop_last() =~= seq![line] + tail.drop_last());
    assert(line_seq(line.push('\n') + rest) =~= seq![
        if line.len() > 0 && line.last() == '\r' {
            line.drop_last()
        } else {
            line
        },
    ] + line_seq(rest));
    assert(pieces(line, '\n').drop_last() =~= Seq::<Seq<char>>::empty());
    assert(line_seq(line) =~= if line.len() == 0 {
        Seq::<Seq<char>>::empty()
    } else {
        seq![line]
    });
}

/// The words on both sides of a white space are those of either side.
pub proof fn lemma_words_of_two_sides(a: Seq<char>, space: char, b: Seq<char>)
    requires
        is_space(space),
    ensures
        words(a.push(space) + b) == words(a) + words(b),
    decreases b.len(),
{
    let all = a.push(space) + b;
    if b.len() == 0 {
        assert(all =~= a.push(space));
        assert(all.drop_last() =~= a);
        assert(words(all) =~= words(a) + words(b));
    } else {
        let front = b.drop_last();
        lemma_words_of_two_sides(a, space, front);
        assert(all.drop_last() =~= a.push(space) + front);
        assert(all.last() == b.last());
        if front.len() == 0 {
            assert((a.push(space) + front).last() == space);
        } else {
            assert((a.push(space) + front).last() == front.last());
        }
        if !is_space(b.last()) && front.len() > 0 && !is_space(front.last()) {
            lemma_a_last_word_is_open(front);
            let before = words(a) + words(front);
            assert(before.drop_last() =~= words(a) + words(front).drop_last());
            assert(before.last() == words(front).last());
        }
        assert(words(all) =~= words(a) + words(b));
    }
}

proof fn lemma_a_last_word_is_open(s: Seq<char>)
    requires
        s.len() > 0,
        !is_space(s.last()),
    ensures
        words(s).len() > 0,
    decreases s.len(),
{
}

/// A text without white space is one word, unless it is empty.
pub proof fn lemma_one_word(s: Seq<char>)
    ensures
        is_word(s) ==> words(s) == seq![s],
        s.len() == 0 ==> words(s) == Seq::<Seq<char>>::empty(),
{
    if is_word(s) {
        lemma_words_take_one_more(Seq::empty(), s);
        assert(Seq::<char>::empty() + s =~= s);
        assert(words(Seq::<char>::empty()) =~= Seq::empty());
        assert(words(s) =~= seq![s]);
    }
}

/// A cut is made at the first separator, and loses nothing else.
pub proof fn lemma_a_cut_is_at_the_first_separator(s: Seq<char>, sep: char)
    ensures
        lacks(cut_at(s, sep).0, sep),
        match cut_at(s, sep).1 {
            Some(rest) => s == cut_at(s, sep).0.push(sep) + rest,
            None => s == cut_at(s, sep).0,
        },
    decreases s.len(),
{
    if s.len() > 0 && s.first() != sep {
        let rest = s.drop_first();
        lemma_a_cut_is_at_the_first_separator(rest, sep);
        let (head, tail) = cut_at(rest, sep);
        assert(s =~= seq![s.first()] + rest);
        assert forall|i: int| 0 <= i < (seq![s.first()] + head).len() implies #[trigger] (
        seq![s.first()] + head)[i] != sep by {
            if i > 0 {
                assert((seq![s.first()] + head)[i] == head[i - 1]);
            }
        }
        if let Some(t) = tail {
            assert(s =~= (seq![s.first()] + head).push(sep) + t);
        }
    } else if s.len() > 0 {
        assert(s =~= Seq::<char>::empty().push(sep) + s.drop_first());
    }
}

proof fn lemma_cut_of(head: Seq<char>, sep: char, rest: Seq<char>)
    requires
        lacks(head, sep),
    ensures
        cut_at(head.push(sep) + rest, sep) == (head, Some(rest)),
    decreases head.len(),
{
    let s = head.push(sep) + rest;
    if head.len() == 0 {
        assert(s.drop_first() =~= rest);
        assert(head =~= Seq::<char>::empty());
    } else {
        let tail = head.drop_first();
        assert forall|i: int| 0 <= i < tail.len() implies #[trigger] tail[i] != sep by {
            assert(tail[i] == head[i + 1]);
        }
        lemma_cut_of(tail, sep, rest);
        assert(s.first() == head[0]);
        assert(head[0] != sep);
        assert(s.drop_first() =~= tail.push(sep) + rest);
        assert(seq![head[0]] + tail =~= head);
    }
}

/// What is put in front of a separator is cut off there again.
pub proof fn lemma_a_field_is_cut_off(head: Seq<char>, sep: char, rest: Seq<char>)
    requires
        lacks(head, sep),
    ensures
        cut_at(head.push(sep) + rest, sep) == (head, Some(rest)),
{
    lemma_cut_of(head, sep, rest);
}

// ---------------------------------------------------------------------------
// Numbers and letters
// ---------------------------------------------------------------------------

/// Numbers are written in decimal: one digit is its own value, and a further
/// digit makes a number ten times as large and adds its value, as far as a
/// `u32` goes. A plus sign in front of a digit changes nothing.
pub proof fn lemma_numbers_grow_by_tens(s: Seq<char>, c: char)
    requires
        '0' <= c <= '9',
    ensures
        number(seq![c]) == Some((c as u32 - '0' as u32) as u32),
        number(s) matches Some(n) ==> number(s.push(c)) == if n * 10 + (c as u32 - '0' as u32)
            <= u32::MAX {
            Some((n * 10 + (c as u32 - '0' as u32)) as u32)
        } else {
            None
        },
        s.len() > 0 && s.first() != '+' ==> number(seq!['+'] + s) == number(s),
{
    let one = seq![c];
    assert(one.drop_last() =~= Seq::empty());
    assert(digits_value(Seq::<char>::empty()) == 0);
    assert(unsigned_part(one) == one);
    assert(one[0] == c);
    assert(digits_value(one) == (c as nat - '0' as nat) as nat);
    if number(s) is Some {
        let digits = unsigned_part(s);
        let more = unsigned_part(s.push(c));
        assert(more =~= digits.push(c));
        assert(more.drop_last() =~= digits);
        assert forall|i: int| 0 <= i < more.len() implies is_digit(#[trigger] more[i]) by {
            if i < digits.len() {
                assert(more[i] == digits[i]);
            }
        }
    }
    if s.len() > 0 && s.first() != '+' {
        assert((seq!['+'] + s).drop_first() =~= s);
    }
}

/// Only digits, behind at most one plus sign, are a number, and there must be
/// one.
pub proof fn lemma_only_digits_are_a_number(s: Seq<char>)
    requires
        number(s) is Some,
    ensures
        s.len() > 0,
        s.first() == '+' || '0' <= s.first() <= '9',
        s.first() == '+' ==> s.len() > 1,
        forall|i: int| 0 < i < s.len() ==> '0' <= #[trigger] s[i] <= '9',
{
    let digits = unsigned_part(s);
    assert(is_digit(digits[0]));
    assert forall|i: int| 0 < i < s.len() implies '0' <= #[trigger] s[i] <= '9' by {
        if s.first() == '+' {
            assert(is_digit(digits[i - 1]));
        } else {
            assert(is_digit(digits[i]));
        }
    }
}

/// A text of digits alone that is no number is too large a one; and what holds
/// another character and is no longer than nine is refused for that character.
pub proof fn lemma_refused_numbers_tell_why(s: Seq<char>)
    requires
        number(s) is None,
    ensures
        s.len() == 0 <==> number_error(s) == NumberError::Empty,
        s.len() > 0 && all_digits(s) ==> number_error(s) == NumberError::TooLarge,
        0 < s.len() <= 9 ==> number_error(s) == NumberError::InvalidDigit,
{
    let digits = unsigned_part(s);
    if s.len() > 0 && all_digits(s) {
        assert(is_digit(s[0]));
        assert(digits == s);
        assert(s.take(s.len() as int) =~= s);
        assert(overflows(s));
    }
    if 0 < s.len() <= 9 && overflows(digits) {
        let n = choose|n: int|
            0 <= n <= digits.len() && all_digits(#[trigger] digits.take(n)) && digits_value(
                digits.take(n),
            ) > u32::MAX;
        lemma_short_numbers_are_small(digits.take(n));
    }
}

proof fn lemma_short_numbers_are_small(s: Seq<char>)
    requires
        all_digits(s),
        s.len() <= 9,
    ensures
        digits_value(s) < power_of_ten(s.len()),
        power_of_ten(s.len()) <= 1_000_000_000,
    decreases s.len(),
{
    if s.len() > 0 {
        let front = s.drop_last();
        assert forall|i: int| 0 <= i < front.len() implies is_digit(#[trigger] front[i]) by {
            assert(front[i] == s[i]);
        }
        lemma_short_numbers_are_small(front);
        assert(is_digit(s[s.len() - 1]));
        assert(power_of_ten(9) == 1_000_000_000) by {
            reveal_with_fuel(power_of_ten, 10);
        }
        lemma_power_grows(s.len(), 9);
    } else {
        assert(power_of_ten(0) == 1);
    }
}

spec fn power_of_ten(n: nat) -> nat
    decreases n,
{
    if n == 0 {
        1
    } else {
        10 * power_of_ten((n - 1) as nat)
    }
}

proof fn lemma_power_grows(n: nat, m: nat)
    requires
        n <= m,
    ensures
        power_of_ten(n) <= power_of_ten(m),
    decreases m,
{
    if n < m {
        lemma_power_grows(n, (m - 1) as nat);
    }
}

/// Lower case in ASCII keeps every character in its place; the capital letters,
/// and they alone, become the letters 32 places further on.
pub proof fn lemma_ascii_lower_case_letter_by_letter(s: Seq<char>, i: int)
    requires
        0 <= i < s.len(),
    ensures
        ascii_lower(s).len() == s.len(),
        'A' <= s[i] <= 'Z' ==> ascii_lower(s)[i] as u32 == s[i] as u32 + 32,
        !('A' <= s[i] <= 'Z') ==> ascii_lower(s)[i] == s[i],
{
}

/// Texts one after the other: one more comes behind the others, whole.
pub proof fn lemma_texts_follow_each_other(parts: Seq<Seq<char>>, part: Seq<char>)
    ensures
        flat(Seq::<Seq<char>>::empty()) == Seq::<char>::empty(),
        flat(parts.push(part)) == flat(parts) + part,
{
    assert(parts.push(part).drop_last() =~= parts);
}

/// A list with one more item has the separator and the item behind it; a list
/// of one item is that item.
pub proof fn lemma_items_follow_each_other(
    parts: Seq<Seq<char>>,
    part: Seq<char>,
    sep: Seq<char>,
)
    ensures
        joined(Seq::<Seq<char>>::empty(), sep) == Seq::<char>::empty(),
        joined(seq![part], sep) == part,
        parts.len() > 0 ==> joined(parts.push(part), sep) == joined(parts, sep) + sep + part,
{
    assert(parts.push(part).drop_last() =~= parts);
}

/// Two texts one after the other are their concatenation.
pub proof fn lemma_two_texts(a: Seq<char>, b: Seq<char>)
    ensures
        flat(seq![a, b]) == a + b,
{
    lemma_texts_follow_each_other(Seq::empty(), a);
    lemma_texts_follow_each_other(seq![a], b);
    assert(Seq::<Seq<char>>::empty().push(a) =~= seq![a]);
    assert(seq![a].push(b) =~= seq![a, b]);
    assert(Seq::<char>::empty() + a =~= a);
}

/// The same of three texts.
pub proof fn lemma_three_texts(a: Seq<char>, b: Seq<char>, c: Seq<char>)
    ensures
        flat(seq![a, b, c]) == a + b + c,
{
    lemma_two_texts(a, b);
    lemma_texts_follow_each_other(seq![a, b], c);
    assert(seq![a, b].push(c) =~= seq![a, b, c]);
}

/// The same of four texts.
pub proof fn lemma_four_texts(a: Seq<char>, b: Seq<char>, c: Seq<char>, d: Seq<char>)
    ensures
        flat(seq![a, b, c, d]) == a + b + c + d,
{
    lemma_three_texts(a, b, c);
    lemma_texts_follow_each_other(seq![a, b, c], d);
    assert(seq![a, b, c].push(d) =~= seq![a, b, c, d]);
}

/// A text with white space around it is the text once trimmed, if it begins and
/// ends with another character.
pub proof fn lemma_white_space_around_is_trimmed(front: Seq<char>, s: Seq<char>, back: Seq<char>)
    requires
        is_blank(front),
        is_blank(back),
        s.len() > 0,
        !is_space(s.first()),
        !is_space(s.last()),
    ensures
        trimmed(front + s + back) == s,
{
    lemma_blank_front(front, s + back);
    assert(front + (s + back) =~= front + s + back);
    lemma_blank_back(s, back);
}

proof fn lemma_blank_front(front: Seq<char>, s: Seq<char>)
    requires
        is_blank(front),
        s.len() > 0,
        !is_space(s.first()),
    ensures
        trimmed_start(front + s) == s,
    decreases front.len(),
{
    let all = front + s;
    if front.len() == 0 {
        assert(all =~= s);
    } else {
        assert(is_space(front[0]));
        assert(all.first() == front[0]);
        let rest = front.drop_first();
        assert forall|i: int| 0 <= i < rest.len() implies is_space(#[trigger] rest[i]) by {
            assert(rest[i] == front[i + 1]);
        }
        lemma_blank_front(rest, s);
        assert(all.drop_first() =~= rest + s);
    }
}

proof fn lemma_blank_back(s: Seq<char>, back: Seq<char>)
    requires
        is_blank(back),
        s.len() > 0,
        !is_space(s.last()),
    ensures
        trimmed_end(s + back) == s,
    decreases back.len(),
{
    let all = s + back;
    if back.len() == 0 {
        assert(all =~= s);
    } else {
        assert(is_space(back[back.len() - 1]));
        assert(all.last() == back[back.len() - 1]);
        let rest = back.drop_last();
        assert forall|i: int| 0 <= i < rest.len() implies is_space(#[trigger] rest[i]) by {
            assert(rest[i] == back[i]);
        }
        lemma_blank_back(s, rest);
        assert(all.drop_last() =~= s + rest);
    }
}

/// A number in decimal is a word, of digits alone.
pub proof fn lemma_a_number_is_a_word(n: u32)
    ensures
        is_word(decimal(n as nat)),
        forall|i: int|
            0 <= i < decimal(n as nat).len() ==> '0' <= #[trigger] decimal(n as nat)[i] <= '9',
{
    lemma_decimal_digits(n as nat);
    let d = decimal(n as nat);
    assert forall|i: int| 0 <= i < d.len() implies '0' <= #[trigger] d[i] <= '9' by {
        assert(is_digit(d[i]));
    }
}

/// A number in decimal is its digits, the most significant first and without a
/// zero in front: one digit stands for itself, and any other number is that of
/// its tens with the digit of its ones behind.
pub proof fn lemma_how_numbers_are_written(tens: nat, ones: nat)
    requires
        ones < 10,
    ensures
        decimal(ones) == seq![('0' as nat + ones) as char],
        tens > 0 ==> decimal(tens * 10 + ones) == decimal(tens).push(('0' as nat + ones) as char),
{
    if tens > 0 {
        assert((tens * 10 + ones) / 10 == tens);
        assert((tens * 10 + ones) % 10 == ones);
    }
}

} // verus!
