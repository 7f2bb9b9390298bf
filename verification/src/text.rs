//! Text operations on character sequences: the searching, splitting, trimming
//! and number conversions that the parsers and classifiers of this crate use.

use vstd::prelude::*;

verus! {

/// `String::push` appends one character to the end of the string.
pub assume_specification[ String::push ](s: &mut String, c: char)
    ensures
        final(s)@ == old(s)@.push(c),
;

/// What `str::to_lowercase` makes of a text.
pub uninterp spec fn lowercased(s: Seq<char>) -> Seq<char>;

/// `str::to_lowercase` gives the lowercase equivalent by the Unicode tables,
/// which depends on the text alone; of a text that is all ASCII it lowers the
/// letters `A` to `Z` and keeps the rest.
pub assume_specification[ str::to_lowercase ](s: &str) -> (r: String)
    ensures
        r@ == lowercased(s@),
        vstd::utf8::is_ascii_chars(s@) ==> r@ == ascii_lower(s@),
;

// ---------------------------------------------------------------------------
// Model
// ---------------------------------------------------------------------------

/// The characters with the Unicode property `White_Space`.
pub open spec fn is_space(c: char) -> bool {
    ||| '\u{9}' <= c <= '\u{d}'
    ||| c == '\u{20}'
    ||| c == '\u{85}'
    ||| c == '\u{a0}'
    ||| c == '\u{1680}'
    ||| '\u{2000}' <= c <= '\u{200a}'
    ||| c == '\u{2028}'
    ||| c == '\u{2029}'
    ||| c == '\u{202f}'
    ||| c == '\u{205f}'
    ||| c == '\u{3000}'
}

/// `needle` stands in `hay` at position `at`.
pub open spec fn stands_at(hay: Seq<char>, needle: Seq<char>, at: int) -> bool {
    &&& 0 <= at
    &&& at + needle.len() <= hay.len()
    &&& hay.subrange(at, at + needle.len()) == needle
}

/// `needle` occurs somewhere in `hay`.
pub open spec fn mentions(hay: Seq<char>, needle: Seq<char>) -> bool {
    exists|at: int| stands_at(hay, needle, at)
}

/// `s` without the white space in front.
pub open spec fn trimmed_start(s: Seq<char>) -> Seq<char>
    decreases s.len(),
{
    if s.len() > 0 && is_space(s.first()) {
        trimmed_start(s.drop_first())
    } else {
        s
    }
}

/// `s` without the white space behind.
pub open spec fn trimmed_end(s: Seq<char>) -> Seq<char>
    decreases s.len(),
{
    if s.len() > 0 && is_space(s.last()) {
        trimmed_end(s.drop_last())
    } else {
        s
    }
}

/// `s` without the white space at either end.
pub open spec fn trimmed(s: Seq<char>) -> Seq<char> {
    trimmed_end(trimmed_start(s))
}

/// The pieces of `s` between the separators: each `sep` closes one piece and
/// opens the next, so there is always at least one.
pub open spec fn pieces(s: Seq<char>, sep: char) -> Seq<Seq<char>>
    decreases s.len(),
{
    if s.len() == 0 {
        seq![Seq::<char>::empty()]
    } else {
        let before = pieces(s.drop_last(), sep);
        if s.last() == sep {
            before.push(Seq::<char>::empty())
        } else {
            before.drop_last().push(before.last().push(s.last()))
        }
    }
}

/// `s` up to the first `sep`, and what follows that `sep` if there is one.
pub open spec fn cut_at(s: Seq<char>, sep: char) -> (Seq<char>, Option<Seq<char>>)
    decreases s.len(),
{
    if s.len() == 0 {
        (s, None)
    } else if s.first() == sep {
        (Seq::<char>::empty(), Some(s.drop_first()))
    } else {
        let (head, tail) = cut_at(s.drop_first(), sep);
        (seq![s.first()] + head, tail)
    }
}

/// A line without the carriage return that may close it.
pub open spec fn without_cr(line: Seq<char>) -> Seq<char> {
    if line.len() > 0 && line.last() == '\r' {
        line.drop_last()
    } else {
        line
    }
}

/// The lines of `s`: ended by `\n` or `\r\n`, the last line ending optional.
pub open spec fn line_seq(s: Seq<char>) -> Seq<Seq<char>> {
    let all = pieces(s, '\n');
    let ended = all.drop_last().map_values(|line: Seq<char>| without_cr(line));
    if all.last().len() == 0 {
        ended
    } else {
        ended.push(all.last())
    }
}

/// The maximal runs of characters that are no white space.
pub open spec fn words(s: Seq<char>) -> Seq<Seq<char>>
    decreases s.len(),
{
    if s.len() == 0 {
        Seq::empty()
    } else {
        let front = s.drop_last();
        let before = words(front);
        if is_space(s.last()) {
            before
        } else if front.len() == 0 || is_space(front.last()) {
            before.push(seq![s.last()])
        } else {
            before.drop_last().push(before.last().push(s.last()))
        }
    }
}

pub open spec fn is_digit(c: char) -> bool {
    '0' <= c <= '9'
}

/// The number that a run of decimal digits writes.
pub open spec fn digits_value(s: Seq<char>) -> nat
    decreases s.len(),
{
    if s.len() == 0 {
        0
    } else {
        digits_value(s.drop_last()) * 10 + (s.last() as nat - '0' as nat) as nat
    }
}

/// The digits of a number that may carry a leading plus sign.
pub open spec fn unsigned_part(s: Seq<char>) -> Seq<char> {
    if s.len() > 0 && s.first() == '+' {
        s.drop_first()
    } else {
        s
    }
}

/// The `u32` that `s` writes in decimal, if it writes one.
pub open spec fn number(s: Seq<char>) -> Option<u32> {
    let digits = unsigned_part(s);
    if digits.len() > 0 && (forall|i: int| 0 <= i < digits.len() ==> is_digit(#[trigger] digits[i]))
        && digits_value(digits) <= u32::MAX {
        Some(digits_value(digits) as u32)
    } else {
        None
    }
}

/// Why a text writes no `u32` in decimal.
#[derive(Debug, Clone, Copy, PartialEq, Eq, Structural)]
pub enum NumberError {
    /// There is no text.
    Empty,
    /// A character is no digit, or there is a plus sign and nothing else.
    InvalidDigit,
    /// The number is too large.
    TooLarge,
}

/// All characters are digits.
pub open spec fn all_digits(s: Seq<char>) -> bool {
    forall|i: int| 0 <= i < s.len() ==> is_digit(#[trigger] s[i])
}

/// The digits that `s` begins with, up to some place, are too large a number.
pub open spec fn overflows(s: Seq<char>) -> bool {
    exists|n: int|
        0 <= n <= s.len() && all_digits(#[trigger] s.take(n)) && digits_value(s.take(n))
            > u32::MAX
}

/// Why `s` writes no `u32`. What comes first from the left counts: a number
/// that is too large already, or a character that is no digit.
pub open spec fn number_error(s: Seq<char>) -> NumberError
    recommends
        number(s) is None,
{
    if s.len() == 0 {
        NumberError::Empty
    } else if overflows(unsigned_part(s)) {
        NumberError::TooLarge
    } else {
        NumberError::InvalidDigit
    }
}

/// What is said of it.
pub open spec fn number_text(why: NumberError) -> Seq<char> {
    match why {
        NumberError::Empty => "cannot parse integer from empty string"@,
        NumberError::InvalidDigit => "invalid digit found in string"@,
        NumberError::TooLarge => "number too large to fit in target type"@,
    }
}

/// The decimal digit that stands for `d`.
pub open spec fn digit_char(d: nat) -> char {
    ('0' as nat + d) as char
}

/// `n` in decimal, without leading zeros.
pub open spec fn decimal(n: nat) -> Seq<char>
    decreases n,
{
    if n < 10 {
        seq![digit_char(n)]
    } else {
        decimal(n / 10).push(digit_char(n % 10))
    }
}

/// ASCII letters `A` to `Z` to `a` to `z`, every other character to itself.
pub open spec fn lower_char(c: char) -> char {
    if 'A' <= c <= 'Z' {
        (c as u32 + 32) as char
    } else {
        c
    }
}

/// `s` with every ASCII letter in lower case.
pub open spec fn ascii_lower(s: Seq<char>) -> Seq<char> {
    s.map_values(|c: char| lower_char(c))
}

/// The elements of `parts` with `sep` between neighbours.
pub open spec fn joined(parts: Seq<Seq<char>>, sep: Seq<char>) -> Seq<char>
    decreases parts.len(),
{
    if parts.len() == 0 {
        Seq::empty()
    } else if parts.len() == 1 {
        parts[0]
    } else {
        joined(parts.drop_last(), sep) + sep + parts.last()
    }
}

// ---------------------------------------------------------------------------
// Operations
// ---------------------------------------------------------------------------

/// The characters of `s`.
pub fn chars_of(s: &str) -> (v: Vec<char>)
    ensures
        v@ == s@,
{
    let mut v: Vec<char> = Vec::new();
    for c in it: s.chars()
        invariant
            it.seq() == s@,
            v@ == s@.take(it.index() as int),
    {
        v.push(c);
    }
    v
}

/// Whether two texts are the same.
pub fn same(a: &str, b: &str) -> (r: bool)
    ensures
        r == (a@ == b@),
{
    let x = chars_of(a);
    let y = chars_of(b);
    if x.len() != y.len() {
        return false;
    }
    let mut i: usize = 0;
    while i < x.len()
        invariant
            x@ == a@,
            y@ == b@,
            x.len() == y.len(),
            i <= x.len(),
            forall|j: int| 0 <= j < i ==> x[j] == y[j],
        decreases x.len() - i,
    {
        if x[i] != y[i] {
            assert(a@[i as int] != b@[i as int]);
            return false;
        }
        i += 1;
    }
    assert(a@ =~= b@);
    true
}

/// Whether `needle` stands in `hay` at `at`.
fn matches_at(hay: &Vec<char>, needle: &Vec<char>, at: usize) -> (r: bool)
    ensures
        r == stands_at(hay@, needle@, at as int),
{
    if needle.len() > hay.len() || at > hay.len() - needle.len() {
        return false;
    }
    let mut i: usize = 0;
    while i < needle.len()
        invariant
            at + needle.len() <= hay.len(),
            i <= needle.len(),
            forall|j: int| 0 <= j < i ==> hay[at + j] == needle[j],
        decreases needle.len() - i,
    {
        if hay[at + i] != needle[i] {
            assert(hay@.subrange(at as int, at + needle.len())[i as int] != needle@[i as int]);
            return false;
        }
        i += 1;
    }
    assert(hay@.subrange(at as int, at + needle.len()) =~= needle@);
    true
}

/// Whether `needle` occurs in `hay`.
pub fn contains(hay: &str, needle: &str) -> (r: bool)
    ensures
        r == mentions(hay@, needle@),
{
    let h = chars_of(hay);
    let n = chars_of(needle);
    if n.len() > h.len() {
        return false;
    }
    let mut at: usize = 0;
    let last: usize = h.len() - n.len();
    while at <= last
        invariant
            h@ == hay@,
            n@ == needle@,
            last == h.len() - n.len(),
            at <= last + 1,
            forall|j: int| 0 <= j < at ==> !stands_at(h@, n@, j),
        decreases last + 1 - at,
    {
        if matches_at(&h, &n, at) {
            return true;
        }
        if at == last {
            return false;
        }
        at += 1;
    }
    false
}

/// Whether `s` begins with `prefix`.
pub fn starts_with(s: &str, prefix: &str) -> (r: bool)
    ensures
        r == prefix@.is_prefix_of(s@),
{
    let h = chars_of(s);
    let n = chars_of(prefix);
    let r = matches_at(&h, &n, 0);
    proof {
        if r {
            assert(prefix@ =~= s@.subrange(0, prefix@.len() as int));
        }
        if prefix@.is_prefix_of(s@) {
            assert(stands_at(s@, prefix@, 0));
        }
    }
    r
}

/// Whether `c` is white space.
pub fn is_white_space(c: char) -> (r: bool)
    ensures
        r == is_space(c),
{
    ('\u{9}' <= c && c <= '\u{d}') || c == '\u{20}' || c == '\u{85}' || c == '\u{a0}' || c
        == '\u{1680}' || ('\u{2000}' <= c && c <= '\u{200a}') || c == '\u{2028}' || c == '\u{2029}'
        || c == '\u{202f}' || c == '\u{205f}' || c == '\u{3000}'
}

/// `s` without the white space at either end.
pub fn trim(s: &str) -> (r: &str)
    ensures
        r@ == trimmed(s@),
{
    let cs = chars_of(s);
    let mut start: usize = 0;
    assert(s@.skip(0) =~= s@);
    while start < cs.len() && is_white_space(cs[start])
        invariant
            cs@ == s@,
            start <= cs.len(),
            trimmed_start(s@) == trimmed_start(s@.skip(start as int)),
        decreases cs.len() - start,
    {
        assert(s@.skip(start as int).drop_first() =~= s@.skip(start + 1));
        start += 1;
    }
    let mut end: usize = cs.len();
    assert(s@.subrange(start as int, end as int) =~= s@.skip(start as int));
    while start < end && is_white_space(cs[end - 1])
        invariant
            cs@ == s@,
            start <= end <= cs.len(),
            trimmed(s@) == trimmed_end(s@.subrange(start as int, end as int)),
        decreases end - start,
    {
        assert(s@.subrange(start as int, end as int).drop_last() =~= s@.subrange(
            start as int,
            end - 1,
        ));
        end -= 1;
    }
    s.substring_char(start, end)
}

/// The pieces of `s` between the separators.
pub fn split(s: &str, sep: char) -> (r: Vec<&str>)
    ensures
        r.deep_view() == pieces(s@, sep),
        r.len() > 0,
{
    let cs = chars_of(s);
    let mut out: Vec<&str> = Vec::new();
    let mut start: usize = 0;
    let mut i: usize = 0;
    proof {
        assert(s@.take(0) =~= Seq::<char>::empty());
        assert(pieces(s@.take(0), sep) =~= out.deep_view().push(s@.subrange(0, 0)));
    }
    while i < cs.len()
        invariant
            cs@ == s@,
            start <= i <= cs.len(),
            pieces(s@.take(i as int), sep) == out.deep_view().push(
                s@.subrange(start as int, i as int),
            ),
        decreases cs.len() - i,
    {
        let ghost before = out.deep_view();
        proof {
            assert(s@.take(i + 1).drop_last() =~= s@.take(i as int));
        }
        if cs[i] == sep {
            out.push(s.substring_char(start, i));
            start = i + 1;
            proof {
                assert(out.deep_view() =~= pieces(s@.take(i as int), sep));
                assert(s@.subrange(start as int, i + 1) =~= Seq::<char>::empty());
            }
        } else {
            proof {
                let open = s@.subrange(start as int, i as int);
                assert(before.push(open).drop_last() =~= before);
                assert(open.push(s@[i as int]) =~= s@.subrange(start as int, i + 1));
            }
        }
        i += 1;
    }
    let ghost before = out.deep_view();
    out.push(s.substring_char(start, i));
    proof {
        assert(s@.take(i as int) =~= s@);
        assert(out.deep_view() =~= pieces(s@, sep));
    }
    out
}

/// `s` up to the first `sep`, and what follows that `sep` if there is one.
pub fn cut(s: &str, sep: char) -> (r: (&str, Option<&str>))
    ensures
        (r.0@, r.1.deep_view()) == cut_at(s@, sep),
{
    let cs = chars_of(s);
    let mut i: usize = 0;
    proof {
        let rest = cut_at(s@.skip(0), sep);
        assert(s@.skip(0) =~= s@);
        assert(s@.take(0) + rest.0 =~= rest.0);
    }
    while i < cs.len()
        invariant
            cs@ == s@,
            i <= cs.len(),
            cut_at(s@, sep).0 == s@.take(i as int) + cut_at(s@.skip(i as int), sep).0,
            cut_at(s@, sep).1 == cut_at(s@.skip(i as int), sep).1,
        decreases cs.len() - i,
    {
        let ghost rest = s@.skip(i as int);
        assert(rest.drop_first() =~= s@.skip(i + 1));
        if cs[i] == sep {
            let head = s.substring_char(0, i);
            let tail = s.substring_char(i + 1, cs.len());
            proof {
                assert(head@ =~= s@.take(i as int) + Seq::<char>::empty());
                assert(tail@ =~= rest.drop_first());
            }
            return (head, Some(tail));
        }
        proof {
            let deeper = cut_at(s@.skip(i + 1), sep).0;
            assert(s@.take(i as int) + (seq![rest.first()] + deeper) =~= s@.take(i + 1) + deeper);
        }
        i += 1;
    }
    proof {
        assert(s@.take(i as int) + s@.skip(i as int) =~= s@);
    }
    (s, None)
}

/// The lines of `s`.
pub fn lines(s: &str) -> (r: Vec<&str>)
    ensures
        r.deep_view() == line_seq(s@),
{
    let all = split(s, '\n');
    let ghost model = pieces(s@, '\n');
    let ghost ended = model.drop_last().map_values(|line: Seq<char>| without_cr(line));
    let mut out: Vec<&str> = Vec::new();
    let mut i: usize = 0;
    while i < all.len() - 1
        invariant
            all.deep_view() == model,
            all.len() > 0,
            ended == model.drop_last().map_values(|line: Seq<char>| without_cr(line)),
            i <= all.len() - 1,
            out.deep_view() == ended.take(i as int),
        decreases all.len() - i,
    {
        let line = all[i];
        assert(line@ == model[i as int]);
        let cs = chars_of(line);
        let ghost before = out.deep_view();
        if cs.len() > 0 && cs[cs.len() - 1] == '\r' {
            out.push(line.substring_char(0, cs.len() - 1));
        } else {
            out.push(line);
        }
        proof {
            assert(out.deep_view().last() =~= ended[i as int]);
            assert(out.deep_view() =~= before.push(ended[i as int]));
            assert(before.push(ended[i as int]) =~= ended.take(i + 1));
        }
        i += 1;
    }
    assert(ended.take(i as int) =~= ended);
    let last = all[all.len() - 1];
    assert(last@ == model.last());
    if !last.is_empty() {
        let ghost before = out.deep_view();
        out.push(last);
        assert(out.deep_view() =~= before.push(model.last()));
    }
    out
}

/// The words of `s`: its maximal runs without white space.
pub fn split_whitespace(s: &str) -> (r: Vec<&str>)
    ensures
        r.deep_view() == words(s@),
{
    let cs = chars_of(s);
    let mut out: Vec<&str> = Vec::new();
    let mut start: usize = 0;
    let mut i: usize = 0;
    assert(s@.take(0) =~= Seq::<char>::empty());
    assert(out.deep_view() =~= Seq::<Seq<char>>::empty());
    // `cs[start..i]` is the word that is being read; it is empty between words.
    while i < cs.len()
        invariant
            cs@ == s@,
            start <= i <= cs.len(),
            start == i ==> (i == 0 || is_space(s@[i - 1])),
            start < i ==> !is_space(s@[i - 1]),
            words(s@.take(i as int)) == (if start == i {
                out.deep_view()
            } else {
                out.deep_view().push(s@.subrange(start as int, i as int))
            }),
        decreases cs.len() - i,
    {
        let ghost before = out.deep_view();
        proof {
            assert(s@.take(i + 1).drop_last() =~= s@.take(i as int));
            if i > 0 {
                assert(s@.take(i as int).last() == s@[i - 1]);
            }
        }
        if is_white_space(cs[i]) {
            if start < i {
                out.push(s.substring_char(start, i));
                assert(out.deep_view() =~= before.push(s@.subrange(start as int, i as int)));
            }
            start = i + 1;
        } else {
            proof {
                let open = s@.subrange(start as int, i as int);
                assert(open.push(s@[i as int]) =~= s@.subrange(start as int, i + 1));
                if start < i {
                    assert(before.push(open).drop_last() =~= before);
                    assert(before.push(open).last() == open);
                } else {
                    assert(seq![s@[i as int]] =~= s@.subrange(start as int, i + 1));
                }
                assert(s@.take(i + 1).last() == s@[i as int]);
            }
        }
        i += 1;
    }
    let ghost before = out.deep_view();
    if start < i {
        out.push(s.substring_char(start, i));
        assert(out.deep_view() =~= before.push(s@.subrange(start as int, i as int)));
    }
    assert(s@.take(i as int) =~= s@);
    out
}

impl NumberError {
    /// What is said of it.
    pub fn message(self) -> (r: &'static str)
        ensures
            r@ == number_text(self),
    {
        match self {
            NumberError::Empty => "cannot parse integer from empty string",
            NumberError::InvalidDigit => "invalid digit found in string",
            NumberError::TooLarge => "number too large to fit in target type",
        }
    }
}

proof fn lemma_more_digits_are_no_less(s: Seq<char>, n: int, m: int)
    requires
        0 <= n <= m <= s.len(),
    ensures
        digits_value(s.take(n)) <= digits_value(s.take(m)),
    decreases m - n,
{
    if n < m {
        lemma_more_digits_are_no_less(s, n, m - 1);
        assert(s.take(m).drop_last() =~= s.take(m - 1));
    }
}

/// The `u32` that `s` writes in decimal, an optional plus sign in front; or why
/// it writes none.
pub fn read_u32(s: &str) -> (r: Result<u32, NumberError>)
    ensures
        match r {
            Ok(n) => number(s@) == Some(n),
            Err(why) => number(s@) is None && why == number_error(s@),
        },
{
    let cs = chars_of(s);
    if cs.len() == 0 {
        return Err(NumberError::Empty);
    }
    let from: usize = if cs[0] == '+' {
        1
    } else {
        0
    };
    let ghost digits = unsigned_part(s@);
    assert(digits =~= s@.skip(from as int));
    let mut value: u64 = 0;
    let mut i: usize = from;
    assert(digits.take(0) =~= Seq::<char>::empty());
    while i < cs.len()
        invariant
            cs@ == s@,
            s@.len() > 0,
            from <= 1,
            from <= i <= cs.len(),
            digits == unsigned_part(s@),
            digits == s@.skip(from as int),
            all_digits(digits.take(i - from)),
            value <= u32::MAX,
            value == digits_value(digits.take(i - from)),
        decreases cs.len() - i,
    {
        let c = cs[i];
        let ghost n = i - from;
        assert(c == digits[n]);
        if !('0' <= c && c <= '9') {
            proof {
                assert forall|m: int|
                    0 <= m <= digits.len() && all_digits(
                        #[trigger] digits.take(m),
                    ) implies digits_value(digits.take(m)) <= u32::MAX by {
                    if m > n {
                        assert(is_digit(digits.take(m)[n]));
                    }
                    lemma_more_digits_are_no_less(digits, m, n);
                }
            }
            return Err(NumberError::InvalidDigit);
        }
        proof {
            assert(digits.take(n + 1).drop_last() =~= digits.take(n));
            assert forall|j: int| 0 <= j < n + 1 implies is_digit(
                #[trigger] digits.take(n + 1)[j],
            ) by {
                if j < n {
                    assert(is_digit(digits.take(n)[j]));
                }
            }
        }
        value = value * 10 + (c as u64 - '0' as u64);
        if value > u32::MAX as u64 {
            proof {
                assert(all_digits(digits.take(n + 1)));
                lemma_more_digits_are_no_less(digits, n + 1, digits.len() as int);
                assert(digits.take(digits.len() as int) =~= digits);
            }
            return Err(NumberError::TooLarge);
        }
        i += 1;
    }
    assert(digits.take(i - from) =~= digits);
    if from == cs.len() {
        assert(digits.len() == 0);
        return Err(NumberError::InvalidDigit);
    }
    Ok(value as u32)
}

/// The `u32` that `s` writes in decimal, an optional plus sign in front.
pub fn parse_u32(s: &str) -> (r: Option<u32>)
    ensures
        r == number(s@),
{
    match read_u32(s) {
        Ok(n) => Some(n),
        Err(_) => None,
    }
}

/// A copy of `s` with every ASCII letter in lower case.
pub fn to_ascii_lowercase(s: &str) -> (r: String)
    ensures
        r@ == ascii_lower(s@),
{
    let cs = chars_of(s);
    let mut out: String = String::new();
    let mut i: usize = 0;
    assert(out@ =~= ascii_lower(s@).take(0));
    while i < cs.len()
        invariant
            cs@ == s@,
            i <= cs.len(),
            out@ == ascii_lower(s@).take(i as int),
        decreases cs.len() - i,
    {
        let c = cs[i];
        let l: char = if 'A' <= c && c <= 'Z' {
            (c as u8 + 32) as char
        } else {
            c
        };
        out.push(l);
        assert(out@ =~= ascii_lower(s@).take(i + 1));
        i += 1;
    }
    assert(ascii_lower(s@).take(i as int) =~= ascii_lower(s@));
    out
}

/// Whether two texts are the same but for the case of ASCII letters.
pub fn eq_ignore_ascii_case(a: &str, b: &str) -> (r: bool)
    ensures
        r == (ascii_lower(a@) == ascii_lower(b@)),
{
    let x = to_ascii_lowercase(a);
    let y = to_ascii_lowercase(b);
    same(x.as_str(), y.as_str())
}

/// `n` in decimal.
pub fn decimal_string(n: u64) -> (r: String)
    ensures
        r@ == decimal(n as nat),
    decreases n,
{
    let digit: char = ((n % 10) as u8 + 48) as char;
    let mut out = if n < 10 {
        String::new()
    } else {
        decimal_string(n / 10)
    };
    out.push(digit);
    assert(n < 10 ==> out@ =~= seq![digit_char(n as nat)]);
    out
}

/// The elements of `parts` with `sep` between neighbours.
pub fn join(parts: &Vec<String>, sep: &str) -> (r: String)
    ensures
        r@ == joined(parts.deep_view(), sep@),
{
    let mut out: String = String::new();
    let ghost model = parts.deep_view();
    let mut i: usize = 0;
    while i < parts.len()
        invariant
            i <= parts.len(),
            model == parts.deep_view(),
            out@ == joined(model.take(i as int), sep@),
        decreases parts.len() - i,
    {
        proof {
            assert(model.take(i + 1).drop_last() =~= model.take(i as int));
            assert(parts[i as int]@ == model[i as int]);
        }
        if i > 0 {
            out.append(sep);
        }
        out.append(parts[i].as_str());
        assert(i == 0 ==> out@ =~= model[0]);
        i += 1;
    }
    assert(model.take(i as int) =~= model);
    out
}

/// Whether `name` is among `names`.
pub fn has_name(names: &Vec<String>, name: &str) -> (r: bool)
    ensures
        r == names.deep_view().contains(name@),
{
    let mut i: usize = 0;
    while i < names.len()
        invariant
            i <= names.len(),
            forall|j: int| 0 <= j < i ==> names.deep_view()[j] != name@,
        decreases names.len() - i,
    {
        if same(names[i].as_str(), name) {
            assert(names.deep_view()[i as int] == name@);
            return true;
        }
        i += 1;
    }
    false
}

/// `a` followed by `b`.
pub fn concat(a: &str, b: &str) -> (r: String)
    ensures
        r@ == a@ + b@,
{
    let mut r = a.to_owned();
    r.append(b);
    r
}

/// Some texts, one after the other.
pub fn append_all(parts: &[&str]) -> (r: String)
    ensures
        r@ == flat(parts.deep_view()),
{
    proof {
        reveal_strlit("");
    }
    let mut r = "".to_owned();
    let ghost model = parts.deep_view();
    let mut i: usize = 0;
    assert(r@ =~= flat(model.take(0)));
    while i < parts.len()
        invariant
            i <= parts.len(),
            model == parts.deep_view(),
            r@ == flat(model.take(i as int)),
        decreases parts.len() - i,
    {
        assert(model.take(i + 1).drop_last() =~= model.take(i as int));
        assert(model.take(i + 1).last() == parts[i as int]@);
        r.append(parts[i]);
        i += 1;
    }
    assert(model.take(i as int) =~= model);
    r
}

/// Some texts, one after the other.
pub open spec fn flat(parts: Seq<Seq<char>>) -> Seq<char>
    decreases parts.len(),
{
    if parts.len() == 0 {
        Seq::empty()
    } else {
        flat(parts.drop_last()) + parts.last()
    }
}

/// A cause behind its context.
pub fn in_context(context: &str, why: &str) -> (r: String)
    ensures
        r@ == flat(seq![context@, why@]),
{
    let parts = [context, why];
    assert(parts.deep_view() =~= seq![context@, why@]);
    append_all(&parts)
}

/// A copy of a list of names.
pub fn copy_names(names: &Vec<String>) -> (r: Vec<String>)
    ensures
        r.deep_view() == names.deep_view(),
{
    let r = names.clone();
    assert(r.deep_view() =~= names.deep_view());
    r
}

/// A list of names of its own.
pub fn owned(items: &[&str]) -> (r: Vec<String>)
    ensures
        r.deep_view() == items.deep_view(),
{
    let mut r: Vec<String> = Vec::new();
    let mut i: usize = 0;
    while i < items.len()
        invariant
            i <= items.len(),
            r.deep_view() == items.deep_view().take(i as int),
        decreases items.len() - i,
    {
        let ghost before = r.deep_view();
        r.push(items[i].to_owned());
        assert(r.deep_view() =~= before.push(items[i as int]@));
        assert(items.deep_view().take(i + 1) =~= items.deep_view().take(i as int).push(
            items[i as int]@,
        ));
        i += 1;
    }
    assert(items.deep_view().take(i as int) =~= items.deep_view());
    r
}

} // verus!
