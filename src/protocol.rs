use vstd::prelude::*;

use crate::game::Direction;

verus! {

/// One inbound text frame, read as a command.
#[derive(Clone, Copy, Debug, PartialEq, Eq, Structural)]
pub enum Command {
    /// `/connect`, with the match identifier that followed it, if it read as one.
    Connect(Option<usize>),
    /// `/stop`.
    Stop,
    /// `/direction`, with the heading that followed it, if it read as one.
    Direction(Option<Direction>),
    /// Anything else.
    Unrecognized,
}

/// The one-byte white space characters: tab, line feed, vertical tab,
/// form feed, carriage return and space.
pub open spec fn is_blank(b: u8) -> bool {
    b == 32 || (9 <= b && b <= 13)
}

/// The two-byte UTF-8 white space characters: U+0085 and U+00A0.
pub open spec fn is_blank2(a: u8, b: u8) -> bool {
    a == 0xC2 && (b == 0x85 || b == 0xA0)
}

/// The three-byte UTF-8 white space characters: U+1680, U+2000 to U+200A,
/// U+2028, U+2029, U+202F, U+205F and U+3000.
pub open spec fn is_blank3(a: u8, b: u8, c: u8) -> bool {
    (a == 0xE1 && b == 0x9A && c == 0x80) || (a == 0xE2 && b == 0x80 && ((0x80 <= c && c
        <= 0x8A) || c == 0xA8 || c == 0xA9 || c == 0xAF)) || (a == 0xE2 && b == 0x81 && c
        == 0x9F) || (a == 0xE3 && b == 0x80 && c == 0x80)
}

/// The length in bytes of the white space character that `s` starts with,
/// or 0 where it starts with none.
pub open spec fn leading_blank_len(s: Seq<u8>) -> int {
    if s.len() >= 1 && is_blank(s[0]) {
        1
    } else if s.len() >= 2 && is_blank2(s[0], s[1]) {
        2
    } else if s.len() >= 3 && is_blank3(s[0], s[1], s[2]) {
        3
    } else {
        0
    }
}

/// The length in bytes of the white space character that `s` ends with,
/// or 0 where it ends with none.
pub open spec fn trailing_blank_len(s: Seq<u8>) -> int {
    let n = s.len() as int;
    if n >= 1 && is_blank(s[n - 1]) {
        1
    } else if n >= 2 && is_blank2(s[n - 2], s[n - 1]) {
        2
    } else if n >= 3 && is_blank3(s[n - 3], s[n - 2], s[n - 1]) {
        3
    } else {
        0
    }
}

pub open spec fn trim_start(s: Seq<u8>) -> Seq<u8>
    decreases s.len(),
{
    let k = leading_blank_len(s);
    if k > 0 {
        trim_start(s.subrange(k, s.len() as int))
    } else {
        s
    }
}

pub open spec fn trim_end(s: Seq<u8>) -> Seq<u8>
    decreases s.len(),
{
    let k = trailing_blank_len(s);
    if k > 0 {
        trim_end(s.subrange(0, s.len() - k))
    } else {
        s
    }
}

/// The frame without the white space characters, as `char::is_whitespace`
/// knows them, that lead and trail it.
pub open spec fn trim(s: Seq<u8>) -> Seq<u8> {
    trim_end(trim_start(s))
}

/// The index of the first space in `s`, or its length where it has none.
pub open spec fn first_space(s: Seq<u8>) -> int
    decreases s.len(),
{
    if s.len() == 0 {
        0
    } else if s[0] == 32 {
        0
    } else {
        1 + first_space(s.drop_first())
    }
}

pub open spec fn is_digit(b: u8) -> bool {
    48 <= b && b <= 57
}

/// The number that a string of decimal digits spells.
pub open spec fn decimal_value(s: Seq<u8>) -> nat
    decreases s.len(),
{
    if s.len() == 0 {
        0
    } else {
        decimal_value(s.drop_last()) * 10 + (s.last() - 48) as nat
    }
}

/// The digits of an unsigned number: what follows an optional `+`.
pub open spec fn unsigned_digits(s: Seq<u8>) -> Seq<u8> {
    if s.len() > 0 && s[0] == 43 {
        s.drop_first()
    } else {
        s
    }
}

pub open spec fn all_digits(d: Seq<u8>) -> bool {
    forall|i: int| 0 <= i < d.len() ==> is_digit(#[trigger] d[i])
}

/// The value of a non-empty string of digits, where it fits in `usize`.
pub open spec fn digits_value(d: Seq<u8>) -> Option<usize> {
    if d.len() > 0 && all_digits(d) && decimal_value(d) <= usize::MAX {
        Some(decimal_value(d) as usize)
    } else {
        None
    }
}

/// An unsigned decimal number: an optional `+`, then at least one digit,
/// with a value that fits in `usize`.
pub open spec fn unsigned_of(s: Seq<u8>) -> Option<usize> {
    digits_value(unsigned_digits(s))
}

pub open spec fn word_right() -> Seq<u8> {
    seq![('r' as u8), ('i' as u8), ('g' as u8), ('h' as u8), ('t' as u8)]
}

pub open spec fn word_left() -> Seq<u8> {
    seq![('l' as u8), ('e' as u8), ('f' as u8), ('t' as u8)]
}

pub open spec fn word_up() -> Seq<u8> {
    seq![('u' as u8), ('p' as u8)]
}

pub open spec fn word_down() -> Seq<u8> {
    seq![('d' as u8), ('o' as u8), ('w' as u8), ('n' as u8)]
}

pub open spec fn word_connect() -> Seq<u8> {
    seq![('/' as u8), ('c' as u8), ('o' as u8), ('n' as u8), ('n' as u8), ('e' as u8), ('c' as u8), ('t' as u8)]
}

pub open spec fn word_stop() -> Seq<u8> {
    seq![('/' as u8), ('s' as u8), ('t' as u8), ('o' as u8), ('p' as u8)]
}

pub open spec fn word_direction() -> Seq<u8> {
    seq![('/' as u8), ('d' as u8), ('i' as u8), ('r' as u8), ('e' as u8), ('c' as u8), ('t' as u8), ('i' as u8), ('o' as u8), ('n' as u8)]
}

/// The heading that a word names.
pub open spec fn direction_of(s: Seq<u8>) -> Option<Direction> {
    if s == word_right() {
        Some(Direction::RIGHT)
    } else if s == word_left() {
        Some(Direction::LEFT)
    } else if s == word_up() {
        Some(Direction::UP)
    } else if s == word_down() {
        Some(Direction::DOWN)
    } else {
        None
    }
}

/// A frame read as a command: blanks around it are dropped, the first space
/// parts the command word from its argument.
pub open spec fn command_of(text: Seq<u8>) -> Command {
    let t = trim(text);
    let k = first_space(t);
    let word = t.subrange(0, k);
    let arg = if k < t.len() {
        Some(t.subrange(k + 1, t.len() as int))
    } else {
        None
    };
    if word == word_connect() {
        Command::Connect(
            match arg {
                Some(a) => unsigned_of(a),
                None => None,
            },
        )
    } else if word == word_stop() {
        Command::Stop
    } else if word == word_direction() {
        Command::Direction(
            match arg {
                Some(a) => direction_of(a),
                None => None,
            },
        )
    } else {
        Command::Unrecognized
    }
}

proof fn lemma_first_space_bounds(s: Seq<u8>)
    ensures
        0 <= first_space(s) <= s.len(),
        first_space(s) < s.len() ==> s[first_space(s)] == 32,
    decreases s.len(),
{
    if s.len() > 0 && s[0] != 32 {
        lemma_first_space_bounds(s.drop_first());
    }
}

proof fn lemma_decimal_prefix(s: Seq<u8>, i: int)
    requires
        0 <= i <= s.len(),
        forall|j: int| 0 <= j < s.len() ==> is_digit(#[trigger] s[j]),
    ensures
        decimal_value(s.subrange(0, i)) <= decimal_value(s),
    decreases s.len(),
{
    if i < s.len() {
        let t = s.drop_last();
        assert(s.subrange(0, i) =~= t.subrange(0, i));
        lemma_decimal_prefix(t, i);
    } else {
        assert(s.subrange(0, i) =~= s);
    }
}

/// Whether `s[lo..hi]` is exactly `word`.
fn slice_equals(s: &[u8], lo: usize, hi: usize, word: &Vec<u8>) -> (r: bool)
    requires
        lo <= hi <= s@.len(),
    ensures
        r == (s@.subrange(lo as int, hi as int) == word@),
{
    if hi - lo != word.len() {
        proof {
            assert(s@.subrange(lo as int, hi as int).len() != word@.len());
        }
        return false;
    }
    let mut i: usize = 0;
    while i < word.len()
        invariant
            i <= word@.len(),
            hi - lo == word@.len(),
            lo <= hi <= s@.len(),
            forall|j: int| 0 <= j < i ==> s@[lo + j] == word@[j],
        decreases word@.len() - i,
    {
        if s[lo + i] != word[i] {
            proof {
                assert(s@.subrange(lo as int, hi as int)[i as int] != word@[i as int]);
            }
            return false;
        }
        i = i + 1;
    }
    proof {
        assert(s@.subrange(lo as int, hi as int) =~= word@);
    }
    true
}

/// Reads `s[lo..hi]` as an unsigned decimal number.
fn parse_unsigned(s: &[u8], lo: usize, hi: usize) -> (r: Option<usize>)
    requires
        lo <= hi <= s@.len(),
    ensures
        r == unsigned_of(s@.subrange(lo as int, hi as int)),
{
    let ghost a = s@.subrange(lo as int, hi as int);
    let start: usize = if lo < hi && s[lo] == ('+' as u8) {
        lo + 1
    } else {
        lo
    };
    let ghost d = s@.subrange(start as int, hi as int);
    proof {
        if lo < hi && s@[lo as int] == 43 {
            assert(d =~= a.drop_first());
        } else {
            assert(d =~= a);
        }
    }
    if start == hi {
        return None;
    }
    let mut v: usize = 0;
    let mut i: usize = start;
    while i < hi
        invariant
            start <= i <= hi <= s@.len(),
            lo <= start,
            d == s@.subrange(start as int, hi as int),
            a == s@.subrange(lo as int, hi as int),
            d == unsigned_digits(a),
            forall|j: int| start <= j < i ==> is_digit(#[trigger] s@[j]),
            v as nat == decimal_value(s@.subrange(start as int, i as int)),
        decreases hi - i,
    {
        let b = s[i];
        if b < ('0' as u8) || b > ('9' as u8) {
            proof {
                assert(!is_digit(d[i - start]));
            }
            return None;
        }
        let digit: usize = (b - ('0' as u8)) as usize;
        proof {
            let p = s@.subrange(start as int, i + 1);
            assert(p.drop_last() =~= s@.subrange(start as int, i as int));
        }
        if v > (usize::MAX - digit) / 10 {
            proof {
                let p = s@.subrange(start as int, i + 1);
                assert(decimal_value(p) > usize::MAX) by (nonlinear_arith)
                    requires
                        decimal_value(p) == v * 10 + digit,
                        v > (usize::MAX - digit) / 10,
                        digit <= 9,
                ;
                if all_digits(d) {
                    lemma_decimal_prefix(d, i + 1 - start);
                    assert(d.subrange(0, i + 1 - start) =~= p);
                }
            }
            return None;
        }
        v = v * 10 + digit;
        i = i + 1;
    }
    proof {
        assert(s@.subrange(start as int, i as int) =~= d);
    }
    Some(v)
}

/// Reads `s[lo..hi]` as a heading.
fn parse_heading(s: &[u8], lo: usize, hi: usize) -> (r: Option<Direction>)
    requires
        lo <= hi <= s@.len(),
    ensures
        r == direction_of(s@.subrange(lo as int, hi as int)),
{
    if slice_equals(s, lo, hi, &vec![('r' as u8), ('i' as u8), ('g' as u8), ('h' as u8), ('t' as u8)]) {
        Some(Direction::RIGHT)
    } else if slice_equals(s, lo, hi, &vec![('l' as u8), ('e' as u8), ('f' as u8), ('t' as u8)]) {
        Some(Direction::LEFT)
    } else if slice_equals(s, lo, hi, &vec![('u' as u8), ('p' as u8)]) {
        Some(Direction::UP)
    } else if slice_equals(s, lo, hi, &vec![('d' as u8), ('o' as u8), ('w' as u8), ('n' as u8)]) {
        Some(Direction::DOWN)
    } else {
        None
    }
}

/// The length in bytes of the white space character at `s[lo..hi]`'s start.
fn leading_blank(s: &[u8], lo: usize, hi: usize) -> (r: usize)
    requires
        lo <= hi <= s@.len(),
    ensures
        r == leading_blank_len(s@.subrange(lo as int, hi as int)),
        r <= hi - lo,
{
    let n = hi - lo;
    if n >= 1 && (s[lo] == 32 || (s[lo] >= 9 && s[lo] <= 13)) {
        1
    } else if n >= 2 && s[lo] == 0xC2 && (s[lo + 1] == 0x85 || s[lo + 1] == 0xA0) {
        2
    } else if n >= 3 && blank3(s[lo], s[lo + 1], s[lo + 2]) {
        3
    } else {
        0
    }
}

/// The length in bytes of the white space character at `s[lo..hi]`'s end.
fn trailing_blank(s: &[u8], lo: usize, hi: usize) -> (r: usize)
    requires
        lo <= hi <= s@.len(),
    ensures
        r == trailing_blank_len(s@.subrange(lo as int, hi as int)),
        r <= hi - lo,
{
    let n = hi - lo;
    if n >= 1 && (s[hi - 1] == 32 || (s[hi - 1] >= 9 && s[hi - 1] <= 13)) {
        1
    } else if n >= 2 && s[hi - 2] == 0xC2 && (s[hi - 1] == 0x85 || s[hi - 1] == 0xA0) {
        2
    } else if n >= 3 && blank3(s[hi - 3], s[hi - 2], s[hi - 1]) {
        3
    } else {
        0
    }
}

fn blank3(a: u8, b: u8, c: u8) -> (r: bool)
    ensures
        r == is_blank3(a, b, c),
{
    (a == 0xE1 && b == 0x9A && c == 0x80) || (a == 0xE2 && b == 0x80 && ((0x80 <= c && c
        <= 0x8A) || c == 0xA8 || c == 0xA9 || c == 0xAF)) || (a == 0xE2 && b == 0x81 && c
        == 0x9F) || (a == 0xE3 && b == 0x80 && c == 0x80)
}

/// The bounds of `text` without the white space that leads and trails it.
fn trim_bounds(text: &[u8]) -> (r: (usize, usize))
    ensures
        r.0 <= r.1 <= text@.len(),
        text@.subrange(r.0 as int, r.1 as int) == trim(text@),
{
    let n = text.len();
    let mut lo: usize = 0;
    proof {
        assert(text@.subrange(0, n as int) =~= text@);
    }
    let mut k = leading_blank(text, lo, n);
    while k > 0
        invariant
            lo <= n == text@.len(),
            k == leading_blank_len(text@.subrange(lo as int, n as int)),
            k <= n - lo,
            trim_start(text@) == trim_start(text@.subrange(lo as int, n as int)),
        decreases n - lo,
    {
        proof {
            assert(text@.subrange(lo as int, n as int).subrange(k as int, n - lo) =~= text@.subrange(
                lo + k,
                n as int,
            ));
        }
        lo = lo + k;
        k = leading_blank(text, lo, n);
    }
    let ghost front = text@.subrange(lo as int, n as int);
    proof {
        assert(trim_start(front) == front);
    }
    let mut hi: usize = n;
    let mut k = trailing_blank(text, lo, hi);
    while k > 0
        invariant
            lo <= hi <= n == text@.len(),
            k == trailing_blank_len(text@.subrange(lo as int, hi as int)),
            k <= hi - lo,
            front == text@.subrange(lo as int, n as int),
            trim_end(front) == trim_end(text@.subrange(lo as int, hi as int)),
        decreases hi - lo,
    {
        proof {
            assert(text@.subrange(lo as int, hi as int).subrange(0, hi - lo - k) =~= text@.subrange(
                lo as int,
                hi - k,
            ));
        }
        hi = hi - k;
        k = trailing_blank(text, lo, hi);
    }
    (lo, hi)
}

/// Reads a text frame as a command.
pub fn parse_command(text: &[u8]) -> (r: Command)
    ensures
        r == command_of(text@),
{
    let (lo, hi) = trim_bounds(text);
    let ghost t = text@.subrange(lo as int, hi as int);
    let mut k: usize = lo;
    proof {
        assert(text@.subrange(k as int, hi as int) =~= t);
    }
    while k < hi && text[k] != (' ' as u8)
        invariant
            lo <= k <= hi <= text@.len(),
            t == text@.subrange(lo as int, hi as int),
            first_space(t) == (k - lo) + first_space(text@.subrange(k as int, hi as int)),
        decreases hi - k,
    {
        proof {
            assert(text@.subrange(k as int, hi as int).drop_first() =~= text@.subrange(
                k + 1,
                hi as int,
            ));
        }
        k = k + 1;
    }
    proof {
        lemma_first_space_bounds(t);
        assert(first_space(t) == k - lo);
        assert(t.subrange(0, k - lo) =~= text@.subrange(lo as int, k as int));
        if k < hi {
            assert(t.subrange(k - lo + 1, t.len() as int) =~= text@.subrange(k + 1, hi as int));
        }
    }
    if slice_equals(text, lo, k, &vec![('/' as u8), ('c' as u8), ('o' as u8), ('n' as u8), ('n' as u8), ('e' as u8), ('c' as u8), ('t' as u8)]) {
        if k < hi {
            Command::Connect(parse_unsigned(text, k + 1, hi))
        } else {
            Command::Connect(None)
        }
    } else if slice_equals(text, lo, k, &vec![('/' as u8), ('s' as u8), ('t' as u8), ('o' as u8), ('p' as u8)]) {
        Command::Stop
    } else if slice_equals(
        text,
        lo,
        k,
        &vec![('/' as u8), ('d' as u8), ('i' as u8), ('r' as u8), ('e' as u8), ('c' as u8), ('t' as u8), ('i' as u8), ('o' as u8), ('n' as u8)],
    ) {
        if k < hi {
            Command::Direction(parse_heading(text, k + 1, hi))
        } else {
            Command::Direction(None)
        }
    } else {
        Command::Unrecognized
    }
}

/// Reads a whole text frame, blanks around it dropped, as a heading.
pub fn parse_direction(text: &[u8]) -> (r: Option<Direction>)
    ensures
        r == direction_of(trim(text@)),
{
    let (lo, hi) = trim_bounds(text);
    parse_heading(text, lo, hi)
}

} // verus!
