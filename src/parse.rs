//! Parsing decimal strings: `[+-] digits [. digits] [e [+-] digits]`, with underscores and
//! spaces ignored and surrounding whitespace trimmed.
use vstd::prelude::*;

use crate::dec19x19::{in_range, scale, FRAC_SCALE_I128};
use crate::i128_ops::mag;
use crate::text::{
    chars_of, digits_value, int_literal, is_digit, is_whitespace, is_ws, parse_i128, parses_as_i128, string_of, utf8_len,
    utf8_size,
};

verus! {

/// The number of digits after the decimal point.
pub const FRAC_PLACES: u32 = 19;

/// Why a string is not a decimal value.
#[derive(Debug, PartialEq, Eq)]
pub enum ParseDec19x19Error {
    /// The integer part, the fractional part or the exponent is not an `i128` literal.
    ParseIntError(core::num::ParseIntError),
    /// The value is outside `MIN..=MAX`.
    OutOfBounds,
    /// More than 19 fractional digits remain after applying the exponent.
    TooPrecise,
    /// A second exponent marker or decimal point, at the given byte position.
    InvalidChar { char: char, pos: usize },
}

impl From<core::num::ParseIntError> for ParseDec19x19Error {
    fn from(err: core::num::ParseIntError) -> (r: Self)
        ensures
            r == ParseDec19x19Error::ParseIntError(err),
    {
        ParseDec19x19Error::ParseIntError(err)
    }
}

impl vstd::std_specs::convert::FromSpecImpl<core::num::ParseIntError> for ParseDec19x19Error {
    open spec fn obeys_from_spec() -> bool {
        true
    }

    open spec fn from_spec(err: core::num::ParseIntError) -> Self {
        ParseDec19x19Error::ParseIntError(err)
    }
}

/// The outcome of parsing, with the integer failure kept abstract.
pub enum ParseOutcome {
    Value(int),
    IntFailure,
    OutOfBounds,
    TooPrecise,
    InvalidChar(char, int),
}

/// `n` zeros.
pub open spec fn zeros(n: int) -> Seq<char> {
    Seq::new(n as nat, |i: int| '0')
}

/// `s` without its leading `'0'`s.
pub open spec fn trim_start_zeros(s: Seq<char>) -> Seq<char>
    decreases s.len(),
{
    if s.len() > 0 && s[0] == '0' {
        trim_start_zeros(s.drop_first())
    } else {
        s
    }
}

/// `s` without its trailing `'0'`s.
pub open spec fn trim_end_zeros(s: Seq<char>) -> Seq<char>
    decreases s.len(),
{
    if s.len() > 0 && s.last() == '0' {
        trim_end_zeros(s.drop_last())
    } else {
        s
    }
}

/// `"0"` in place of an empty string.
pub open spec fn or_zero(s: Seq<char>) -> Seq<char> {
    if s.len() == 0 {
        seq!['0']
    } else {
        s
    }
}

/// The integer and fractional digit strings after moving the decimal point `exp` places to
/// the right (left for a negative `exp`), without leading zeros of the integer part or
/// trailing zeros of the fractional part, and `"0"` for an empty side.
pub open spec fn shift_spec(int_part: Seq<char>, frac_part: Seq<char>, exp: int) -> (
    Seq<char>,
    Seq<char>,
) {
    let (i, f) = if exp > 0 {
        let mc = if exp < frac_part.len() { exp } else { frac_part.len() as int };
        (int_part + frac_part.take(mc) + zeros(exp - mc), frac_part.skip(mc))
    } else if exp < 0 {
        let e = -exp;
        let mc = if e < int_part.len() { e } else { int_part.len() as int };
        (
            int_part.take(int_part.len() - mc),
            zeros(e - mc) + int_part.skip(int_part.len() - mc) + frac_part,
        )
    } else {
        (int_part, frac_part)
    };
    (or_zero(trim_start_zeros(i)), or_zero(trim_end_zeros(f)))
}

/// The index of the first `c` in `s` at or after `from`, or `s.len()`.
pub open spec fn find(s: Seq<char>, c: char, from: int) -> int
    decreases s.len() - from,
{
    if from < 0 || from >= s.len() {
        s.len() as int
    } else if s[from] == c {
        from
    } else {
        find(s, c, from + 1)
    }
}

/// The index of the first exponent marker, `e` or `E`, at or after `from`, or `s.len()`.
pub open spec fn find_exp(s: Seq<char>, from: int) -> int
    decreases s.len() - from,
{
    if from < 0 || from >= s.len() {
        s.len() as int
    } else if s[from] == 'e' || s[from] == 'E' {
        from
    } else {
        find_exp(s, from + 1)
    }
}

/// `s` without underscores and spaces.
pub open spec fn strip_separators(s: Seq<char>) -> Seq<char>
    decreases s.len(),
{
    if s.len() == 0 {
        s
    } else {
        let r = strip_separators(s.drop_last());
        if s.last() == '_' || s.last() == ' ' {
            r
        } else {
            r.push(s.last())
        }
    }
}

/// The number of leading whitespace characters of `s`.
pub open spec fn ws_prefix(s: Seq<char>, from: int) -> int
    decreases s.len() - from,
{
    if from < 0 || from >= s.len() || !is_ws(s[from]) {
        from
    } else {
        ws_prefix(s, from + 1)
    }
}

/// The length of `s` without its trailing whitespace.
pub open spec fn ws_suffix_start(s: Seq<char>, end: int) -> int
    decreases end,
{
    if end <= 0 || end > s.len() || !is_ws(s[end - 1]) {
        end
    } else {
        ws_suffix_start(s, end - 1)
    }
}

/// `s` without underscores and spaces, and without surrounding whitespace.
pub open spec fn clean(s: Seq<char>) -> Seq<char> {
    let t = strip_separators(s);
    let start = ws_prefix(t, 0);
    let end = ws_suffix_start(t, t.len() as int);
    if start >= end {
        Seq::empty()
    } else {
        t.subrange(start, end)
    }
}

/// The byte position of the character at index `n` of `s` in UTF-8, where it fits in a
/// `usize`.
pub open spec fn byte_pos(s: Seq<char>, n: int) -> int {
    let b = utf8_size(s.take(n));
    if b > usize::MAX {
        usize::MAX as int
    } else {
        b
    }
}

/// Whether `c` is a sign.
pub open spec fn is_sign(c: char) -> bool {
    c == '+' || c == '-'
}

/// The index of the first sign in `s` at or after `from`, or `s.len()`.
pub open spec fn find_sign(s: Seq<char>, from: int) -> int
    decreases s.len() - from,
{
    if from < 0 || from >= s.len() {
        s.len() as int
    } else if is_sign(s[from]) {
        from
    } else {
        find_sign(s, from + 1)
    }
}

/// Whether every character of `s` is `'0'`.
pub open spec fn all_zeros(s: Seq<char>) -> bool {
    forall|i: int| 0 <= i < s.len() ==> s[i] == '0'
}

/// What parsing `s` gives.
///
/// The mantissa's leading sign is taken off before the decimal point is moved, and applied to
/// the value at the end; a sign anywhere else in the mantissa is an invalid character. An
/// exponent that moves every digit more than nineteen places right of the point, or leaves
/// more than forty zeros left of it, needs no shifting: such a string is zero when its digits
/// are all zeros, and otherwise too precise (moving left) or not an `i128` (moving right).
pub open spec fn parse_spec(s: Seq<char>) -> ParseOutcome {
    let t = clean(s);
    let i1 = find_exp(t, 0);
    if i1 < t.len() && find_exp(t, i1 + 1) < t.len() {
        ParseOutcome::InvalidChar('e', byte_pos(t, find_exp(t, i1 + 1)))
    } else if i1 < t.len() && !parses_as_i128(t.skip(i1 + 1)) {
        ParseOutcome::IntFailure
    } else {
        let exp = if i1 < t.len() {
            int_literal(t.skip(i1 + 1))->0
        } else {
            0
        };
        let m = t.take(i1);
        let k = if m.len() > 0 && is_sign(m[0]) {
            1int
        } else {
            0
        };
        let neg = m.len() > 0 && m[0] == '-';
        let j = find_sign(m, k);
        let d1 = find(m, '.', k);
        if m.len() <= k {
            ParseOutcome::IntFailure
        } else if j < m.len() {
            ParseOutcome::InvalidChar(m[j], byte_pos(m, j))
        } else if d1 < m.len() && find(m, '.', d1 + 1) < m.len() {
            ParseOutcome::InvalidChar('.', byte_pos(m, find(m, '.', d1 + 1)))
        } else if m.len() + 64 > usize::MAX {
            ParseOutcome::OutOfBounds
        } else {
            let int_part = m.subrange(k, d1);
            let frac_part = if d1 < m.len() {
                m.skip(d1 + 1)
            } else {
                Seq::empty()
            };
            if -exp > int_part.len() + 19 {
                if all_zeros(int_part + frac_part) {
                    ParseOutcome::Value(0)
                } else {
                    ParseOutcome::TooPrecise
                }
            } else if exp > frac_part.len() + 40 {
                if all_zeros(int_part + frac_part) {
                    ParseOutcome::Value(0)
                } else {
                    ParseOutcome::IntFailure
                }
            } else {
                let (i2, f2) = shift_spec(int_part, frac_part, exp);
                if !parses_as_i128(i2) {
                    ParseOutcome::IntFailure
                } else if f2.len() > 19 {
                    ParseOutcome::TooPrecise
                } else {
                    let padded = f2 + zeros(19 - f2.len());
                    if !parses_as_i128(padded) {
                        ParseOutcome::IntFailure
                    } else {
                        let scaled = int_literal(i2)->0 * scale();
                        let fv = int_literal(padded)->0;
                        let repr = if neg {
                            -scaled - fv
                        } else {
                            scaled + fv
                        };
                        if !in_range(scaled) || !in_range(repr) {
                            ParseOutcome::OutOfBounds
                        } else {
                            ParseOutcome::Value(repr)
                        }
                    }
                }
            }
        }
    }
}

/// The outcome that a parse result stands for.
pub open spec fn outcome_of(r: Result<i128, ParseDec19x19Error>) -> ParseOutcome {
    match r {
        Ok(v) => ParseOutcome::Value(v as int),
        Err(ParseDec19x19Error::ParseIntError(_)) => ParseOutcome::IntFailure,
        Err(ParseDec19x19Error::OutOfBounds) => ParseOutcome::OutOfBounds,
        Err(ParseDec19x19Error::TooPrecise) => ParseOutcome::TooPrecise,
        Err(ParseDec19x19Error::InvalidChar { char, pos }) => ParseOutcome::InvalidChar(
            char,
            pos as int,
        ),
    }
}

/// Appends `n` zeros.
fn push_zeros(v: &mut Vec<char>, n: usize)
    ensures
        final(v)@ == old(v)@ + zeros(n as int),
{
    let ghost start = v@;
    let mut i: usize = 0;
    while i < n
        invariant
            i <= n,
            v@ == start + zeros(i as int),
        decreases n - i,
    {
        v.push('0');
        i = i + 1;
        assert(v@ =~= start + zeros(i as int));
    }
}

/// Appends `src[lo..hi]`.
fn push_range(v: &mut Vec<char>, src: &Vec<char>, lo: usize, hi: usize)
    requires
        lo <= hi <= src@.len(),
    ensures
        final(v)@ == old(v)@ + src@.subrange(lo as int, hi as int),
{
    let ghost start = v@;
    let mut i: usize = lo;
    while i < hi
        invariant
            lo <= i <= hi <= src@.len(),
            v@ == start + src@.subrange(lo as int, i as int),
        decreases hi - i,
    {
        v.push(src[i]);
        i = i + 1;
        assert(v@ =~= start + src@.subrange(lo as int, i as int));
    }
}

/// `src[lo..hi]` as a new vector.
fn slice_of(src: &Vec<char>, lo: usize, hi: usize) -> (r: Vec<char>)
    requires
        lo <= hi <= src@.len(),
    ensures
        r@ == src@.subrange(lo as int, hi as int),
{
    let mut r: Vec<char> = Vec::new();
    push_range(&mut r, src, lo, hi);
    assert(r@ =~= src@.subrange(lo as int, hi as int));
    r
}

/// `s` without its leading zeros, or `"0"` where nothing is left.
fn trim_start_zeros_or_zero(s: &Vec<char>) -> (r: Vec<char>)
    ensures
        r@ == or_zero(trim_start_zeros(s@)),
{
    let mut i: usize = 0;
    assert(s@.skip(0) =~= s@);
    while i < s.len() && s[i] == '0'
        invariant
            i <= s@.len(),
            trim_start_zeros(s@) == trim_start_zeros(s@.skip(i as int)),
        decreases s@.len() - i,
    {
        assert(s@.skip(i as int).drop_first() =~= s@.skip(i as int + 1));
        i = i + 1;
    }
    let r = slice_of(s, i, s.len());
    assert(r@ =~= s@.skip(i as int));
    if r.len() == 0 {
        let mut z: Vec<char> = Vec::new();
        z.push('0');
        assert(z@ =~= seq!['0']);
        z
    } else {
        r
    }
}

/// `s` without its trailing zeros, or `"0"` where nothing is left.
fn trim_end_zeros_or_zero(s: &Vec<char>) -> (r: Vec<char>)
    ensures
        r@ == or_zero(trim_end_zeros(s@)),
{
    let mut n: usize = s.len();
    assert(s@.take(s@.len() as int) =~= s@);
    while n > 0 && s[n - 1] == '0'
        invariant
            n <= s@.len(),
            trim_end_zeros(s@) == trim_end_zeros(s@.take(n as int)),
        decreases n,
    {
        assert(s@.take(n as int).drop_last() =~= s@.take(n as int - 1));
        n = n - 1;
    }
    let r = slice_of(s, 0, n);
    assert(r@ =~= s@.take(n as int));
    if r.len() == 0 {
        let mut z: Vec<char> = Vec::new();
        z.push('0');
        assert(z@ =~= seq!['0']);
        z
    } else {
        r
    }
}

/// The digit strings moved by `exp` places, as [`shift_spec`] says.
fn shift_chars(int_part: &Vec<char>, frac_part: &Vec<char>, exp: i128) -> (r: (Vec<char>, Vec<char>))
    requires
        mag(exp as int) <= usize::MAX,
    ensures
        (r.0@, r.1@) == shift_spec(int_part@, frac_part@, exp as int),
{
    let mut i: Vec<char> = Vec::new();
    let mut f: Vec<char> = Vec::new();
    if exp > 0 {
        let e = exp as usize;
        let mc = if e < frac_part.len() { e } else { frac_part.len() };
        push_range(&mut i, int_part, 0, int_part.len());
        push_range(&mut i, frac_part, 0, mc);
        push_zeros(&mut i, e - mc);
        push_range(&mut f, frac_part, mc, frac_part.len());
        assert(i@ =~= int_part@ + frac_part@.take(mc as int) + zeros(exp - mc));
        assert(f@ =~= frac_part@.skip(mc as int));
    } else if exp < 0 {
        let e = (-exp) as usize;
        let mc = if e < int_part.len() { e } else { int_part.len() };
        let cut = int_part.len() - mc;
        push_range(&mut i, int_part, 0, cut);
        push_zeros(&mut f, e - mc);
        push_range(&mut f, int_part, cut, int_part.len());
        push_range(&mut f, frac_part, 0, frac_part.len());
        assert(i@ =~= int_part@.take(cut as int));
        assert(f@ =~= zeros(e - mc) + int_part@.skip(cut as int) + frac_part@);
    } else {
        push_range(&mut i, int_part, 0, int_part.len());
        push_range(&mut f, frac_part, 0, frac_part.len());
        assert(i@ =~= int_part@);
        assert(f@ =~= frac_part@);
    }
    (trim_start_zeros_or_zero(&i), trim_end_zeros_or_zero(&f))
}

/// Moves the decimal point of `int_part.frac_part` by `exp` places to the right (to the left
/// for a negative `exp`), then drops leading zeros of the integer part and trailing zeros of
/// the fractional part; an empty side becomes `"0"`.
pub fn shift_decimal(int_part: &str, frac_part: &str, exp: i128) -> (r: (String, String))
    requires
        mag(exp as int) <= usize::MAX,
    ensures
        (r.0@, r.1@) == shift_spec(int_part@, frac_part@, exp as int),
{
    let iv = chars_of(int_part);
    let fv = chars_of(frac_part);
    let (i, f) = shift_chars(&iv, &fv, exp);
    (string_of(&i), string_of(&f))
}

/// `s` without underscores and spaces.
fn strip_separators_chars(s: &Vec<char>) -> (r: Vec<char>)
    ensures
        r@ == strip_separators(s@),
{
    let mut r: Vec<char> = Vec::new();
    let mut i: usize = 0;
    assert(s@.take(0) =~= Seq::<char>::empty());
    while i < s.len()
        invariant
            i <= s@.len(),
            r@ == strip_separators(s@.take(i as int)),
        decreases s@.len() - i,
    {
        assert(s@.take(i as int + 1).drop_last() =~= s@.take(i as int));
        let c = s[i];
        if c != '_' && c != ' ' {
            r.push(c);
        }
        i = i + 1;
    }
    assert(s@.take(s@.len() as int) =~= s@);
    r
}

/// `s` as [`clean`] says.
fn clean_chars(s: &Vec<char>) -> (r: Vec<char>)
    ensures
        r@ == clean(s@),
{
    let t = strip_separators_chars(s);
    let mut start: usize = 0;
    while start < t.len() && is_whitespace(t[start])
        invariant
            start <= t@.len(),
            ws_prefix(t@, 0) == ws_prefix(t@, start as int),
        decreases t@.len() - start,
    {
        start = start + 1;
    }
    let mut end: usize = t.len();
    while end > 0 && is_whitespace(t[end - 1])
        invariant
            end <= t@.len(),
            ws_suffix_start(t@, t@.len() as int) == ws_suffix_start(t@, end as int),
        decreases end,
    {
        end = end - 1;
    }
    if start >= end {
        Vec::new()
    } else {
        slice_of(&t, start, end)
    }
}

/// The index of the first `c` in `s` at or after `from`, or `s.len()`.
fn find_char(s: &Vec<char>, c: char, from: usize) -> (r: usize)
    ensures
        r == find(s@, c, from as int),
        r <= s@.len(),
        from <= s@.len() ==> from <= r,
{
    let mut i: usize = from;
    if i >= s.len() {
        return s.len();
    }
    while i < s.len() && s[i] != c
        invariant
            from <= i <= s@.len(),
            find(s@, c, from as int) == find(s@, c, i as int),
        decreases s@.len() - i,
    {
        i = i + 1;
    }
    i
}

/// The index of the first `e` or `E` in `s` at or after `from`, or `s.len()`.
fn find_exp_marker(s: &Vec<char>, from: usize) -> (r: usize)
    ensures
        r == find_exp(s@, from as int),
        r <= s@.len(),
        from <= s@.len() ==> from <= r,
{
    let mut i: usize = from;
    if i >= s.len() {
        return s.len();
    }
    while i < s.len() && s[i] != 'e' && s[i] != 'E'
        invariant
            from <= i <= s@.len(),
            find_exp(s@, from as int) == find_exp(s@, i as int),
        decreases s@.len() - i,
    {
        i = i + 1;
    }
    i
}

/// The number of UTF-8 bytes of `c`.
fn char_utf8_len(c: char) -> (r: usize)
    ensures
        r == utf8_len(c),
{
    let u = c as u32;
    if u < 0x80 {
        1
    } else if u < 0x800 {
        2
    } else if u < 0x10000 {
        3
    } else {
        4
    }
}

/// The byte position of index `n` of `s`, as [`byte_pos`] says.
pub(crate) fn byte_position(s: &Vec<char>, n: usize) -> (r: usize)
    requires
        n <= s@.len(),
    ensures
        r == byte_pos(s@, n as int),
{
    let mut size: usize = 0;
    let mut i: usize = 0;
    let mut saturated = false;
    assert(s@.take(0) =~= Seq::<char>::empty());
    while i < n
        invariant
            i <= n <= s@.len(),
            !saturated ==> size == utf8_size(s@.take(i as int)),
            saturated ==> size == usize::MAX && utf8_size(s@.take(i as int)) > usize::MAX,
        decreases n - i,
    {
        assert(s@.take(i as int + 1).drop_last() =~= s@.take(i as int));
        let b = char_utf8_len(s[i]);
        if !saturated && size <= usize::MAX - b {
            size = size + b;
        } else {
            size = usize::MAX;
            saturated = true;
        }
        i = i + 1;
    }
    size
}

/// Whether `s` holds no sign.
pub open spec fn no_sign(s: Seq<char>) -> bool {
    forall|i: int| 0 <= i < s.len() ==> !is_sign(#[trigger] s[i])
}

/// The number of leading `'0'`s of `s`.
pub open spec fn lead_zeros(s: Seq<char>) -> int
    decreases s.len(),
{
    if s.len() > 0 && s[0] == '0' {
        1 + lead_zeros(s.drop_first())
    } else {
        0
    }
}

/// Trimming leading zeros drops a prefix of zeros.
proof fn lemma_trim_start(s: Seq<char>)
    ensures
        0 <= lead_zeros(s) <= s.len(),
        trim_start_zeros(s) == s.skip(lead_zeros(s)),
        forall|i: int| 0 <= i < lead_zeros(s) ==> s[i] == '0',
        lead_zeros(s) < s.len() ==> s[lead_zeros(s)] != '0',
    decreases s.len(),
{
    if s.len() > 0 && s[0] == '0' {
        let d = s.drop_first();
        lemma_trim_start(d);
        let n = lead_zeros(d);
        assert(d.skip(n) =~= s.skip(n + 1));
        assert forall|i: int| 0 <= i < n + 1 implies s[i] == '0' by {
            if i > 0 {
                assert(s[i] == d[i - 1]);
            }
        }
        if n + 1 < s.len() {
            assert(s[n + 1] == d[n]);
        }
    } else {
        assert(s.skip(0) =~= s);
    }
}

/// Trimming trailing zeros keeps a prefix.
proof fn lemma_trim_end_prefix(s: Seq<char>)
    ensures
        trim_end_zeros(s) == s.take(trim_end_zeros(s).len() as int),
        trim_end_zeros(s).len() <= s.len(),
    decreases s.len(),
{
    if s.len() > 0 && s.last() == '0' {
        lemma_trim_end_prefix(s.drop_last());
        let t = trim_end_zeros(s.drop_last());
        assert(s.drop_last().take(t.len() as int) =~= s.take(t.len() as int));
    } else {
        assert(s.take(s.len() as int) =~= s);
    }
}

proof fn lemma_no_sign_sub(s: Seq<char>, lo: int, hi: int)
    requires
        forall|i: int| lo <= i < hi ==> !is_sign(#[trigger] s[i]),
        0 <= lo <= hi <= s.len(),
    ensures
        no_sign(s.subrange(lo, hi)),
{
    assert forall|i: int| 0 <= i < hi - lo implies !is_sign(#[trigger] s.subrange(lo, hi)[i]) by {
        assert(s.subrange(lo, hi)[i] == s[lo + i]);
    }
}

proof fn lemma_no_sign_concat(a: Seq<char>, b: Seq<char>)
    requires
        no_sign(a),
        no_sign(b),
    ensures
        no_sign(a + b),
{
    assert forall|i: int| 0 <= i < (a + b).len() implies !is_sign(#[trigger] (a + b)[i]) by {
        if i < a.len() {
            assert((a + b)[i] == a[i]);
        } else {
            assert((a + b)[i] == b[i - a.len()]);
        }
    }
}

proof fn lemma_zeros_no_sign(n: int)
    requires
        n >= 0,
    ensures
        no_sign(zeros(n)),
{
}

proof fn lemma_trims_no_sign(s: Seq<char>)
    requires
        no_sign(s),
    ensures
        no_sign(or_zero(trim_start_zeros(s))),
        no_sign(or_zero(trim_end_zeros(s))),
{
    lemma_trim_start(s);
    let n = lead_zeros(s);
    lemma_no_sign_sub(s, n, s.len() as int);
    assert(s.skip(n) =~= s.subrange(n, s.len() as int));
    lemma_trim_end_prefix(s);
    let t = trim_end_zeros(s);
    lemma_no_sign_sub(s, 0, t.len() as int);
    assert(s.take(t.len() as int) =~= s.subrange(0, t.len() as int));
    assert(no_sign(seq!['0']));
}

/// Shifting strings without signs gives strings without signs.
proof fn lemma_shift_no_sign(int_part: Seq<char>, frac_part: Seq<char>, exp: int)
    requires
        no_sign(int_part),
        no_sign(frac_part),
    ensures
        no_sign(shift_spec(int_part, frac_part, exp).0),
        no_sign(shift_spec(int_part, frac_part, exp).1),
{
    if exp > 0 {
        let mc = if exp < frac_part.len() { exp } else { frac_part.len() as int };
        lemma_no_sign_sub(frac_part, 0, mc);
        assert(frac_part.take(mc) =~= frac_part.subrange(0, mc));
        lemma_no_sign_concat(int_part, frac_part.take(mc));
        lemma_zeros_no_sign(exp - mc);
        lemma_no_sign_concat(int_part + frac_part.take(mc), zeros(exp - mc));
        lemma_no_sign_sub(frac_part, mc, frac_part.len() as int);
        assert(frac_part.skip(mc) =~= frac_part.subrange(mc, frac_part.len() as int));
        lemma_trims_no_sign(int_part + frac_part.take(mc) + zeros(exp - mc));
        lemma_trims_no_sign(frac_part.skip(mc));
    } else if exp < 0 {
        let e = -exp;
        let mc = if e < int_part.len() { e } else { int_part.len() as int };
        let cut = int_part.len() - mc;
        lemma_no_sign_sub(int_part, 0, cut);
        assert(int_part.take(cut) =~= int_part.subrange(0, cut));
        lemma_no_sign_sub(int_part, cut, int_part.len() as int);
        assert(int_part.skip(cut) =~= int_part.subrange(cut, int_part.len() as int));
        lemma_zeros_no_sign(e - mc);
        lemma_no_sign_concat(zeros(e - mc), int_part.skip(cut));
        lemma_no_sign_concat(zeros(e - mc) + int_part.skip(cut), frac_part);
        lemma_trims_no_sign(int_part.take(cut));
        lemma_trims_no_sign(zeros(e - mc) + int_part.skip(cut) + frac_part);
    } else {
        lemma_trims_no_sign(int_part);
        lemma_trims_no_sign(frac_part);
    }
}

/// Digit strings have non-negative values.
proof fn lemma_digits_nonneg(s: Seq<char>)
    requires
        forall|i: int| 0 <= i < s.len() ==> is_digit(#[trigger] s[i]),
    ensures
        digits_value(s) >= 0,
    decreases s.len(),
{
    if s.len() > 0 {
        lemma_digits_nonneg(s.drop_last());
        assert(is_digit(s[s.len() - 1]));
    }
}

/// A digit string led by a nonzero digit is at least `10^(len - 1)`.
proof fn lemma_digits_lower(s: Seq<char>)
    requires
        s.len() >= 1,
        forall|i: int| 0 <= i < s.len() ==> is_digit(#[trigger] s[i]),
        s[0] != '0',
    ensures
        digits_value(s) >= crate::i128_ops::pow10((s.len() - 1) as nat),
    decreases s.len(),
{
    if s.len() > 1 {
        let d = s.drop_last();
        assert(d[0] == s[0]);
        lemma_digits_lower(d);
        assert(is_digit(s[s.len() - 1]));
        assert(s.last() == s[s.len() - 1]);
        assert(digits_value(s) == 10 * digits_value(d) + (s.last() as int - '0' as int));
        assert(crate::i128_ops::pow10((s.len() - 1) as nat) == 10 * crate::i128_ops::pow10(
            (s.len() - 2) as nat,
        ));
    } else {
        assert(s.drop_last() =~= Seq::<char>::empty());
        assert(crate::i128_ops::pow10(0) == 1);
        assert(is_digit(s[0]));
        assert(s.last() == s[0]);
        assert(digits_value(s) == 10 * digits_value(s.drop_last()) + (s.last() as int - '0' as int));
        assert(digits_value(Seq::<char>::empty()) == 0);
    }
}

/// A string without signs and led by a nonzero character, with forty zeros after it, is not
/// an `i128` literal.
proof fn lemma_long_not_i128(d: Seq<char>)
    requires
        no_sign(d),
        d.len() >= 1,
        d[0] != '0',
    ensures
        !parses_as_i128(d + zeros(40)),
{
    let x = d + zeros(40);
    assert(x[0] == d[0]);
    if forall|i: int| 0 <= i < x.len() ==> is_digit(#[trigger] x[i]) {
        lemma_digits_lower(x);
        crate::i128_ops::lemma_pow10_table();
        crate::i128_ops::lemma_pow10_monotonic(39, (x.len() - 1) as nat);
        assert(!is_sign(x[0]));
    }
}

/// The literal value of a digit string without signs, where it parses, is not negative.
proof fn lemma_unsigned_literal(s: Seq<char>)
    requires
        no_sign(s),
        parses_as_i128(s),
    ensures
        int_literal(s)->0 >= 0,
{
    assert(!is_sign(s[0]));
    lemma_digits_nonneg(s);
}

/// The index of the first sign in `s` at or after `from`, or `s.len()`.
fn find_sign_char(s: &Vec<char>, from: usize) -> (r: usize)
    requires
        from <= s@.len(),
    ensures
        r == find_sign(s@, from as int),
        from <= r <= s@.len(),
        forall|i: int| from <= i < r ==> !is_sign(#[trigger] s@[i]),
{
    let mut i: usize = from;
    while i < s.len() && s[i] != '+' && s[i] != '-'
        invariant
            from <= i <= s@.len(),
            find_sign(s@, from as int) == find_sign(s@, i as int),
            forall|k: int| from <= k < i ==> !is_sign(#[trigger] s@[k]),
        decreases s@.len() - i,
    {
        i = i + 1;
    }
    i
}

/// Whether every character of `s` is `'0'`.
fn only_zeros(s: &Vec<char>) -> (r: bool)
    ensures
        r == all_zeros(s@),
{
    let mut i: usize = 0;
    while i < s.len()
        invariant
            i <= s@.len(),
            forall|k: int| 0 <= k < i ==> s@[k] == '0',
        decreases s@.len() - i,
    {
        if s[i] != '0' {
            return false;
        }
        i = i + 1;
    }
    true
}

/// Parses a decimal string into the representation of its value: the value times `10^19`.
///
/// Underscores and spaces are ignored and surrounding whitespace is trimmed. The string is an
/// optional sign, digits with at most one `.`, and an optional exponent: `e` or `E` and an
/// integer. The exponent moves the decimal point; at most 19 fractional digits may remain.
/// [`parse_spec`] says what each string gives.
#[verifier::rlimit(100)]
pub fn parse_dec19x19_internal(s: &str) -> (r: Result<i128, ParseDec19x19Error>)
    ensures
        outcome_of(r) == parse_spec(s@),
{
    let sv = chars_of(s);
    let t = clean_chars(&sv);
    let i1 = find_exp_marker(&t, 0);
    if i1 < t.len() {
        let i2 = find_exp_marker(&t, i1 + 1);
        if i2 < t.len() {
            return Err(ParseDec19x19Error::InvalidChar { char: 'e', pos: byte_position(&t, i2) });
        }
    }
    let exp: i128 = if i1 < t.len() {
        let exp_chars = slice_of(&t, i1 + 1, t.len());
        let exp_str = string_of(&exp_chars);
        match parse_i128(exp_str.as_str()) {
            Ok(v) => v,
            Err(e) => {
                return Err(ParseDec19x19Error::ParseIntError(e));
            },
        }
    } else {
        0
    };
    let m = slice_of(&t, 0, i1);
    let k: usize = if m.len() > 0 && (m[0] == '+' || m[0] == '-') { 1 } else { 0 };
    let neg = m.len() > 0 && m[0] == '-';
    if m.len() <= k {
        // A mantissa without digits is not an integer literal: take the error that says so.
        let rest = slice_of(&m, m.len(), m.len());
        let rest_str = string_of(&rest);
        if let Err(e) = parse_i128(rest_str.as_str()) {
            return Err(ParseDec19x19Error::ParseIntError(e));
        }
        assert(rest@ =~= Seq::<char>::empty());
    }
    let j = find_sign_char(&m, k);
    if j < m.len() {
        return Err(ParseDec19x19Error::InvalidChar { char: m[j], pos: byte_position(&m, j) });
    }
    let d1 = find_char(&m, '.', k);
    if d1 < m.len() {
        let d2 = find_char(&m, '.', d1 + 1);
        if d2 < m.len() {
            return Err(ParseDec19x19Error::InvalidChar { char: '.', pos: byte_position(&m, d2) });
        }
    }
    if m.len() > usize::MAX - 64 {
        return Err(ParseDec19x19Error::OutOfBounds);
    }
    let int_part = slice_of(&m, k, d1);
    let frac_part = if d1 < m.len() {
        slice_of(&m, d1 + 1, m.len())
    } else {
        Vec::new()
    };
    assert(frac_part@ == (if d1 < m@.len() { m@.skip(d1 + 1) } else { Seq::<char>::empty() }));
    proof {
        lemma_no_sign_sub(m@, k as int, m@.len() as int);
        lemma_no_sign_sub(m@, k as int, d1 as int);
        assert(int_part@ =~= m@.subrange(k as int, d1 as int));
        if d1 < m@.len() {
            lemma_no_sign_sub(m@, d1 + 1, m@.len() as int);
            assert(m@.skip(d1 + 1) =~= m@.subrange(d1 + 1, m@.len() as int));
        }
        assert(no_sign(frac_part@));
    }
    let ilen = int_part.len() as i128;
    let flen = frac_part.len() as i128;
    if exp < -(ilen + 19) {
        let zero = only_zeros(&int_part) && only_zeros(&frac_part);
        proof {
            assert(all_zeros(int_part@ + frac_part@) == (all_zeros(int_part@) && all_zeros(
                frac_part@,
            ))) by {
                if all_zeros(int_part@ + frac_part@) {
                    assert forall|i: int| 0 <= i < frac_part@.len() implies frac_part@[i]
                        == '0' by {
                        assert((int_part@ + frac_part@)[int_part@.len() + i] == frac_part@[i]);
                    }
                    assert forall|i: int| 0 <= i < int_part@.len() implies int_part@[i]
                        == '0' by {
                        assert((int_part@ + frac_part@)[i] == int_part@[i]);
                    }
                }
            }
        }
        if zero {
            return Ok(0);
        } else {
            return Err(ParseDec19x19Error::TooPrecise);
        }
    }
    if exp > flen + 40 {
        let mut digits = slice_of(&int_part, 0, int_part.len());
        push_range(&mut digits, &frac_part, 0, frac_part.len());
        assert(digits@ =~= int_part@ + frac_part@);
        if only_zeros(&digits) {
            return Ok(0);
        }
        let mut long = trim_start_zeros_or_zero(&digits);
        proof {
            lemma_no_sign_concat(int_part@, frac_part@);
            lemma_trim_start(digits@);
            let n = lead_zeros(digits@);
            if n >= digits@.len() {
                assert(all_zeros(digits@));
            }
            lemma_no_sign_sub(digits@, n, digits@.len() as int);
            assert(digits@.skip(n) =~= digits@.subrange(n, digits@.len() as int));
            assert(long@ == digits@.skip(n));
            assert(long@[0] == digits@[n]);
        }
        let ghost lead = long@;
        push_zeros(&mut long, 40);
        proof {
            lemma_long_not_i128(lead);
        }
        let long_str = string_of(&long);
        match parse_i128(long_str.as_str()) {
            Err(e) => {
                return Err(ParseDec19x19Error::ParseIntError(e));
            },
            Ok(_) => {
                return Err(ParseDec19x19Error::OutOfBounds);
            },
        }
    }
    let (i2, f2) = shift_chars(&int_part, &frac_part, exp);
    proof {
        lemma_shift_no_sign(int_part@, frac_part@, exp as int);
    }
    let int_str = string_of(&i2);
    let int_val = match parse_i128(int_str.as_str()) {
        Ok(v) => v,
        Err(e) => {
            return Err(ParseDec19x19Error::ParseIntError(e));
        },
    };
    if f2.len() > 19 {
        return Err(ParseDec19x19Error::TooPrecise);
    }
    let mut padded = slice_of(&f2, 0, f2.len());
    push_zeros(&mut padded, 19 - f2.len());
    assert(padded@ =~= f2@ + zeros(19 - f2@.len()));
    let frac_str = string_of(&padded);
    let frac_val = match parse_i128(frac_str.as_str()) {
        Ok(v) => v,
        Err(e) => {
            return Err(ParseDec19x19Error::ParseIntError(e));
        },
    };
    proof {
        lemma_unsigned_literal(i2@);
        assert(f2@ =~= padded@.take(f2@.len() as int));
        lemma_zeros_no_sign(19 - f2@.len());
        lemma_no_sign_concat(f2@, zeros(19 - f2@.len()));
        lemma_unsigned_literal(padded@);
    }
    let scaled = match int_val.checked_mul(FRAC_SCALE_I128) {
        Some(v) => v,
        None => {
            return Err(ParseDec19x19Error::OutOfBounds);
        },
    };
    let repr = if neg {
        (-scaled).checked_sub(frac_val)
    } else {
        scaled.checked_add(frac_val)
    };
    match repr {
        Some(v) => Ok(v),
        None => Err(ParseDec19x19Error::OutOfBounds),
    }
}

impl crate::dec19x19::Dec19x19 {
    /// Parses a decimal string, as [`parse_dec19x19_internal`] does.
    pub fn parse(s: &str) -> (r: Result<crate::dec19x19::Dec19x19, ParseDec19x19Error>)
        ensures
            outcome_of(
                match r {
                    Ok(d) => Ok(d.repr),
                    Err(e) => Err(e),
                },
            ) == parse_spec(s@),
    {
        match parse_dec19x19_internal(s) {
            Ok(repr) => Ok(crate::dec19x19::Dec19x19 { repr }),
            Err(e) => Err(e),
        }
    }
}

impl core::str::FromStr for crate::dec19x19::Dec19x19 {
    type Err = ParseDec19x19Error;

    fn from_str(s: &str) -> (r: Result<Self, Self::Err>)
        ensures
            outcome_of(
                match r {
                    Ok(d) => Ok(d.repr),
                    Err(e) => Err(e),
                },
            ) == parse_spec(s@),
    {
        Self::parse(s)
    }
}

} // verus!
