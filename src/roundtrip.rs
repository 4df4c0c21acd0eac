//! Plain rendering and parsing are inverse: parsing the default rendering of a value gives the
//! value back.
use vstd::prelude::*;

use vstd::arithmetic::div_mod::{lemma_fundamental_div_mod, lemma_mod_bound};

use crate::dec19x19::{div_toward_zero, in_range, rem_toward_zero, scale};
use crate::format::{
    decimal, default_formatter, digit_char, format_spec, frac_digits, group_frac, group_int,
    shown_repr, unpadded,
};
use crate::i128_ops::mag;
use crate::parse::{
    clean, find, find_exp, find_sign, is_sign, or_zero, parse_spec, shift_spec, strip_separators, trim_end_zeros,
    trim_start_zeros, ws_prefix, ws_suffix_start, zeros, ParseOutcome,
};
use crate::text::{digits_value, int_literal, is_digit, is_ws, parses_as_i128};

verus! {

/// Without a separator, grouping the integer digits changes nothing.
proof fn lemma_group_int_plain(s: Seq<char>, i: int)
    requires
        0 <= i <= s.len(),
    ensures
        group_int(s, None, i) == s.take(i),
    decreases i,
{
    if i > 0 {
        lemma_group_int_plain(s, i - 1);
        assert(s.take(i - 1).push(s[i - 1]) =~= s.take(i));
    } else {
        assert(s.take(0) =~= Seq::<char>::empty());
    }
}

/// Without a separator, grouping the fractional digits changes nothing.
proof fn lemma_group_frac_plain(s: Seq<char>, i: int)
    requires
        0 <= i <= s.len(),
    ensures
        group_frac(s, None, i) == s.take(i),
    decreases i,
{
    if i > 0 {
        lemma_group_frac_plain(s, i - 1);
        assert(s.take(i - 1).push(s[i - 1]) =~= s.take(i));
    } else {
        assert(s.take(0) =~= Seq::<char>::empty());
    }
}

/// The decimal digits of `n` are digits, start with a nonzero digit unless `n` is zero, and
/// read back as `n`.
proof fn lemma_decimal(n: nat)
    ensures
        decimal(n).len() >= 1,
        forall|i: int| 0 <= i < decimal(n).len() ==> is_digit(#[trigger] decimal(n)[i]),
        n > 0 ==> decimal(n)[0] != '0',
        n == 0 ==> decimal(n) == seq!['0'],
        digits_value(decimal(n)) == n,
    decreases n,
{
    if n < 10 {
        let c = digit_char(n as int);
        assert(decimal(n) == seq![c]);
        assert(seq![c].drop_last() =~= Seq::<char>::empty());
        assert(digits_value(Seq::<char>::empty()) == 0);
        assert(c as int - '0' as int == n);
        assert(digits_value(seq![c]) == 10 * digits_value(seq![c].drop_last()) + (c as int - '0' as int));
    } else {
        lemma_decimal(n / 10);
        let s = decimal(n / 10);
        assert(decimal(n).drop_last() =~= s);
        assert forall|i: int| 0 <= i < decimal(n).len() implies is_digit(#[trigger] decimal(n)[i]) by {
            if i < s.len() {
                assert(decimal(n)[i] == s[i]);
            }
        }
        assert(decimal(n)[0] == s[0]);
    }
}

/// `n` zeros read as zero.
proof fn lemma_zeros_value(k: int)
    requires
        k >= 0,
    ensures
        digits_value(zeros(k)) == 0,
        forall|i: int| 0 <= i < k ==> is_digit(#[trigger] zeros(k)[i]),
    decreases k,
{
    if k > 0 {
        assert(zeros(k).drop_last() =~= zeros(k - 1));
        lemma_zeros_value(k - 1);
    }
}

/// Leading zeros do not change the value of a digit string.
proof fn lemma_leading_zeros_value(k: int, s: Seq<char>)
    requires
        k >= 0,
    ensures
        digits_value(zeros(k) + s) == digits_value(s),
    decreases s.len(),
{
    if s.len() == 0 {
        assert(zeros(k) + s =~= zeros(k));
        lemma_zeros_value(k);
    } else {
        assert((zeros(k) + s).drop_last() =~= zeros(k) + s.drop_last());
        lemma_leading_zeros_value(k, s.drop_last());
    }
}

/// A string is its trailing-zero trim followed by the zeros trimmed.
proof fn lemma_trim_end(w: Seq<char>)
    ensures
        trim_end_zeros(w).len() <= w.len(),
        w =~= trim_end_zeros(w) + zeros(w.len() - trim_end_zeros(w).len()),
        trim_end_zeros(w).len() > 0 ==> trim_end_zeros(w).last() != '0',
    decreases w.len(),
{
    if w.len() > 0 && w.last() == '0' {
        lemma_trim_end(w.drop_last());
        let t = trim_end_zeros(w.drop_last());
        assert(w =~= w.drop_last().push('0'));
        assert(zeros(w.len() - t.len()) =~= zeros(w.drop_last().len() - t.len()).push('0'));
    } else {
        assert(zeros(0) =~= Seq::<char>::empty());
    }
}

/// Without underscores and spaces, stripping separators changes nothing.
proof fn lemma_strip_plain(s: Seq<char>)
    requires
        forall|i: int| 0 <= i < s.len() ==> #[trigger] s[i] != '_' && s[i] != ' ',
    ensures
        strip_separators(s) == s,
    decreases s.len(),
{
    if s.len() > 0 {
        lemma_strip_plain(s.drop_last());
        assert(s.drop_last().push(s.last()) =~= s);
    }
}

/// Searching past positions that do not hold `c`.
proof fn lemma_find_skip(s: Seq<char>, c: char, from: int, to: int)
    requires
        0 <= from <= to <= s.len(),
        forall|i: int| from <= i < to ==> #[trigger] s[i] != c,
    ensures
        find(s, c, from) == find(s, c, to),
    decreases to - from,
{
    if from < to {
        lemma_find_skip(s, c, from + 1, to);
    }
}

/// Searching past positions that hold no exponent marker.
proof fn lemma_find_exp_none(s: Seq<char>, from: int)
    requires
        0 <= from <= s.len(),
        forall|i: int| from <= i < s.len() ==> #[trigger] s[i] != 'e' && s[i] != 'E',
    ensures
        find_exp(s, from) == s.len(),
    decreases s.len() - from,
{
    if from < s.len() {
        lemma_find_exp_none(s, from + 1);
    }
}

/// The characters that plain rendering uses.
pub open spec fn plain_char(c: char) -> bool {
    is_digit(c) || c == '-' || c == '.'
}

/// The nineteen fractional digits of `fp < 10^19`.
pub open spec fn frac19(fp: nat) -> Seq<char> {
    zeros(19 - decimal(fp).len()) + decimal(fp)
}

/// The shown fractional digits, padded back to nineteen, are the nineteen digits, and read
/// back as `fp`.
proof fn lemma_frac_part(fp: nat)
    requires
        fp < 10_000_000_000_000_000_000,
    ensures
        ({
            let w = frac19(fp);
            let fs = trim_end_zeros(w);
            let f2 = or_zero(fs);
            &&& trim_end_zeros(fs) == fs
            &&& forall|i: int| 0 <= i < fs.len() ==> is_digit(#[trigger] fs[i])
            &&& fs.len() <= 19
            &&& f2 + zeros(19 - f2.len()) == w
            &&& parses_as_i128(w)
            &&& int_literal(w) == Some(fp as int)
        }),
{
    let d = decimal(fp);
    lemma_decimal(fp);
    crate::format::lemma_decimal_len(fp);
    let w = frac19(fp);
    let fs = trim_end_zeros(w);
    lemma_trim_end(w);
    lemma_zeros_value(19 - d.len());
    assert forall|i: int| 0 <= i < w.len() implies is_digit(#[trigger] w[i]) by {
        if i < 19 - d.len() {
            assert(w[i] == zeros(19 - d.len())[i]);
        } else {
            assert(w[i] == d[i - (19 - d.len())]);
        }
    }
    lemma_leading_zeros_value(19 - d.len(), d);
    assert forall|i: int| 0 <= i < fs.len() implies is_digit(#[trigger] fs[i]) by {
        assert(w =~= fs + zeros(w.len() - fs.len()));
        assert(fs[i] == w[i]);
    }
    if fs.len() == 0 {
        assert(or_zero(fs) + zeros(18) =~= w);
    } else {
        assert(or_zero(fs) + zeros(19 - fs.len()) =~= w);
    }
    assert(w[0] != '+' && w[0] != '-');
}

/// The integer digits shown for `n`, with leading zeros trimmed, read back as `n`.
proof fn lemma_int_part(n: nat)
    requires
        n <= 17_014_118_346_046_923_173,
    ensures
        parses_as_i128(or_zero(trim_start_zeros(decimal(n)))),
        int_literal(or_zero(trim_start_zeros(decimal(n)))) == Some(n as int),
        decimal(n).len() <= 20,
{
    lemma_decimal(n);
    lemma_decimal_len_20(n);
    let i_str = decimal(n);
    if n == 0 {
        assert(i_str.drop_first() =~= Seq::<char>::empty());
        assert(trim_start_zeros(i_str) == trim_start_zeros(Seq::<char>::empty()));
        assert(seq!['0'].drop_last() =~= Seq::<char>::empty());
        assert(digits_value(seq!['0']) == 0);
    } else {
        assert(trim_start_zeros(i_str) == i_str);
    }
}

/// Parsing the plain rendering of a value gives the value back.
#[verifier::rlimit(100)]
pub proof fn lemma_format_parse_round_trip(v: i128)
    ensures
        parse_spec(format_spec(v as int, default_formatter())) == ParseOutcome::Value(v as int),
{
    let f = default_formatter();
    let s = scale();
    let vi = v as int;
    assert(shown_repr(vi, f) == vi);
    let n = mag(div_toward_zero(vi, s));
    let fp = mag(rem_toward_zero(vi, s));
    lemma_fundamental_div_mod(mag(vi), s);
    lemma_mod_bound(mag(vi), s);
    assert(n == mag(vi) / s && fp == mag(vi) % s);
    assert(n * s + fp == mag(vi));
    assert(n <= 17_014_118_346_046_923_173) by (nonlinear_arith)
        requires
            n == mag(vi) / s,
            mag(vi) <= 170141183460469231731687303715884105728,
            s == 10_000_000_000_000_000_000,
    ;
    let i_str = decimal(n as nat);
    lemma_decimal(n as nat);
    lemma_int_part(n as nat);
    lemma_frac_part(fp as nat);
    let fs = frac_digits(vi, f);
    assert(fs == trim_end_zeros(frac19(fp as nat)));
    // The rendered text.
    let sign: Seq<char> = if vi < 0 { seq!['-'] } else { Seq::empty() };
    lemma_group_int_plain(i_str, i_str.len() as int);
    lemma_group_frac_plain(fs, fs.len() as int);
    assert(i_str.take(i_str.len() as int) =~= i_str);
    assert(fs.take(fs.len() as int) =~= fs);
    let a = sign + i_str;
    let t = if fs.len() > 0 { a + seq!['.'] + fs } else { a };
    assert(unpadded(vi, f) =~= t);
    assert(format_spec(vi, f) == t);
    let k: int = if vi < 0 { 1 } else { 0 };
    assert forall|i: int| 0 <= i < a.len() implies #[trigger] a[i] != '.' && plain_char(a[i])
        && (i >= k ==> is_digit(a[i])) by {
        if vi < 0 && i == 0 {
        } else {
            assert(a[i] == i_str[i - k]);
        }
    }
    assert forall|i: int| 0 <= i < t.len() implies plain_char(#[trigger] t[i]) && (i >= k
        ==> !is_sign(t[i])) by {
        if i < a.len() {
            assert(t[i] == a[i]);
        } else if i > a.len() {
            assert(t[i] == fs[i - a.len() - 1]);
        }
    }
    // Cleaning changes nothing.
    lemma_strip_plain(t);
    assert(!is_ws(t[0]));
    assert(!is_ws(t[t.len() - 1]));
    assert(ws_prefix(t, 0) == 0);
    assert(ws_suffix_start(t, t.len() as int) == t.len());
    assert(t.subrange(0, t.len() as int) =~= t);
    assert(clean(t) == t);
    // No exponent, a sign only in front.
    lemma_find_exp_none(t, 0);
    assert(t.take(t.len() as int) =~= t);
    assert(t.len() > k);
    assert(k == 1 <==> (t.len() > 0 && is_sign(t[0])));
    lemma_find_sign_none(t, k);
    // The decimal point.
    lemma_find_skip(t, '.', k, a.len() as int);
    let frac_part = if fs.len() > 0 { fs } else { Seq::<char>::empty() };
    if fs.len() > 0 {
        assert(t[a.len() as int] == '.');
        assert(find(t, '.', k) == a.len());
        lemma_find_skip(t, '.', a.len() as int + 1, t.len() as int);
        assert(t.skip(a.len() as int + 1) =~= fs);
    } else {
        assert(find(t, '.', k) == t.len());
    }
    assert(t.subrange(k, a.len() as int) =~= i_str);
    assert(t.len() <= 41);
    // Shifting by zero places only trims.
    let (i2, f2) = shift_spec(i_str, frac_part, 0);
    assert(f2 == or_zero(fs));
    assert(f2 + zeros(19 - f2.len()) == frac19(fp as nat));
    let scaled = n * s;
    assert(0 <= n * s) by (nonlinear_arith)
        requires
            n >= 0,
            s > 0,
    ;
    assert(in_range(scaled));
    assert((if vi < 0 { -scaled - fp } else { scaled + fp }) == vi);
}

/// Searching for a sign past positions that hold none.
proof fn lemma_find_sign_none(s: Seq<char>, from: int)
    requires
        0 <= from <= s.len(),
        forall|i: int| from <= i < s.len() ==> !is_sign(#[trigger] s[i]),
    ensures
        find_sign(s, from) == s.len(),
    decreases s.len() - from,
{
    if from < s.len() {
        lemma_find_sign_none(s, from + 1);
    }
}

proof fn lemma_decimal_len_20(n: nat)
    requires
        n < 100_000_000_000_000_000_000,
    ensures
        decimal(n).len() <= 20,
{
    crate::i128_ops::lemma_pow10_table();
    crate::format::lemma_decimal_len_bound(n, 20);
}

} // verus!
