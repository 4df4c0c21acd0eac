//! Rendering decimal values as text, with an optional precision, digit-group separator,
//! width, alignment and explicit plus sign.
use vstd::prelude::*;

use crate::dec19x19::{div_toward_zero, rem_toward_zero, scale, Dec19x19, FRAC_SCALE_I128};
use crate::i128_ops::mag;
use crate::ops::RoundTo;
use crate::parse::{byte_pos, trim_end_zeros, zeros};
use crate::round::{digits_scale, round_repr};
use crate::text::string_of;

verus! {

/// Where padding goes when a width is set.
#[derive(Clone, Copy, PartialEq, Eq, Structural, Debug)]
pub enum Alignment {
    Left,
    Right,
    Center,
}

/// How to render a value.
#[derive(Clone, Copy, Debug)]
pub struct Formatter {
    /// Inserted between groups of three digits, counted from the decimal point.
    pub separator: Option<char>,
    /// The number of fractional digits: the value is rounded to at most 19, and zeros are
    /// appended up to this count.
    pub precision: Option<usize>,
    /// The least length, in bytes, of the result.
    pub width: Option<usize>,
    pub align: Option<Alignment>,
    pub fill: char,
    /// Whether non-negative values get a `+`.
    pub sign_plus: bool,
}

pub trait Format {
    fn format(&self, f: &mut Formatter) -> String;
}

/// The decimal digit of `d < 10`.
pub open spec fn digit_char(d: int) -> char {
    if d == 0 {
        '0'
    } else if d == 1 {
        '1'
    } else if d == 2 {
        '2'
    } else if d == 3 {
        '3'
    } else if d == 4 {
        '4'
    } else if d == 5 {
        '5'
    } else if d == 6 {
        '6'
    } else if d == 7 {
        '7'
    } else if d == 8 {
        '8'
    } else {
        '9'
    }
}

/// The decimal digit of `d < 10`.
fn digit_of(d: u128) -> (c: char)
    requires
        d < 10,
    ensures
        c == digit_char(d as int),
{
    if d == 0 {
        '0'
    } else if d == 1 {
        '1'
    } else if d == 2 {
        '2'
    } else if d == 3 {
        '3'
    } else if d == 4 {
        '4'
    } else if d == 5 {
        '5'
    } else if d == 6 {
        '6'
    } else if d == 7 {
        '7'
    } else if d == 8 {
        '8'
    } else {
        '9'
    }
}

/// The decimal digits of `n`, without leading zeros (`"0"` for zero).
pub open spec fn decimal(n: nat) -> Seq<char>
    decreases n,
{
    if n < 10 {
        seq![digit_char(n as int)]
    } else {
        decimal(n / 10).push(digit_char((n % 10) as int))
    }
}

/// The integer digits of `s` with `sep` before each digit that starts a group of three,
/// counted from the right, for the first `i` digits.
pub open spec fn group_int(s: Seq<char>, sep: Option<char>, i: int) -> Seq<char>
    decreases i,
{
    if i <= 0 {
        Seq::empty()
    } else {
        let k = i - 1;
        let before = group_int(s, sep, k);
        let with_sep = if k != 0 && (s.len() - k) % 3 == 0 && sep is Some {
            before.push(sep->0)
        } else {
            before
        };
        with_sep.push(s[k])
    }
}

/// The fractional digits of `s` with `sep` after each group of three, for the first `i`.
pub open spec fn group_frac(s: Seq<char>, sep: Option<char>, i: int) -> Seq<char>
    decreases i,
{
    if i <= 0 {
        Seq::empty()
    } else {
        let k = i - 1;
        let before = group_frac(s, sep, k);
        let with_sep = if k > 0 && k % 3 == 0 && sep is Some {
            before.push(sep->0)
        } else {
            before
        };
        with_sep.push(s[k])
    }
}

/// `n` copies of `c`.
pub open spec fn repeat(c: char, n: int) -> Seq<char> {
    Seq::new(n as nat, |i: int| c)
}

/// The representation after the precision's rounding.
pub open spec fn shown_repr(v: int, f: Formatter) -> int {
    match f.precision {
        Some(p) => round_repr(v, digits_scale(if p > 19 { 19 } else { p as int })),
        None => v,
    }
}

/// The fractional digits shown: 19 zero-padded digits without trailing zeros, then zeros up
/// to the precision.
pub open spec fn frac_digits(v: int, f: Formatter) -> Seq<char> {
    let fp = mag(rem_toward_zero(v, scale()));
    let d = decimal(fp as nat);
    let stripped = trim_end_zeros(zeros(19 - d.len()) + d);
    match f.precision {
        Some(p) => if stripped.len() < p {
            stripped + zeros(p - stripped.len())
        } else {
            stripped
        },
        None => stripped,
    }
}

/// The text before padding.
pub open spec fn unpadded(v: int, f: Formatter) -> Seq<char> {
    let int_str = decimal(mag(div_toward_zero(v, scale())) as nat);
    let frac_str = frac_digits(v, f);
    let sign = if v < 0 {
        seq!['-']
    } else if f.sign_plus {
        seq!['+']
    } else {
        Seq::empty()
    };
    let int_text = group_int(int_str, f.separator, int_str.len() as int);
    let frac_text = if frac_str.len() > 0 {
        seq!['.'] + group_frac(frac_str, f.separator, frac_str.len() as int)
    } else {
        Seq::empty()
    };
    sign + int_text + frac_text
}

/// `s` padded with the fill to the width: on the left when right-aligned or unaligned, on the
/// right when left-aligned, split (the smaller half first) when centered.
pub open spec fn padded(s: Seq<char>, f: Formatter) -> Seq<char> {
    match f.width {
        None => s,
        Some(w) => {
            let size = byte_pos(s, s.len() as int);
            let p = if w > size { w - size } else { 0 };
            match f.align {
                Some(Alignment::Left) => s + repeat(f.fill, p),
                Some(Alignment::Center) => repeat(f.fill, p / 2) + s + repeat(f.fill, p - p / 2),
                _ => repeat(f.fill, p) + s,
            }
        },
    }
}

/// The text of the value whose representation is `v`.
pub open spec fn format_spec(v: int, f: Formatter) -> Seq<char> {
    padded(unpadded(shown_repr(v, f), f), f)
}

/// The decimal digits of `n`.
pub fn decimal_chars(n: u128) -> (r: Vec<char>)
    ensures
        r@ == decimal(n as nat),
    decreases n,
{
    if n < 10 {
        let mut v: Vec<char> = Vec::new();
        v.push(digit_of(n));
        assert(v@ =~= decimal(n as nat));
        v
    } else {
        let mut v = decimal_chars(n / 10);
        v.push(digit_of(n % 10));
        v
    }
}

/// Appends `n` copies of `c`.
fn push_repeat(v: &mut Vec<char>, c: char, n: usize)
    ensures
        final(v)@ == old(v)@ + repeat(c, n as int),
{
    let ghost start = v@;
    let mut i: usize = 0;
    while i < n
        invariant
            i <= n,
            v@ == start + repeat(c, i as int),
        decreases n - i,
    {
        v.push(c);
        i = i + 1;
        assert(v@ =~= start + repeat(c, i as int));
    }
}

pub proof fn lemma_decimal_len(n: nat)
    requires
        n < 10_000_000_000_000_000_000,
    ensures
        1 <= decimal(n).len() <= 19,
{
    crate::i128_ops::lemma_pow10_table();
    lemma_decimal_len_bound(n, 19);
}

pub proof fn lemma_decimal_len_bound(n: nat, k: nat)
    requires
        k >= 1,
        n < crate::i128_ops::pow10(k),
    ensures
        1 <= decimal(n).len() <= k,
    decreases n,
{
    if n >= 10 {
        assert(k >= 2) by {
            if k == 1 {
                assert(crate::i128_ops::pow10(1) == 10) by {
                    reveal_with_fuel(crate::i128_ops::pow10, 2);
                }
            }
        }
        assert(n / 10 < crate::i128_ops::pow10((k - 1) as nat));
        lemma_decimal_len_bound(n / 10, (k - 1) as nat);
    }
}

/// `s` without its trailing zeros.
fn trim_trailing_zeros(s: &Vec<char>) -> (r: Vec<char>)
    ensures
        r@ == trim_end_zeros(s@),
{
    let mut n: usize = s.len();
    assert(s@.take(s@.len() as int) =~= s@);
    while n > 0 && s[n - 1] == '0'
        invariant
            n <= s@.len(),
            trim_end_zeros(s@) == trim_end_zeros(s@.take(n as int)),
        decreases n,
    {
        assert(s@.take(n as int).drop_last() =~= s@.take(n as int - 1));
        n = n - 1;
    }
    let mut r: Vec<char> = Vec::new();
    let mut i: usize = 0;
    while i < n
        invariant
            i <= n <= s@.len(),
            r@ == s@.take(i as int),
        decreases n - i,
    {
        r.push(s[i]);
        i = i + 1;
        assert(r@ =~= s@.take(i as int));
    }
    r
}

impl Format for Dec19x19 {
    /// Renders the value as [`format_spec`] says.
    fn format(&self, f: &mut Formatter) -> (r: String)
        ensures
            r@ == format_spec(self.repr as int, *old(f)),
            *final(f) == *old(f),
    {
        let this = match f.precision {
            Some(p) => self.round_to(if p > 19 { 19 } else { p as i64 }),
            None => *self,
        };
        assert(this.repr == shown_repr(self.repr as int, *f));
        let int_part = this.repr / FRAC_SCALE_I128;
        let frac_rem = this.repr % FRAC_SCALE_I128;
        let frac_part: u128 = if frac_rem < 0 { (-frac_rem) as u128 } else { frac_rem as u128 };
        assert(frac_part == mag(rem_toward_zero(this.repr as int, scale())));
        let fd = decimal_chars(frac_part);
        proof {
            lemma_decimal_len(frac_part as nat);
        }
        let mut frac_full: Vec<char> = Vec::new();
        push_repeat(&mut frac_full, '0', 19 - fd.len());
        let ghost lead = frac_full@;
        let mut i: usize = 0;
        while i < fd.len()
            invariant
                i <= fd@.len(),
                frac_full@ == lead + fd@.take(i as int),
            decreases fd@.len() - i,
        {
            frac_full.push(fd[i]);
            i = i + 1;
            assert(frac_full@ =~= lead + fd@.take(i as int));
        }
        assert(fd@.take(fd@.len() as int) =~= fd@);
        assert(lead =~= zeros(19 - fd@.len()));
        let mut frac_str = trim_trailing_zeros(&frac_full);
        if let Some(prec) = f.precision {
            if frac_str.len() < prec {
                let zeros_needed = prec - frac_str.len();
                push_repeat(&mut frac_str, '0', zeros_needed);
                assert(repeat('0', zeros_needed as int) =~= zeros(zeros_needed as int));
            }
        }
        assert(frac_str@ == frac_digits(this.repr as int, *f));
        let int_abs: u128 = if int_part < 0 { (-int_part) as u128 } else { int_part as u128 };
        assert(int_abs == mag(div_toward_zero(this.repr as int, scale())));
        let int_str = decimal_chars(int_abs);
        let int_str_len = int_str.len();
        let mut result: Vec<char> = Vec::new();
        if this.repr < 0 {
            result.push('-');
        } else if f.sign_plus {
            result.push('+');
        }
        let ghost sign = result@;
        let mut i: usize = 0;
        while i < int_str_len
            invariant
                int_str_len == int_str@.len(),
                i <= int_str_len,
                result@ == sign + group_int(int_str@, f.separator, i as int),
            decreases int_str_len - i,
        {
            let j = int_str_len - i;
            if i != 0 && j > 0 && j % 3 == 0 {
                if let Some(sep) = f.separator {
                    result.push(sep);
                }
            }
            result.push(int_str[i]);
            i = i + 1;
            assert(result@ =~= sign + group_int(int_str@, f.separator, i as int));
        }
        let ghost head = result@;
        if frac_str.len() > 0 {
            result.push('.');
            let mut i: usize = 0;
            while i < frac_str.len()
                invariant
                    i <= frac_str@.len(),
                    result@ == head + seq!['.'] + group_frac(frac_str@, f.separator, i as int),
                decreases frac_str@.len() - i,
            {
                if i > 0 && i % 3 == 0 {
                    if let Some(sep) = f.separator {
                        result.push(sep);
                    }
                }
                result.push(frac_str[i]);
                i = i + 1;
                assert(result@ =~= head + seq!['.'] + group_frac(frac_str@, f.separator, i as int));
            }
            assert(result@ =~= head + (seq!['.'] + group_frac(frac_str@, f.separator, frac_str@.len() as int)));
        } else {
            assert(result@ =~= head + Seq::<char>::empty());
        }
        assert(result@ =~= unpadded(this.repr as int, *f));
        let out = match f.width {
            None => result,
            Some(width) => {
                let size = crate::parse::byte_position(&result, result.len());
                assert(result@.take(result@.len() as int) =~= result@);
                let padding = if width > size { width - size } else { 0 };
                let mut out: Vec<char> = Vec::new();
                match f.align {
                    Some(Alignment::Left) => {
                        push_all(&mut out, &result);
                        push_repeat(&mut out, f.fill, padding);
                    },
                    Some(Alignment::Center) => {
                        let left_padding = padding / 2;
                        let right_padding = padding - left_padding;
                        push_repeat(&mut out, f.fill, left_padding);
                        push_all(&mut out, &result);
                        push_repeat(&mut out, f.fill, right_padding);
                    },
                    _ => {
                        push_repeat(&mut out, f.fill, padding);
                        push_all(&mut out, &result);
                    },
                }
                assert(out@ =~= padded(result@, *f));
                out
            },
        };
        string_of(&out)
    }
}

/// Appends all of `src`.
fn push_all(v: &mut Vec<char>, src: &Vec<char>)
    ensures
        final(v)@ == old(v)@ + src@,
{
    let ghost start = v@;
    let mut i: usize = 0;
    while i < src.len()
        invariant
            i <= src@.len(),
            v@ == start + src@.take(i as int),
        decreases src@.len() - i,
    {
        v.push(src[i]);
        i = i + 1;
        assert(v@ =~= start + src@.take(i as int));
    }
    assert(src@.take(src@.len() as int) =~= src@);
}

/// The configuration of plain rendering: no separator, precision or width.
pub open spec fn default_formatter() -> Formatter {
    Formatter {
        separator: None,
        precision: None,
        width: None,
        align: None,
        fill: ' ',
        sign_plus: false,
    }
}

impl Formatter {
    /// No separator, precision or width; a space as fill and no plus sign.
    pub fn plain() -> (r: Formatter)
        ensures
            r == default_formatter(),
    {
        Formatter {
            separator: None,
            precision: None,
            width: None,
            align: None,
            fill: ' ',
            sign_plus: false,
        }
    }
}

impl Dec19x19 {
    /// The plain text of the value: digits, and a `.` and fractional digits without trailing
    /// zeros where the value is not an integer.
    pub fn to_decimal_string(&self) -> (r: String)
        ensures
            r@ == format_spec(self.repr as int, default_formatter()),
    {
        let mut f = Formatter::plain();
        self.format(&mut f)
    }
}

} // verus!
