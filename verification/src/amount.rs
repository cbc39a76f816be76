//! Fixed-point monetary amounts.
//!
//! An [`Amount`] stores a signed decimal money value exactly, as a
//! magnitude in ten-thousandths of a major unit together with a sign.
//! Four fractional decimal digits are exactly the two minor and two
//! sub-minor digits of the three-tier denomination scheme, so every
//! displayable amount is representable without error.

use vstd::prelude::*;
use vstd::string::StrSliceExecFns;
use vstd::string::StringExecFns;

use crate::numerals::all_digits;
use crate::numerals::dec_digits;
use crate::numerals::digit_char;
use crate::numerals::digit_str;
use crate::numerals::digit_val;
use crate::numerals::digits_val;
use crate::numerals::dot_index;
use crate::numerals::find_dot;
use crate::numerals::is_digit;
use crate::numerals::lemma_digits_val_nonneg;
use crate::numerals::lemma_digits_val_take_step;
use crate::numerals::parse_u64;
use crate::numerals::u64_to_dec;

verus! {

/// A signed decimal money value, exact to ten-thousandths of a major
/// unit: the value is `mag / 10000` major units, negated when `neg`.
#[derive(Clone, Copy, PartialEq, Eq, Structural, Debug)]
pub struct Amount {
    /// Whether the amount is negative.
    pub neg: bool,
    /// Magnitude in ten-thousandths of a major unit.
    pub mag: u64,
}

impl Amount {
    /// Well-formed amounts carry no negative sign on zero, so each
    /// value has one representation.
    pub open spec fn wf(self) -> bool {
        self.neg ==> self.mag > 0
    }

    /// The value in ten-thousandths of a major unit, as an integer.
    pub open spec fn to_int(self) -> int {
        if self.neg {
            -(self.mag as int)
        } else {
            self.mag as int
        }
    }

    /// The amount of a given signed value in ten-thousandths.
    pub open spec fn of_int(v: int) -> Amount {
        Amount { neg: v < 0, mag: (if v < 0 { -v } else { v }) as u64 }
    }

    /// The zero amount.
    pub fn zero() -> (r: Amount)
        ensures
            r.wf(),
            r.to_int() == 0,
    {
        Amount { neg: false, mag: 0 }
    }

    /// A non-negative amount from a magnitude in ten-thousandths.
    pub fn from_mag(mag: u64) -> (r: Amount)
        ensures
            r.wf(),
            r.to_int() == mag as int,
    {
        Amount { neg: false, mag }
    }

    /// The difference `self - other`.
    pub fn minus(self, other: Amount) -> (r: Amount)
        requires
            self.wf(),
            other.wf(),
            -(u64::MAX as int) <= self.to_int() - other.to_int() <= u64::MAX as int,
        ensures
            r.wf(),
            r.to_int() == self.to_int() - other.to_int(),
    {
        if !self.neg && !other.neg {
            if self.mag >= other.mag {
                Amount { neg: false, mag: self.mag - other.mag }
            } else {
                Amount { neg: true, mag: other.mag - self.mag }
            }
        } else if !self.neg && other.neg {
            Amount { neg: false, mag: self.mag + other.mag }
        } else if self.neg && !other.neg {
            Amount { neg: true, mag: self.mag + other.mag }
        } else {
            if other.mag >= self.mag {
                Amount { neg: false, mag: other.mag - self.mag }
            } else {
                Amount { neg: true, mag: self.mag - other.mag }
            }
        }
    }

    /// Renders the amount as a decimal numeral in its shortest form:
    /// no fractional part for whole values, and no trailing fractional
    /// zeros otherwise.
    pub fn to_decimal_string(&self) -> (s: String)
        requires
            self.wf(),
        ensures
            s@ == spec_decimal_string(*self),
    {
        proof {
            reveal_strlit("-");
            reveal_strlit(".");
        }
        let mut s = if self.neg {
            String::from_str("-")
        } else {
            String::new()
        };
        let ip = u64_to_dec(self.mag / 10000);
        s.append(ip.as_str());
        let f = self.mag % 10000;
        if f > 0 {
            s.append(".");
            if f % 1000 == 0 {
                s.append(digit_str(f / 1000));
            } else if f % 100 == 0 {
                s.append(digit_str(f / 1000));
                s.append(digit_str((f / 100) % 10));
            } else if f % 10 == 0 {
                s.append(digit_str(f / 1000));
                s.append(digit_str((f / 100) % 10));
                s.append(digit_str((f / 10) % 10));
            } else {
                s.append(digit_str(f / 1000));
                s.append(digit_str((f / 100) % 10));
                s.append(digit_str((f / 10) % 10));
                s.append(digit_str(f % 10));
            }
        }
        proof {
            assert(s@ =~= spec_decimal_string(*self));
        }
        s
    }
}

/// The shortest digit sequence for a fractional part `f` in
/// `1..=9999` ten-thousandths: four digits with trailing zeros removed.
pub open spec fn frac_digits(f: nat) -> Seq<char> {
    if f % 1000 == 0 {
        seq![digit_char((f / 1000) as int)]
    } else if f % 100 == 0 {
        seq![digit_char((f / 1000) as int), digit_char(((f / 100) % 10) as int)]
    } else if f % 10 == 0 {
        seq![
            digit_char((f / 1000) as int),
            digit_char(((f / 100) % 10) as int),
            digit_char(((f / 10) % 10) as int),
        ]
    } else {
        seq![
            digit_char((f / 1000) as int),
            digit_char(((f / 100) % 10) as int),
            digit_char(((f / 10) % 10) as int),
            digit_char((f % 10) as int),
        ]
    }
}

/// The shortest decimal numeral of an amount: optional sign, integer
/// part, and fractional digits only when the fraction is non-zero.
pub open spec fn spec_decimal_string(a: Amount) -> Seq<char> {
    let sign: Seq<char> = if a.neg {
        seq!['-']
    } else {
        Seq::empty()
    };
    let ip = dec_digits((a.mag / 10000) as nat);
    let f = (a.mag % 10000) as nat;
    if f == 0 {
        sign + ip
    } else {
        sign + ip + seq!['.'] + frac_digits(f)
    }
}

/// The value of a fractional digit text in ten-thousandths: the first
/// four digits, right-padded with zeros; digits beyond the fourth are
/// truncated.
pub open spec fn frac_scaled(fp: Seq<char>) -> int {
    if fp.len() == 1 {
        digits_val(fp) * 1000
    } else if fp.len() == 2 {
        digits_val(fp) * 100
    } else if fp.len() == 3 {
        digits_val(fp) * 10
    } else {
        digits_val(fp.take(4))
    }
}

/// The value, in ten-thousandths, of an unsigned decimal numeral text:
/// a non-empty digit sequence, optionally followed by `'.'` and a
/// non-empty digit sequence.  `None` when the text has another shape.
pub open spec fn spec_parse_unsigned(s: Seq<char>) -> Option<int> {
    let d = dot_index(s);
    if d == s.len() {
        if s.len() > 0 && all_digits(s) {
            Some(digits_val(s) * 10000)
        } else {
            None
        }
    } else {
        let ip = s.take(d);
        let fp = s.skip(d + 1);
        if ip.len() > 0 && all_digits(ip) && fp.len() > 0 && all_digits(fp) {
            Some(digits_val(ip) * 10000 + frac_scaled(fp))
        } else {
            None
        }
    }
}

/// The signed value, in ten-thousandths, of a decimal numeral text: an
/// optional leading `'-'` before an unsigned numeral.
pub open spec fn spec_parse_decimal(s: Seq<char>) -> Option<int> {
    if s.len() > 0 && s[0] == '-' {
        match spec_parse_unsigned(s.skip(1)) {
            Some(v) => Some(-v),
            None => None,
        }
    } else {
        spec_parse_unsigned(s)
    }
}

/// An unsigned numeral never has a negative value.
pub proof fn lemma_parse_unsigned_nonneg(s: Seq<char>)
    ensures
        spec_parse_unsigned(s) matches Some(v) ==> v >= 0,
{
    let d = dot_index(s);
    if d == s.len() {
        if s.len() > 0 && all_digits(s) {
            lemma_digits_val_nonneg(s);
        }
    } else {
        let ip = s.take(d);
        let fp = s.skip(d + 1);
        if ip.len() > 0 && all_digits(ip) && fp.len() > 0 && all_digits(fp) {
            lemma_digits_val_nonneg(ip);
            lemma_frac_scaled_bounds(fp);
        }
    }
}

/// On digit text the fractional value lies in `0..10000`.
pub proof fn lemma_frac_scaled_bounds(fp: Seq<char>)
    requires
        all_digits(fp),
        fp.len() > 0,
    ensures
        0 <= frac_scaled(fp) < 10000,
{
    if fp.len() == 1 {
        lemma_digits_val_bounded(fp, 1);
        lemma_digits_val_nonneg(fp);
    } else if fp.len() == 2 {
        lemma_digits_val_bounded(fp, 2);
        lemma_digits_val_nonneg(fp);
    } else if fp.len() == 3 {
        lemma_digits_val_bounded(fp, 3);
        lemma_digits_val_nonneg(fp);
    } else {
        assert(all_digits(fp.take(4)));
        lemma_digits_val_bounded(fp.take(4), 4);
        lemma_digits_val_nonneg(fp.take(4));
    }
}

/// A digit text of at most `k` digits has value below `10^k`
/// (stated for the small `k` used here).
pub proof fn lemma_digits_val_bounded(s: Seq<char>, k: nat)
    requires
        all_digits(s),
        s.len() <= k,
        k <= 4,
    ensures
        digits_val(s) < pow10(k),
    decreases s.len(),
{
    if s.len() == 0 {
    } else {
        assert(all_digits(s.drop_last()));
        lemma_digits_val_bounded(s.drop_last(), (k - 1) as nat);
        assert(digit_val(s.last()) <= 9);
        lemma_digits_val_nonneg(s.drop_last());
    }
}

/// The value, in ten-thousandths, of a non-negative decimal numeral
/// text whose value fits the `u64` magnitude; `None` for any other
/// text, a negative value, or one too large.
pub open spec fn amount_of_text(s: Seq<char>) -> Option<int> {
    match spec_parse_decimal(s) {
        Some(v) => if 0 <= v <= u64::MAX as int {
            Some(v)
        } else {
            None
        },
        None => None,
    }
}

/// Parses the fractional digit text of a numeral: every character must
/// be a digit; the first four digits give the value in
/// ten-thousandths, and digits beyond the fourth are truncated.
fn parse_frac_scaled(fp: &str) -> (r: Option<u64>)
    ensures
        match r {
            Some(v) => fp@.len() > 0 && all_digits(fp@) && frac_scaled(fp@) == v as int,
            None => fp@.len() == 0 || !all_digits(fp@),
        },
{
    let n = fp.unicode_len();
    if n == 0 {
        return None;
    }
    let mut val: u64 = 0;
    let mut i: usize = 0;
    while i < n
        invariant
            0 <= i <= n,
            all_digits(fp@.take(i as int)),
            val == digits_val(fp@.take(if i < 4 { i as int } else { 4 })),
            val < 10000,
        decreases n - i,
    {
        let c = fp.get_char(i);
        let d = match crate::numerals::digit_of_char(c) {
            Some(d) => d,
            None => {
                proof {
                    assert(!crate::numerals::is_digit(fp@[i as int]));
                }
                return None;
            },
        };
        if i < 4 {
            proof {
                lemma_digits_val_take_step(fp@, i as int);
                assert(all_digits(fp@.take(i as int)));
                lemma_digits_val_bounded(fp@.take(i as int), i as nat);
            }
            val = val * 10 + d;
        }
        i += 1;
    }
    proof {
        assert(fp@.take(n as int) =~= fp@);
    }
    if n == 1 {
        Some(val * 1000)
    } else if n == 2 {
        Some(val * 100)
    } else if n == 3 {
        Some(val * 10)
    } else {
        Some(val)
    }
}

/// Parses an unsigned decimal numeral into ten-thousandths of a major
/// unit, rejecting values whose scaled magnitude does not fit a `u64`.
fn parse_unsigned_scaled(s: &str) -> (r: Option<u64>)
    ensures
        match r {
            Some(m) => spec_parse_unsigned(s@) == Some(m as int),
            None => spec_parse_unsigned(s@) matches Some(v) ==> v > u64::MAX as int,
        },
{
    let n = s.unicode_len();
    let d = find_dot(s);
    proof {
        crate::numerals::lemma_dot_index(s@);
    }
    if d == n {
        let whole = match parse_u64(s) {
            Some(w) => w,
            None => {
                proof {
                    if s@.len() > 0 && all_digits(s@) {
                        lemma_digits_val_nonneg(s@);
                    }
                }
                return None;
            },
        };
        match whole.checked_mul(10000) {
            Some(m) => Some(m),
            None => None,
        }
    } else {
        let ip = s.substring_char(0, d);
        let fp = s.substring_char(d + 1, n);
        proof {
            assert(ip@ =~= s@.take(d as int));
            assert(fp@ =~= s@.skip(d as int + 1));
        }
        let whole = match parse_u64(ip) {
            Some(w) => w,
            None => {
                proof {
                    if ip@.len() > 0 && all_digits(ip@) {
                        lemma_digits_val_nonneg(ip@);
                        if fp@.len() > 0 && all_digits(fp@) {
                            lemma_frac_scaled_bounds(fp@);
                        }
                    }
                }
                return None;
            },
        };
        let frac = match parse_frac_scaled(fp) {
            Some(f) => f,
            None => {
                return None;
            },
        };
        proof {
            lemma_frac_scaled_bounds(fp@);
        }
        match whole.checked_mul(10000) {
            Some(m) => match m.checked_add(frac) {
                Some(t) => Some(t),
                None => None,
            },
            None => None,
        }
    }
}

/// Parses a decimal numeral text, with an optional leading `'-'`, into
/// an exact fixed-point amount.  Digits beyond the fourth fractional
/// digit are truncated, never rounded.  `None` when the text is not a
/// decimal numeral or its magnitude does not fit the representation.
pub fn parse_decimal(s: &str) -> (r: Option<Amount>)
    ensures
        match r {
            Some(a) => a.wf() && spec_parse_decimal(s@) == Some(a.to_int()),
            None => spec_parse_decimal(s@) matches Some(v) ==> !(-(u64::MAX as int) <= v
                <= u64::MAX as int),
        },
{
    let n = s.unicode_len();
    let neg = n > 0 && s.get_char(0) == '-';
    let body = if neg {
        s.substring_char(1, n)
    } else {
        s.substring_char(0, n)
    };
    proof {
        if neg {
            assert(body@ =~= s@.skip(1));
        } else {
            assert(body@ =~= s@);
        }
    }
    match parse_unsigned_scaled(body) {
        Some(m) => {
            proof {
                lemma_parse_unsigned_nonneg(body@);
            }
            Some(Amount { neg: neg && m > 0, mag: m })
        },
        None => {
            proof {
                lemma_parse_unsigned_nonneg(body@);
            }
            None
        },
    }
}

/// The shortest digits of a non-zero fraction are digits, at most
/// four, and read back as the fraction.
pub proof fn lemma_frac_digits_props(f: nat)
    requires
        1 <= f <= 9999,
    ensures
        1 <= frac_digits(f).len() <= 4,
        all_digits(frac_digits(f)),
        frac_scaled(frac_digits(f)) == f,
{
    crate::numerals::lemma_digit_char_val((f / 1000) as int);
    crate::numerals::lemma_digit_char_val(((f / 100) % 10) as int);
    crate::numerals::lemma_digit_char_val(((f / 10) % 10) as int);
    crate::numerals::lemma_digit_char_val((f % 10) as int);
    let fd = frac_digits(f);
    let d1 = digit_char((f / 1000) as int);
    let d2 = digit_char(((f / 100) % 10) as int);
    let d3 = digit_char(((f / 10) % 10) as int);
    let d4 = digit_char((f % 10) as int);
    if f % 1000 == 0 {
        assert(fd =~= seq![d1]);
        assert(fd.drop_last() =~= Seq::<char>::empty());
        assert(digits_val(fd.drop_last()) == 0);
        assert(digits_val(fd) == f / 1000);
    } else if f % 100 == 0 {
        assert(fd =~= seq![d1, d2]);
        assert(fd.drop_last() =~= seq![d1]);
        assert(fd.drop_last().drop_last() =~= Seq::<char>::empty());
        assert(digits_val(fd.drop_last().drop_last()) == 0);
        assert(digits_val(fd.drop_last()) == f / 1000);
        assert(digits_val(fd) == (f / 1000) * 10 + (f / 100) % 10);
        assert((f / 100) / 10 == f / 1000);
        assert((f / 1000) * 10 + (f / 100) % 10 == f / 100);
    } else if f % 10 == 0 {
        assert(fd =~= seq![d1, d2, d3]);
        assert(fd.drop_last() =~= seq![d1, d2]);
        assert(fd.drop_last().drop_last() =~= seq![d1]);
        assert(fd.drop_last().drop_last().drop_last() =~= Seq::<char>::empty());
        assert(digits_val(fd.drop_last().drop_last().drop_last()) == 0);
        assert(digits_val(fd.drop_last().drop_last()) == f / 1000);
        assert(digits_val(fd.drop_last()) == (f / 1000) * 10 + (f / 100) % 10);
        assert((f / 100) / 10 == f / 1000);
        assert(digits_val(fd.drop_last()) == f / 100);
        assert(digits_val(fd) == (f / 100) * 10 + (f / 10) % 10);
        assert((f / 10) / 10 == f / 100);
        assert(digits_val(fd) == f / 10);
    } else {
        assert(fd =~= seq![d1, d2, d3, d4]);
        assert(fd.take(4) =~= fd);
        assert(fd.drop_last() =~= seq![d1, d2, d3]);
        assert(fd.drop_last().drop_last() =~= seq![d1, d2]);
        assert(fd.drop_last().drop_last().drop_last() =~= seq![d1]);
        assert(fd.drop_last().drop_last().drop_last().drop_last() =~= Seq::<char>::empty());
        assert(digits_val(fd.drop_last().drop_last().drop_last().drop_last()) == 0);
        assert(digits_val(fd.drop_last().drop_last().drop_last()) == f / 1000);
        assert(digits_val(fd.drop_last().drop_last()) == (f / 1000) * 10 + (f / 100) % 10);
        assert((f / 100) / 10 == f / 1000);
        assert(digits_val(fd.drop_last().drop_last()) == f / 100);
        assert(digits_val(fd.drop_last()) == (f / 100) * 10 + (f / 10) % 10);
        assert((f / 10) / 10 == f / 100);
        assert(digits_val(fd.drop_last()) == f / 10);
        assert(digits_val(fd) == (f / 10) * 10 + f % 10);
        assert(digits_val(fd) == f);
    }
}

/// Digit text holds no dot, so `dot_index` is its length.
proof fn lemma_all_digits_no_dot(s: Seq<char>)
    requires
        all_digits(s),
    ensures
        dot_index(s) == s.len(),
{
    assert forall|j: int| 0 <= j < s.len() implies s[j] != '.' by {
        assert(is_digit(s[j]));
    }
    crate::numerals::lemma_dot_index_at(s, s.len() as int);
}

/// Formatting is conceptually idempotent on canonical renderings: the
/// shortest decimal text of a well-formed amount parses back to
/// exactly that amount's value, so rendering, parsing and rendering
/// again always reproduces the same text.
pub proof fn lemma_decimal_string_round_trip(a: Amount)
    requires
        a.wf(),
    ensures
        spec_parse_decimal(spec_decimal_string(a)) == Some(a.to_int()),
{
    let mag = a.mag as nat;
    let ipn = mag / 10000;
    let f = mag % 10000;
    crate::numerals::lemma_dec_digits_props(ipn);
    let ip = dec_digits(ipn);
    let s = spec_decimal_string(a);
    if f == 0 {
        let body = ip;
        lemma_all_digits_no_dot(body);
        assert(spec_parse_unsigned(body) == Some(digits_val(body) * 10000));
        if a.neg {
            assert(s =~= seq!['-'] + body);
            assert(s.skip(1) =~= body);
            assert(s[0] == '-');
        } else {
            assert(s =~= body);
            assert(is_digit(s[0]));
            assert(s[0] != '-');
        }
    } else {
        lemma_frac_digits_props(f);
        let fd = frac_digits(f);
        let body = ip + seq!['.'] + fd;
        assert(body[ip.len() as int] == '.');
        assert forall|j: int| 0 <= j < ip.len() implies body[j] != '.' by {
            assert(body[j] == ip[j]);
            assert(is_digit(ip[j]));
        }
        crate::numerals::lemma_dot_index_at(body, ip.len() as int);
        assert(body.take(ip.len() as int) =~= ip);
        assert(body.skip(ip.len() as int + 1) =~= fd);
        assert(spec_parse_unsigned(body) == Some(digits_val(ip) * 10000 + frac_scaled(fd)));
        assert(digits_val(ip) * 10000 + frac_scaled(fd) == mag);
        if a.neg {
            assert(s =~= seq!['-'] + body);
            assert(s.skip(1) =~= body);
            assert(s[0] == '-');
        } else {
            assert(s =~= body);
            assert(is_digit(s[0]));
            assert(s[0] != '-');
        }
    }
}

/// Powers of ten up to `10^4`, as used by the fixed-point scale.
pub open spec fn pow10(k: nat) -> int {
    if k == 0 {
        1
    } else if k == 1 {
        10
    } else if k == 2 {
        100
    } else if k == 3 {
        1000
    } else {
        10000
    }
}

} // verus!
