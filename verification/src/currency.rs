//! The currency formatter: renders a decimal numeral text as a
//! three-tier denomination string `"<major>g <minor>s <subminor>c"`.
//!
//! The input is the shortest decimal rendering of the value; the
//! integer part is carried over verbatim (including any sign), the
//! first two fractional digits become the minor field and the next two
//! the sub-minor field.  Digits beyond the fourth are truncated, never
//! rounded.

use vstd::prelude::*;
use vstd::string::StrSliceExecFns;
use vstd::string::StringExecFns;

use crate::amount::spec_decimal_string;
use crate::amount::Amount;
use crate::numerals::dot_index;
use crate::numerals::find_dot;
use crate::numerals::lemma_dot_index;

verus! {

/// The denomination text for a numeral already split into integer part
/// `ip` and fractional digit text `fp`.
pub open spec fn gsc_of_parts(ip: Seq<char>, fp: Seq<char>) -> Seq<char> {
    if fp.len() == 0 {
        ip + "g 0s 0c"@
    } else if fp.len() == 1 {
        ip + "g "@ + fp + "0s 0c"@
    } else if fp.len() == 2 {
        ip + "g "@ + fp + "s 0c"@
    } else if fp.len() == 3 {
        ip + "g "@ + fp.take(2) + "s "@ + fp.skip(2) + "0c"@
    } else {
        ip + "g "@ + fp.take(2) + "s "@ + fp.subrange(2, 4) + "c"@
    }
}

/// The denomination text of a decimal numeral text: the integer part
/// is everything before the first `'.'`, the fractional part
/// everything between the first and second `'.'` (if any).
pub open spec fn spec_gsc(s: Seq<char>) -> Seq<char> {
    let d = dot_index(s);
    if d == s.len() {
        gsc_of_parts(s, Seq::empty())
    } else {
        let rest = s.skip(d + 1);
        gsc_of_parts(s.take(d), rest.take(dot_index(rest)))
    }
}

/// Truncation, never rounding: fractional digits beyond the fourth
/// never influence the formatted text.
pub proof fn lemma_gsc_truncates(ip: Seq<char>, fp: Seq<char>)
    requires
        fp.len() >= 4,
    ensures
        gsc_of_parts(ip, fp) == gsc_of_parts(ip, fp.take(4)),
{
    assert(fp.take(4).take(2) =~= fp.take(2));
    assert(fp.take(4).subrange(2, 4) =~= fp.subrange(2, 4));
    assert(gsc_of_parts(ip, fp) =~= gsc_of_parts(ip, fp.take(4)));
}

/// Determinism: any two formatting results for the same input text are
/// the same, so repeated calls are stable.
pub proof fn lemma_gsc_deterministic(s: Seq<char>, r1: Seq<char>, r2: Seq<char>)
    requires
        r1 == spec_gsc(s),
        r2 == spec_gsc(s),
    ensures
        r1 == r2,
{
}

/// Formats a decimal numeral text as a three-tier denomination string.
pub fn decimal_to_gsc(s: &str) -> (r: String)
    ensures
        r@ == spec_gsc(s@),
{
    proof {
        reveal_strlit("g 0s 0c");
        reveal_strlit("g ");
        reveal_strlit("0s 0c");
        reveal_strlit("s 0c");
        reveal_strlit("s ");
        reveal_strlit("0c");
        reveal_strlit("c");
        lemma_dot_index(s@);
    }
    let n = s.unicode_len();
    let d = find_dot(s);
    let ip = s.substring_char(0, d);
    proof {
        assert(ip@ =~= s@.take(d as int));
    }
    let mut out = String::from_str(ip);
    if d == n {
        out.append("g 0s 0c");
        proof {
            assert(s@.take(d as int) =~= s@);
            assert(out@ =~= spec_gsc(s@));
        }
        return out;
    }
    let rest = s.substring_char(d + 1, n);
    proof {
        assert(rest@ =~= s@.skip(d as int + 1));
        lemma_dot_index(rest@);
    }
    let e = find_dot(rest);
    let fp = rest.substring_char(0, e);
    proof {
        assert(fp@ =~= rest@.take(e as int));
    }
    if e == 0 {
        out.append("g 0s 0c");
        proof {
            assert(out@ =~= spec_gsc(s@));
        }
        out
    } else if e == 1 {
        out.append("g ");
        out.append(fp);
        out.append("0s 0c");
        proof {
            assert(out@ =~= spec_gsc(s@));
        }
        out
    } else if e == 2 {
        out.append("g ");
        out.append(fp);
        out.append("s 0c");
        proof {
            assert(out@ =~= spec_gsc(s@));
        }
        out
    } else if e == 3 {
        let minor = fp.substring_char(0, 2);
        let sub = fp.substring_char(2, 3);
        out.append("g ");
        out.append(minor);
        out.append("s ");
        out.append(sub);
        out.append("0c");
        proof {
            assert(minor@ =~= fp@.take(2));
            assert(sub@ =~= fp@.skip(2));
            assert(out@ =~= spec_gsc(s@));
        }
        out
    } else {
        let minor = fp.substring_char(0, 2);
        let sub = fp.substring_char(2, 4);
        out.append("g ");
        out.append(minor);
        out.append("s ");
        out.append(sub);
        out.append("c");
        proof {
            assert(minor@ =~= fp@.take(2));
            assert(sub@ =~= fp@.subrange(2, 4));
            assert(out@ =~= spec_gsc(s@));
        }
        out
    }
}

/// Formats a fixed-point amount: its shortest decimal rendering is fed
/// through the denomination formatter.
pub fn gsc_of_amount(a: &Amount) -> (r: String)
    requires
        a.wf(),
    ensures
        r@ == spec_gsc(spec_decimal_string(*a)),
{
    let s = a.to_decimal_string();
    decimal_to_gsc(s.as_str())
}

} // verus!
