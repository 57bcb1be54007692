//! Floating-point literals as text: the grammar a numeric text must match to
//! count as constant, and value equality between two such literals.
//!
//! A literal is an optional sign followed by `inf`, `infinity` or `nan`
//! (case-insensitive), or by a decimal number with an optional fraction and
//! an optional decimal exponent. A finite literal is reduced to a normalized
//! form (sign, significant digits, exponent); two finite literals are equal
//! exactly when their normalized forms agree, and every zero equals every
//! other zero whatever its sign. `nan` equals nothing, infinities of one
//! sign are equal. Exponent magnitudes are capped at a huge bound; literals
//! whose exponents both exceed it are compared as if at the bound, mirroring
//! the overflow behaviour of machine parsing.

use vstd::prelude::*;

use crate::text::{char_digit, is_digit};

verus! {

/// Kind tag of a parsed literal: not-a-number.
pub open spec fn kind_nan() -> int {
    0
}

/// Kind tag of a parsed literal: infinite.
pub open spec fn kind_inf() -> int {
    1
}

/// Kind tag of a parsed literal: finite.
pub open spec fn kind_fin() -> int {
    2
}

/// A parsed literal: its kind, sign, and for a finite one its normalized
/// significant digits (no leading or trailing zeros; empty for zero) and
/// the decimal exponent those digits are scaled by.
pub ghost struct LitV {
    pub kind: int,
    pub neg: bool,
    pub digits: Seq<u8>,
    pub exp: int,
}

/// Cap on exponent magnitudes read from a literal's exponent part.
pub open spec fn exp_cap() -> int {
    0x0de0_b6b3_a764_0000
}

/// Value of a digit sequence, saturated at the exponent cap.
pub open spec fn digits_value_sat(s: Seq<char>) -> int
    decreases s.len(),
{
    if s.len() == 0 {
        0
    } else {
        let v = digits_value_sat(s.drop_last()) * 10 + char_digit(s.last());
        if v > exp_cap() {
            exp_cap()
        } else {
            v
        }
    }
}

/// Case-insensitive match of one character against a lower-case letter.
pub open spec fn eq_ci(c: char, l: char) -> bool {
    c == l || (l == 'i' && c == 'I') || (l == 'n' && c == 'N') || (l == 'f' && c == 'F') || (l
        == 't' && c == 'T') || (l == 'y' && c == 'Y') || (l == 'a' && c == 'A')
}

/// Case-insensitive match of a text against a lower-case word.
pub open spec fn word_ci(s: Seq<char>, w: Seq<char>) -> bool {
    s.len() == w.len() && forall|i: int| 0 <= i < s.len() ==> eq_ci(#[trigger] s[i], w[i])
}

/// Index of the first exponent marker, or the length if there is none.
pub open spec fn exp_marker_idx(s: Seq<char>) -> int
    decreases s.len(),
{
    if s.len() == 0 {
        0
    } else if s[0] == 'e' || s[0] == 'E' {
        0
    } else {
        1 + exp_marker_idx(s.skip(1))
    }
}

/// Index of the first decimal point, or the length if there is none.
pub open spec fn dot_idx(s: Seq<char>) -> int
    decreases s.len(),
{
    if s.len() == 0 {
        0
    } else if s[0] == '.' {
        0
    } else {
        1 + dot_idx(s.skip(1))
    }
}

pub open spec fn all_digits(s: Seq<char>) -> bool {
    forall|i: int| 0 <= i < s.len() ==> is_digit(#[trigger] s[i])
}

/// Digit values of a digit text.
pub open spec fn digit_values(s: Seq<char>) -> Seq<u8> {
    Seq::new(s.len(), |i: int| char_digit(s[i]) as u8)
}

/// Drop leading zero digits.
pub open spec fn trim_lead(s: Seq<u8>) -> Seq<u8>
    decreases s.len(),
{
    if s.len() > 0 && s[0] == 0 {
        trim_lead(s.skip(1))
    } else {
        s
    }
}

/// Drop trailing zero digits.
pub open spec fn trim_trail(s: Seq<u8>) -> Seq<u8>
    decreases s.len(),
{
    if s.len() > 0 && s.last() == 0 {
        trim_trail(s.drop_last())
    } else {
        s
    }
}

/// Parse the exponent part that follows the marker: an optional sign and at
/// least one digit; the result is the signed, capped exponent value.
pub open spec fn parse_exp_part(s: Seq<char>) -> Option<int> {
    let (eneg, ds) = if s.len() > 0 && (s[0] == '+' || s[0] == '-') {
        (s[0] == '-', s.skip(1))
    } else {
        (false, s)
    };
    if ds.len() > 0 && all_digits(ds) {
        Some(
            if eneg {
                -digits_value_sat(ds)
            } else {
                digits_value_sat(ds)
            },
        )
    } else {
        None
    }
}

/// Parse an unsigned number: digits with an optional fraction, then an
/// optional exponent part. Yields the normalized finite literal fields.
pub open spec fn parse_number(neg: bool, s: Seq<char>) -> Option<LitV> {
    let e = exp_marker_idx(s);
    let mant = s.take(e);
    let expv = if e == s.len() {
        Some(0int)
    } else {
        parse_exp_part(s.skip(e + 1))
    };
    match expv {
        None => None,
        Some(ev) => {
            let d = dot_idx(mant);
            let ipart = mant.take(d);
            let fpart = if d == mant.len() {
                Seq::<char>::empty()
            } else {
                mant.skip(d + 1)
            };
            if all_digits(ipart) && all_digits(fpart) && ipart.len() + fpart.len() > 0 {
                Some(normalize_fin(neg, digit_values(ipart + fpart), ev - fpart.len()))
            } else {
                None
            }
        },
    }
}

/// Normalize a finite literal: strip leading zeros, then move trailing zeros
/// into the exponent.
pub open spec fn normalize_fin(neg: bool, d: Seq<u8>, exp: int) -> LitV {
    let lead = trim_lead(d);
    let sig = trim_trail(lead);
    LitV { kind: kind_fin(), neg, digits: sig, exp: exp + (lead.len() - sig.len()) }
}

/// Parse a floating-point literal, or nothing when the text is not one.
pub open spec fn parse_literal(s: Seq<char>) -> Option<LitV> {
    let (neg, body) = if s.len() > 0 && (s[0] == '+' || s[0] == '-') {
        (s[0] == '-', s.skip(1))
    } else {
        (false, s)
    };
    if word_ci(body, "inf"@) || word_ci(body, "infinity"@) {
        Some(LitV { kind: kind_inf(), neg, digits: Seq::empty(), exp: 0 })
    } else if word_ci(body, "nan"@) {
        Some(LitV { kind: kind_nan(), neg, digits: Seq::empty(), exp: 0 })
    } else {
        parse_number(neg, body)
    }
}

/// Whether a text is a floating-point literal.
pub open spec fn is_float_literal(s: Seq<char>) -> bool {
    parse_literal(s) is Some
}

/// Value equality of two parsed literals. `nan` equals nothing; infinities
/// are equal when their signs agree; finite literals are equal when both are
/// zero or their normalized forms agree.
pub open spec fn lit_eq(a: LitV, b: LitV) -> bool {
    if a.kind == kind_nan() || b.kind == kind_nan() {
        false
    } else if a.kind == kind_inf() || b.kind == kind_inf() {
        a.kind == b.kind && a.neg == b.neg
    } else if a.digits.len() == 0 && b.digits.len() == 0 {
        true
    } else {
        a.neg == b.neg && a.digits == b.digits && a.exp == b.exp
    }
}

/// Equality of two numeric texts: character-identical, or both parse as
/// literals of equal value.
pub open spec fn numeric_eq(a: Seq<char>, b: Seq<char>) -> bool {
    a == b || match (parse_literal(a), parse_literal(b)) {
        (Some(la), Some(lb)) => lit_eq(la, lb),
        _ => false,
    }
}

/// A text that is no literal equals only texts identical to it.
pub proof fn lemma_eq_needs_literal(a: Seq<char>, b: Seq<char>)
    requires
        parse_literal(a) is None,
        a != b,
    ensures
        !numeric_eq(a, b),
{
}

// ---------------------------------------------------------------------------
// Executable parsing
// ---------------------------------------------------------------------------

/// Parsed literal as a runtime value; its fields mirror the parsed form.
pub struct FloatLit {
    /// Kind tag.
    pub kind: u8,
    /// Sign.
    pub neg: bool,
    /// Normalized significant digits.
    pub digits: Vec<u8>,
    /// Decimal exponent of the digits.
    pub exp: i128,
}

impl View for FloatLit {
    type V = LitV;

    open spec fn view(&self) -> LitV {
        LitV { kind: self.kind as int, neg: self.neg, digits: self.digits@, exp: self.exp as int }
    }
}

fn is_digit_exec(c: char) -> (r: bool)
    ensures
        r == is_digit(c),
{
    c == '0' || c == '1' || c == '2' || c == '3' || c == '4' || c == '5' || c == '6' || c == '7'
        || c == '8' || c == '9'
}

/// The numeric value of a decimal digit character.
pub(crate) fn char_digit_exec(c: char) -> (d: u8)
    requires
        is_digit(c),
    ensures
        d == char_digit(c),
{
    if c == '0' { 0 }
    else if c == '1' { 1 }
    else if c == '2' { 2 }
    else if c == '3' { 3 }
    else if c == '4' { 4 }
    else if c == '5' { 5 }
    else if c == '6' { 6 }
    else if c == '7' { 7 }
    else if c == '8' { 8 }
    else { 9 }
}

fn all_digits_exec(s: &[char], from: usize, to: usize) -> (r: bool)
    requires
        from <= to <= s@.len(),
    ensures
        r == all_digits(s@.subrange(from as int, to as int)),
{
    let ghost sub = s@.subrange(from as int, to as int);
    let mut i: usize = from;
    while i < to
        invariant
            from <= i <= to <= s@.len(),
            sub == s@.subrange(from as int, to as int),
            forall|j: int| from <= j < i ==> is_digit(#[trigger] s@[j]),
        decreases to - i,
    {
        if !is_digit_exec(s[i]) {
            assert(sub[i - from] == s@[i as int]);
            return false;
        }
        i = i + 1;
    }
    assert forall|j: int| 0 <= j < sub.len() implies is_digit(#[trigger] sub[j]) by {
        assert(sub[j] == s@[j + from]);
    }
    true
}

/// Saturated value of the digit text `s[from..to]`.
fn digits_value_sat_exec(s: &[char], from: usize, to: usize) -> (v: i128)
    requires
        from <= to <= s@.len(),
        all_digits(s@.subrange(from as int, to as int)),
    ensures
        v == digits_value_sat(s@.subrange(from as int, to as int)),
        0 <= v <= exp_cap(),
{
    let ghost sub = s@.subrange(from as int, to as int);
    let mut v: i128 = 0;
    let mut i: usize = from;
    while i < to
        invariant
            from <= i <= to <= s@.len(),
            sub == s@.subrange(from as int, to as int),
            all_digits(sub),
            0 <= v <= exp_cap(),
            v == digits_value_sat(sub.take(i - from)),
        decreases to - i,
    {
        assert(sub[i - from] == s@[i as int]);
        assert(is_digit(sub[i - from]));
        let d = char_digit_exec(s[i]);
        let mut nv: i128 = v * 10 + (d as i128);
        if nv > 0x0de0_b6b3_a764_0000i128 {
            nv = 0x0de0_b6b3_a764_0000i128;
        }
        proof {
            let t = sub.take(i - from + 1);
            assert(t.drop_last() =~= sub.take(i - from));
            assert(t.last() == sub[i - from]);
        }
        v = nv;
        i = i + 1;
    }
    proof {
        assert(sub.take(to - from) =~= sub);
    }
    v
}

/// First index at or after `from` whose character is an exponent marker, or
/// `to` when there is none; mirrors the marker search of the parsed form.
fn find_exp_marker(s: &[char], from: usize, to: usize) -> (r: usize)
    requires
        from <= to <= s@.len(),
    ensures
        from <= r <= to,
        r - from == exp_marker_idx(s@.subrange(from as int, to as int)),
    decreases to - from,
{
    let ghost sub = s@.subrange(from as int, to as int);
    if from == to {
        proof { r_eq_zero(sub); }
        to
    } else if s[from] == 'e' || s[from] == 'E' {
        assert(sub[0] == s@[from as int]);
        from
    } else {
        assert(sub[0] == s@[from as int]);
        let r = find_exp_marker(s, from + 1, to);
        proof {
            assert(sub.skip(1) =~= s@.subrange(from as int + 1, to as int));
        }
        r
    }
}

proof fn r_eq_zero(s: Seq<char>)
    requires
        s.len() == 0,
    ensures
        exp_marker_idx(s) == 0,
        dot_idx(s) == 0,
{
}

/// First index at or after `from` whose character is a decimal point, or
/// `to` when there is none.
fn find_dot(s: &[char], from: usize, to: usize) -> (r: usize)
    requires
        from <= to <= s@.len(),
    ensures
        from <= r <= to,
        r - from == dot_idx(s@.subrange(from as int, to as int)),
    decreases to - from,
{
    let ghost sub = s@.subrange(from as int, to as int);
    if from == to {
        proof { r_eq_zero(sub); }
        to
    } else if s[from] == '.' {
        assert(sub[0] == s@[from as int]);
        from
    } else {
        assert(sub[0] == s@[from as int]);
        let r = find_dot(s, from + 1, to);
        proof {
            assert(sub.skip(1) =~= s@.subrange(from as int + 1, to as int));
        }
        r
    }
}

fn word_ci_exec(s: &[char], from: usize, w: &str) -> (r: bool)
    requires
        from <= s@.len(),
    ensures
        r == word_ci(s@.skip(from as int), w@),
{
    let ghost sub = s@.skip(from as int);
    let wc = crate::text::str_chars(w);
    if s.len() - from != wc.len() {
        return false;
    }
    let mut i: usize = 0;
    while i < wc.len()
        invariant
            from <= s@.len(),
            sub == s@.skip(from as int),
            wc@ == w@,
            sub.len() == wc@.len(),
            from + wc@.len() <= s@.len(),
            s@.len() <= usize::MAX,
            i <= wc@.len(),
            forall|j: int| 0 <= j < i ==> eq_ci(#[trigger] sub[j], w@[j]),
        decreases wc@.len() - i,
    {
        assert(from + i < s@.len());
        let c = s[from + i];
        let l = wc[i];
        assert(sub[i as int] == c);
        let ok = c == l || (l == 'i' && c == 'I') || (l == 'n' && c == 'N') || (l == 'f' && c
            == 'F') || (l == 't' && c == 'T') || (l == 'y' && c == 'Y') || (l == 'a' && c == 'A');
        if !ok {
            return false;
        }
        i = i + 1;
    }
    true
}

proof fn lemma_trim_lead_at(s: Seq<u8>, i: int)
    requires
        0 <= i <= s.len(),
        forall|k: int| 0 <= k < i ==> s[k] == 0,
        i == s.len() || s[i] != 0,
    ensures
        trim_lead(s) == s.skip(i),
    decreases i,
{
    if i == 0 {
        assert(s.skip(0) =~= s);
    } else {
        assert(s[0] == 0);
        lemma_trim_lead_at(s.skip(1), i - 1);
        assert(s.skip(1).skip(i - 1) =~= s.skip(i));
    }
}

proof fn lemma_trim_trail_at(s: Seq<u8>, j: int)
    requires
        0 <= j <= s.len(),
        forall|k: int| j <= k < s.len() ==> s[k] == 0,
        j == 0 || s[j - 1] != 0,
    ensures
        trim_trail(s) == s.take(j),
    decreases s.len() - j,
{
    if j == s.len() {
        assert(s.take(j) =~= s);
    } else {
        assert(s.last() == 0);
        lemma_trim_trail_at(s.drop_last(), j);
        assert(s.drop_last().take(j) =~= s.take(j));
    }
}

/// Collect the digit values of the integer part `s[ifrom..ito]` and the
/// fraction part `s[ffrom..fto]`, with the normalization of the parsed form
/// already applied, together with the trailing-zero count.
fn normalized_digits(s: &[char], ifrom: usize, ito: usize, ffrom: usize, fto: usize) -> (r: (
    Vec<u8>,
    usize,
))
    requires
        ifrom <= ito <= ffrom <= fto <= s@.len(),
        all_digits(s@.subrange(ifrom as int, ito as int)),
        all_digits(s@.subrange(ffrom as int, fto as int)),
    ensures
        ({
            let d = digit_values(
                s@.subrange(ifrom as int, ito as int) + s@.subrange(ffrom as int, fto as int),
            );
            r.0@ == trim_trail(trim_lead(d)) && r.1 == trim_lead(d).len() - trim_trail(
                trim_lead(d),
            ).len()
        }),
{
    let ghost a = s@.subrange(ifrom as int, ito as int);
    let ghost b = s@.subrange(ffrom as int, fto as int);
    let ghost d = digit_values(a + b);
    // collect all digit values first
    let mut all: Vec<u8> = Vec::new();
    let mut i: usize = ifrom;
    while i < ito
        invariant
            ifrom <= ito <= ffrom <= fto <= s@.len(),
            a == s@.subrange(ifrom as int, ito as int),
            all_digits(a),
            ifrom <= i <= ito,
            all@.len() == i - ifrom,
            forall|k: int|
                0 <= k < all@.len() ==> all@[k] == char_digit(#[trigger] s@[ifrom + k]),
        decreases ito - i,
    {
        proof {
            assert(a[i - ifrom] == s@[i as int]);
            assert(is_digit(s@[i as int]));
        }
        let dv = char_digit_exec(s[i]);
        all.push(dv);
        i = i + 1;
    }
    let mut j: usize = ffrom;
    while j < fto
        invariant
            ifrom <= ito <= ffrom <= fto <= s@.len(),
            a == s@.subrange(ifrom as int, ito as int),
            b == s@.subrange(ffrom as int, fto as int),
            all_digits(b),
            ffrom <= j <= fto,
            all@.len() == (ito - ifrom) + (j - ffrom),
            forall|k: int|
                0 <= k < ito - ifrom ==> all@[k] == char_digit(#[trigger] s@[ifrom + k]),
            forall|k: int|
                ito - ifrom <= k < all@.len() ==> all@[k] == char_digit(
                    #[trigger] s@[ffrom + (k - (ito - ifrom))],
                ),
        decreases fto - j,
    {
        proof {
            assert(b[j - ffrom] == s@[j as int]);
            assert(is_digit(s@[j as int]));
        }
        let dv = char_digit_exec(s[j]);
        all.push(dv);
        j = j + 1;
    }
    proof {
        assert forall|k: int| 0 <= k < d.len() implies d[k] == all@[k] by {
            if k < a.len() {
                assert((a + b)[k] == a[k]);
                assert(a[k] == s@[ifrom + k]);
            } else {
                assert((a + b)[k] == b[k - a.len()]);
                assert(b[k - a.len()] == s@[ffrom + (k - a.len())]);
            }
        }
        assert(all@ =~= d);
    }
    // find the first nonzero digit
    let n = all.len();
    let mut lo: usize = 0;
    while lo < n && all[lo] == 0
        invariant
            n == all@.len(),
            lo <= n,
            forall|k: int| 0 <= k < lo ==> all@[k] == 0,
        decreases n - lo,
    {
        lo = lo + 1;
    }
    proof {
        lemma_trim_lead_at(all@, lo as int);
    }
    // find the position after the last nonzero digit
    let mut hi: usize = n;
    while hi > lo && all[hi - 1] == 0
        invariant
            n == all@.len(),
            lo <= hi <= n,
            forall|k: int| hi <= k < n ==> all@[k] == 0,
        decreases hi,
    {
        hi = hi - 1;
    }
    let ghost lead = all@.skip(lo as int);
    proof {
        if hi == lo {
            // everything from lo on is zero, so the significant part is empty
            assert forall|k: int| 0 <= k < lead.len() implies lead[k] == 0 by {
                assert(lead[k] == all@[k + lo]);
            }
            lemma_trim_trail_at(lead, 0);
        } else {
            assert(all@[hi - 1] != 0);
            assert forall|k: int| hi - lo <= k < lead.len() implies lead[k] == 0 by {
                assert(lead[k] == all@[k + lo]);
            }
            assert(lead[hi - lo - 1] == all@[hi - 1]);
            lemma_trim_trail_at(lead, hi - lo);
        }
    }
    // copy the significant digits
    let mut sig: Vec<u8> = Vec::new();
    let mut k: usize = lo;
    while k < hi
        invariant
            lo <= k <= hi <= n,
            n == all@.len(),
            sig@.len() == k - lo,
            forall|j2: int| 0 <= j2 < sig@.len() ==> sig@[j2] == all@[lo + j2],
        decreases hi - k,
    {
        sig.push(all[k]);
        k = k + 1;
    }
    proof {
        assert(sig@ =~= lead.take(hi - lo));
        assert(trim_trail(lead) == lead.take(hi - lo));
        assert(trim_lead(all@) == lead);
    }
    (sig, n - hi)
}

/// Parse the text as a floating-point literal.
#[verifier::rlimit(100)]
pub fn parse_literal_exec(s: &[char]) -> (r: Option<FloatLit>)
    ensures
        match r {
            Some(l) => parse_literal(s@) == Some(l@),
            None => parse_literal(s@) is None,
        },
{
    let n = s.len();
    let (neg, from): (bool, usize) = if n > 0 && (s[0] == '+' || s[0] == '-') {
        (s[0] == '-', 1)
    } else {
        (false, 0)
    };
    let ghost body = s@.skip(from as int);
    proof {
        assert(s@.skip(0int) =~= s@);
    }
    if word_ci_exec(s, from, "inf") || word_ci_exec(s, from, "infinity") {
        return Some(FloatLit { kind: 1, neg, digits: Vec::new(), exp: 0 });
    }
    if word_ci_exec(s, from, "nan") {
        return Some(FloatLit { kind: 0, neg, digits: Vec::new(), exp: 0 });
    }
    // number: mantissa up to the exponent marker, then the exponent part
    let e = find_exp_marker(s, from, n);
    proof {
        assert(s@.subrange(from as int, n as int) =~= body);
        assert(exp_marker_idx(body) == e - from);
        assert(body.take(e - from) =~= s@.subrange(from as int, e as int));
    }
    let expv: i128;
    if e == n {
        expv = 0;
    } else {
        // optional sign, then at least one digit
        let ghost epart = s@.skip(e + 1);
        let (eneg, dfrom): (bool, usize) = if e + 1 < n && (s[e + 1] == '+' || s[e + 1] == '-') {
            (s[e + 1] == '-', e + 2)
        } else {
            (false, e + 1)
        };
        proof {
            assert(body.skip((e - from) + 1) =~= epart);
            if e + 1 < n {
                assert(epart[0] == s@[e + 1]);
            }
        }
        let ghost eds = if dfrom == e + 2 { epart.skip(1) } else { epart };
        proof {
            assert(eds =~= s@.subrange(dfrom as int, n as int));
        }
        if dfrom == n || !all_digits_exec(s, dfrom, n) {
            proof {
                if dfrom == n {
                    assert(eds.len() == 0);
                }
            }
            return None;
        }
        let ev = digits_value_sat_exec(s, dfrom, n);
        expv = if eneg { -ev } else { ev };
        proof {
            if dfrom == e + 2 {
                assert(epart[0] == s@[e + 1]);
            }
            assert(parse_exp_part(epart) == Some(expv as int));
        }
    }
    let ghost mant = body.take(e - from);
    let d = find_dot(s, from, e);
    proof {
        assert(s@.subrange(from as int, e as int) =~= mant);
        assert(dot_idx(mant) == d - from);
        assert(mant.take(d - from) =~= s@.subrange(from as int, d as int));
    }
    let ghost ipart = mant.take(d - from);
    let fto: usize = e;
    let ffrom: usize = if d == e {
        e
    } else {
        d + 1
    };
    let ghost fpart = if d - from == mant.len() { Seq::<char>::empty() } else {
        mant.skip((d - from) + 1)
    };
    proof {
        assert(fpart =~= s@.subrange(ffrom as int, fto as int));
    }
    if !all_digits_exec(s, from, d) || !all_digits_exec(s, ffrom, fto) || (from == d && ffrom
        == fto) {
        return None;
    }
    let (sig, trail) = normalized_digits(s, from, d, ffrom, fto);
    proof {
        assert(ipart + fpart =~= s@.subrange(from as int, d as int) + s@.subrange(
            ffrom as int,
            fto as int,
        ));
    }
    // exponent of the normalized digits; all terms are small
    let flen = fto - ffrom;
    let exp0: i128 = expv - (flen as i128) + (trail as i128);
    let lit = FloatLit { kind: 2, neg, digits: sig, exp: exp0 };
    proof {
        let dv = digit_values(ipart + fpart);
        let lead = trim_lead(dv);
        let sigs = trim_trail(lead);
        assert(trail == lead.len() - sigs.len());
        assert(lit@ == normalize_fin(neg, dv, expv - fpart.len()));
        assert(parse_number(neg, body) == Some(lit@));
    }
    Some(lit)
}

/// Whether the text is a floating-point literal.
pub fn is_float_literal_exec(s: &[char]) -> (r: bool)
    ensures
        r == is_float_literal(s@),
{
    parse_literal_exec(s).is_some()
}

/// Value equality of two parsed literals.
pub fn lit_eq_exec(a: &FloatLit, b: &FloatLit) -> (r: bool)
    ensures
        r == lit_eq(a@, b@),
{
    if a.kind == 0 || b.kind == 0 {
        false
    } else if a.kind == 1 || b.kind == 1 {
        a.kind == b.kind && a.neg == b.neg
    } else if a.digits.len() == 0 && b.digits.len() == 0 {
        true
    } else {
        a.neg == b.neg && a.exp == b.exp && digits_eq(&a.digits, &b.digits)
    }
}

fn digits_eq(a: &Vec<u8>, b: &Vec<u8>) -> (r: bool)
    ensures
        r == (a@ == b@),
{
    if a.len() != b.len() {
        assert(a@ != b@);
        return false;
    }
    let mut i: usize = 0;
    while i < a.len()
        invariant
            a@.len() == b@.len(),
            i <= a@.len(),
            forall|j: int| 0 <= j < i ==> a@[j] == b@[j],
        decreases a@.len() - i,
    {
        if a[i] != b[i] {
            return false;
        }
        i = i + 1;
    }
    proof {
        assert(a@ =~= b@);
    }
    true
}

/// Equality of two numeric texts: identical, or equal literal values.
pub fn numeric_eq_exec(a: &[char], b: &[char]) -> (r: bool)
    ensures
        r == numeric_eq(a@, b@),
{
    if chars_eq(a, b) {
        return true;
    }
    let la = parse_literal_exec(a);
    let lb = parse_literal_exec(b);
    match (la, lb) {
        (Some(x), Some(y)) => lit_eq_exec(&x, &y),
        _ => false,
    }
}

fn chars_eq(a: &[char], b: &[char]) -> (r: bool)
    ensures
        r == (a@ == b@),
{
    if a.len() != b.len() {
        assert(a@ != b@);
        return false;
    }
    let mut i: usize = 0;
    while i < a.len()
        invariant
            a@.len() == b@.len(),
            i <= a@.len(),
            forall|j: int| 0 <= j < i ==> a@[j] == b@[j],
        decreases a@.len() - i,
    {
        if a[i] != b[i] {
            return false;
        }
        i = i + 1;
    }
    proof {
        assert(a@ =~= b@);
    }
    true
}

} // verus!
