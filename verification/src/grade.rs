//! Grade parsing: the normalized score that the grader's free-text output
//! proposes, read from a line of the form `Proposed grade: 8.5 / 10`. A
//! missing or unparseable grade line yields no grade at all — never zero.

use vstd::prelude::*;
use vstd::string::*;
use crate::text::{
    find_from, find_substring, has_substring, lemma_find_from_none, lemma_find_from_some,
    lemma_scan_unique, scan,
};

verus! {

/// A normalized grade ratio `num / den`, with `den > 0`. The ratio keeps
/// the exact decimal values of the grader's output; nothing is rounded.
#[derive(Clone, Copy, Debug, PartialEq, Eq, Structural)]
pub struct Grade {
    /// Numerator: the proposed score, scaled to an integer.
    pub num: u64,
    /// Denominator: the maximum score, scaled by the same rule.
    pub den: u64,
}

impl Grade {
    /// A well-formed grade has a positive denominator.
    pub open spec fn wf(&self) -> bool {
        self.den > 0
    }

    /// Full credit: the proposed score reaches the maximum. The grader's
    /// success value is exactly 1.0; no tolerance below it counts.
    pub fn is_perfect(&self) -> (r: bool)
        ensures
            r == (self.num >= self.den),
    {
        self.num >= self.den
    }

    /// Whether this grade equals the ratio `n / d`, by cross
    /// multiplication.
    pub fn eq_ratio(&self, n: u64, d: u64) -> (r: bool)
        ensures
            r == (self.num as int * d as int == self.den as int * n as int),
    {
        proof {
            assert((self.num as u128) * (d as u128) < 0x1_0000_0000_0000_0000_0000_0000_0000_0000)
                by (nonlinear_arith)
                requires
                    self.num <= u64::MAX,
                    d <= u64::MAX,
            ;
            assert((self.den as u128) * (n as u128) < 0x1_0000_0000_0000_0000_0000_0000_0000_0000)
                by (nonlinear_arith)
                requires
                    self.den <= u64::MAX,
                    n <= u64::MAX,
            ;
        }
        (self.num as u128) * (d as u128) == (self.den as u128) * (n as u128)
    }
}

/// A whitespace character of the grade line.
pub open spec fn is_space(c: char) -> bool {
    c == ' ' || c == '\t' || c == '\n' || c == '\r'
}

/// A decimal digit.
pub open spec fn is_digit(c: char) -> bool {
    '0' as int <= c as int <= '9' as int
}

/// The numeric value of a digit.
pub open spec fn digit_val(c: char) -> int {
    c as int - '0' as int
}

/// A character a number token is made of: a digit or a decimal point.
pub open spec fn is_tok_char(c: char) -> bool {
    is_digit(c) || c == '.'
}

/// The digits of a number token read as an integer, ignoring the decimal
/// point.
pub open spec fn tok_mantissa(t: Seq<char>) -> int
    decreases t.len(),
{
    if t.len() == 0 {
        0
    } else if is_digit(t.last()) {
        tok_mantissa(t.drop_last()) * 10 + digit_val(t.last())
    } else {
        tok_mantissa(t.drop_last())
    }
}

/// Ten to the `k`.
pub open spec fn pow10(k: nat) -> int
    decreases k,
{
    if k == 0 {
        1
    } else {
        10 * pow10((k - 1) as nat)
    }
}

/// Position of the first decimal point of a token, or its length.
pub open spec fn tok_dot(t: Seq<char>) -> int {
    scan(t, 0, |c: char| c == '.')
}

/// The scaling denominator of a token: ten to the number of characters
/// after its decimal point (one if it has none).
pub open spec fn tok_scale(t: Seq<char>) -> int {
    if tok_dot(t) == t.len() {
        1
    } else {
        pow10((t.len() - tok_dot(t) - 1) as nat)
    }
}

/// A valid number token: nonempty, made of digits and at most one decimal
/// point, with at least one digit.
pub open spec fn tok_valid(t: Seq<char>) -> bool {
    &&& t.len() > 0
    &&& (forall|j: int| 0 <= j < t.len() ==> is_tok_char(t[j]))
    &&& scan(t, tok_dot(t) + 1, |c: char| c == '.') == t.len()
    &&& (exists|j: int| 0 <= j < t.len() && is_digit(t[j]))
}

/// The value of a number token as an exact fraction `mantissa / scale`,
/// if the token is valid and both parts fit the machine word.
pub open spec fn spec_parse_decimal(t: Seq<char>) -> Option<(int, int)> {
    if tok_valid(t) && tok_mantissa(t) <= u64::MAX && tok_scale(t) <= u64::MAX {
        Some((tok_mantissa(t), tok_scale(t)))
    } else {
        None
    }
}

/// The grade that a result text proposes: after the first
/// `Proposed grade:` marker, a number, a slash and a second number, with
/// any spacing between them. The ratio is score over maximum; a missing
/// marker, a malformed number, a zero maximum or a value beyond the
/// machine word all yield no grade.
pub open spec fn spec_parse_grade(s: Seq<char>) -> Option<Grade> {
    match find_from(s, "Proposed grade:"@, 0) {
        None => None,
        Some(a) => {
            let i1 = scan(s, a + "Proposed grade:"@.len(), |c: char| !is_space(c));
            let e1 = scan(s, i1, |c: char| !is_tok_char(c));
            match spec_parse_decimal(s.subrange(i1, e1)) {
                None => None,
                Some((m1, s1)) => {
                    let i2 = scan(s, e1, |c: char| !is_space(c));
                    if i2 == s.len() || s[i2] != '/' {
                        None
                    } else {
                        let i3 = scan(s, i2 + 1, |c: char| !is_space(c));
                        let e2 = scan(s, i3, |c: char| !is_tok_char(c));
                        match spec_parse_decimal(s.subrange(i3, e2)) {
                            None => None,
                            Some((m2, s2)) => {
                                if m2 == 0 || m1 * s2 > u64::MAX || m2 * s1 > u64::MAX {
                                    None
                                } else {
                                    Some(Grade { num: (m1 * s2) as u64, den: (m2 * s1) as u64 })
                                }
                            },
                        }
                    }
                },
            }
        },
    }
}

/// A token's mantissa never shrinks as the token grows.
pub proof fn lemma_mantissa_prefix(t: Seq<char>, j: int)
    requires
        0 <= j <= t.len(),
    ensures
        0 <= tok_mantissa(t.subrange(0, j)) <= tok_mantissa(t),
        0 <= tok_mantissa(t),
    decreases t.len(),
{
    if t.len() == 0 {
        assert(t.subrange(0, j) =~= t);
    } else {
        lemma_mantissa_prefix(t.drop_last(), if j < t.len() { j } else { t.len() - 1 });
        if j < t.len() {
            assert(t.subrange(0, j) =~= t.drop_last().subrange(0, j));
        } else {
            assert(t.subrange(0, j) =~= t);
        }
    }
}

/// Powers of ten grow with the exponent.
proof fn lemma_pow10_le(a: nat, b: nat)
    requires
        a <= b,
    ensures
        1 <= pow10(a) <= pow10(b),
    decreases b,
{
    if a == b {
        lemma_pow10_pos(a);
    } else {
        lemma_pow10_le(a, (b - 1) as nat);
    }
}

/// Powers of ten are positive.
proof fn lemma_pow10_pos(k: nat)
    ensures
        pow10(k) >= 1,
    decreases k,
{
    if k > 0 {
        lemma_pow10_pos((k - 1) as nat);
    }
}

/// Skip whitespace from `i` on; stop at the first non-space character.
fn skip_spaces(s: &str, i: usize) -> (r: usize)
    requires
        i <= s@.len(),
    ensures
        i <= r <= s@.len(),
        r == scan(s@, i as int, |c: char| !is_space(c)),
        r < s@.len() ==> !is_space(s@[r as int]),
{
    let l: usize = s.unicode_len();
    let mut j: usize = i;
    while j < l
        invariant
            i <= j <= l,
            l == s@.len(),
            forall|k: int| i <= k < j ==> is_space(s@[k]),
        decreases l - j,
    {
        let c = s.get_char(j);
        if !(c == ' ' || c == '\t' || c == '\n' || c == '\r') {
            proof {
                lemma_scan_unique(s@, i as int, |c: char| !is_space(c), j as int);
            }
            return j;
        }
        j = j + 1;
    }
    proof {
        lemma_scan_unique(s@, i as int, |c: char| !is_space(c), l as int);
    }
    l
}

/// The end of the number token starting at `i`: the first character from
/// `i` on that is neither a digit nor a decimal point.
fn token_end(s: &str, i: usize) -> (r: usize)
    requires
        i <= s@.len(),
    ensures
        i <= r <= s@.len(),
        r == scan(s@, i as int, |c: char| !is_tok_char(c)),
        forall|k: int| i <= k < r ==> is_tok_char(s@[k]),
{
    let l: usize = s.unicode_len();
    let mut j: usize = i;
    while j < l
        invariant
            i <= j <= l,
            l == s@.len(),
            forall|k: int| i <= k < j ==> is_tok_char(s@[k]),
        decreases l - j,
    {
        let c = s.get_char(j);
        if !(('0' <= c && c <= '9') || c == '.') {
            proof {
                lemma_scan_unique(s@, i as int, |c: char| !is_tok_char(c), j as int);
            }
            return j;
        }
        j = j + 1;
    }
    proof {
        lemma_scan_unique(s@, i as int, |c: char| !is_tok_char(c), l as int);
    }
    l
}

/// Parse the number token at `[start, end)` of `s` into its exact fraction
/// `mantissa / scale`.
fn parse_decimal_at(s: &str, start: usize, end: usize) -> (r: Option<(u64, u64)>)
    requires
        start <= end <= s@.len(),
        forall|k: int| start <= k < end ==> is_tok_char(s@[k]),
    ensures
        match r {
            Some(v) => spec_parse_decimal(s@.subrange(start as int, end as int)) == Some(
                (v.0 as int, v.1 as int),
            ) && v.1 >= 1,
            None => spec_parse_decimal(s@.subrange(start as int, end as int)) is None,
        },
{
    let ghost t = s@.subrange(start as int, end as int);
    if start == end {
        return None;
    }
    // One pass: find the decimal point, count digits, reject a second
    // point, and accumulate the mantissa.
    let mut m: u64 = 0;
    let mut dot: usize = end;
    let mut digits: usize = 0;
    let mut j: usize = start;
    while j < end
        invariant
            start <= j <= end <= s@.len(),
            t == s@.subrange(start as int, end as int),
            forall|k: int| start <= k < end ==> is_tok_char(s@[k]),
            m as int == tok_mantissa(t.subrange(0, j - start)),
            dot <= end,
            dot == end ==> (forall|k: int| start <= k < j ==> s@[k] != '.'),
            dot < end ==> start <= dot < j,
            dot < end ==> s@[dot as int] == '.',
            dot < end ==> (forall|k: int| start <= k < dot ==> s@[k] != '.'),
            dot < end ==> (forall|k: int| dot < k < j ==> s@[k] != '.'),
            digits <= j - start,
            (digits > 0) == (exists|k: int| 0 <= k < j - start && is_digit(t[k])),
        decreases end - j,
    {
        let c = s.get_char(j);
        proof {
            assert(t[j - start] == s@[j as int]);
            assert(t.subrange(0, j + 1 - start).drop_last() =~= t.subrange(0, j - start));
            assert(t.subrange(0, j + 1 - start).last() == s@[j as int]);
        }
        if c == '.' {
            if dot < end {
                // A second decimal point: not a number.
                proof {
                    let p = (|c: char| c == '.');
                    lemma_scan_unique(t, 0, p, dot - start);
                    assert(tok_dot(t) == dot - start);
                    assert(t[j - start] == '.');
                    assert(!(scan(t, tok_dot(t) + 1, p) == t.len())) by {
                        let q = scan(t, dot - start + 1, p);
                        crate::text::lemma_scan_props(t, dot - start + 1, p);
                        if q == t.len() {
                            assert(!p(t[j - start]));
                        }
                    }
                }
                return None;
            }
            dot = j;
        } else {
            let d: u64 = (c as u32 as u64) - 48;
            proof {
                assert(is_digit(s@[j as int]));
                assert(d as int == digit_val(s@[j as int]));
            }
            let m10 = match m.checked_mul(10) {
                Some(v) => v,
                None => {
                    proof {
                        lemma_mantissa_prefix(t, j + 1 - start);
                        lemma_mantissa_prefix(t.subrange(0, j + 1 - start), j - start);
                        assert(t.subrange(0, j + 1 - start).subrange(0, j - start)
                            =~= t.subrange(0, j - start));
                        assert(tok_mantissa(t) > u64::MAX);
                    }
                    return None;
                },
            };
            m = match m10.checked_add(d) {
                Some(v) => v,
                None => {
                    proof {
                        lemma_mantissa_prefix(t, j + 1 - start);
                        assert(tok_mantissa(t) > u64::MAX);
                    }
                    return None;
                },
            };
            digits = digits + 1;
        }
        j = j + 1;
    }
    proof {
        assert(t.subrange(0, end - start) =~= t);
    }
    if digits == 0 {
        return None;
    }
    // Scale: ten to the number of characters after the decimal point.
    proof {
        let p = (|c: char| c == '.');
        assert(forall|k: int| 0 <= k < t.len() ==> t[k] == s@[start + k]);
        if dot < end {
            lemma_scan_unique(t, 0, p, dot - start);
            lemma_scan_unique(t, dot - start + 1, p, t.len() as int);
        } else {
            lemma_scan_unique(t, 0, p, t.len() as int);
            assert(scan(t, t.len() as int + 1, p) == t.len());
        }
        assert(tok_valid(t));
    }
    let mut sc: u64 = 1;
    if dot < end {
        let frac: usize = end - dot - 1;
        let mut k: usize = 0;
        while k < frac
            invariant
                k <= frac,
                frac == end - dot - 1,
                dot < end <= s@.len(),
                t == s@.subrange(start as int, end as int),
                start <= dot,
                tok_dot(t) == dot - start,
                sc as int == pow10(k as nat),
            decreases frac - k,
        {
            sc = match sc.checked_mul(10) {
                Some(v) => v,
                None => {
                    proof {
                        lemma_pow10_le((k + 1) as nat, (end - dot - 1) as nat);
                        assert(tok_scale(t) > u64::MAX);
                    }
                    return None;
                },
            };
            k = k + 1;
        }
        proof {
            assert(tok_scale(t) == pow10((end - dot - 1) as nat));
            lemma_pow10_pos((end - dot - 1) as nat);
        }
    } else {
        proof {
            let p = (|c: char| c == '.');
            assert(forall|k: int| 0 <= k < t.len() ==> t[k] == s@[start + k]);
            lemma_scan_unique(t, 0, p, t.len() as int);
            assert(tok_scale(t) == 1);
        }
    }
    Some((m, sc))
}

/// Parse the grade that a result text proposes, as the exact fraction
/// score over maximum. Text without a `Proposed grade:` marker has no
/// grade; so has a malformed or zero-maximum grade line.
pub fn parse_vpl_proposed_grade(text: &str) -> (r: Option<Grade>)
    ensures
        r == spec_parse_grade(text@),
        !has_substring(text@, "Proposed grade:"@) ==> r is None,
        r is Some ==> r->0.wf(),
{
    proof {
        reveal_strlit("Proposed grade:");
    }
    let text_len: usize = text.unicode_len();
    let anchor = find_substring(text, "Proposed grade:");
    let a = match anchor {
        Some(a) => {
            proof {
                lemma_find_from_some(text@, "Proposed grade:"@, 0, a as int);
            }
            a
        },
        None => {
            proof {
                lemma_find_from_none(text@, "Proposed grade:"@, 0);
            }
            return None;
        },
    };
    let i1 = skip_spaces(text, a + 15);
    let e1 = token_end(text, i1);
    let (m1, s1) = match parse_decimal_at(text, i1, e1) {
        Some(v) => v,
        None => {
            return None;
        },
    };
    let i2 = skip_spaces(text, e1);
    if i2 == text_len {
        return None;
    }
    if text.get_char(i2) != '/' {
        return None;
    }
    let i3 = skip_spaces(text, i2 + 1);
    let e2 = token_end(text, i3);
    let (m2, s2) = match parse_decimal_at(text, i3, e2) {
        Some(v) => v,
        None => {
            return None;
        },
    };
    if m2 == 0 {
        return None;
    }
    let num = match m1.checked_mul(s2) {
        Some(v) => v,
        None => {
            return None;
        },
    };
    let den = match m2.checked_mul(s1) {
        Some(v) => v,
        None => {
            return None;
        },
    };
    proof {
        assert(m2 as int * s1 as int >= 1) by (nonlinear_arith)
            requires
                m2 >= 1,
                s1 >= 1,
        ;
    }
    Some(Grade { num, den })
}

} // verus!
