use vstd::prelude::*;

use crate::text::chars_of;

verus! {

/// The most digits that a decimal may have.
pub const MAX_DIGITS: usize = 18;

/// `10^n`.
pub open spec fn pow10(n: nat) -> int
    decreases n,
{
    if n == 0 {
        1
    } else {
        10 * pow10((n - 1) as nat)
    }
}

pub open spec fn is_digit(c: char) -> bool {
    '0' <= c && c <= '9'
}

pub open spec fn digit_value(c: char) -> int {
    (c as int) - ('0' as int)
}

pub open spec fn all_digits(s: Seq<char>) -> bool {
    forall|i: int| 0 <= i < s.len() ==> is_digit(#[trigger] s[i])
}

/// The number that a string of decimal digits spells.
pub open spec fn digits_value(s: Seq<char>) -> int
    decreases s.len(),
{
    if s.len() == 0 {
        0
    } else {
        digits_value(s.drop_last()) * 10 + digit_value(s.last())
    }
}

/// `b` is `int.frac` with the point at `k`, both parts non-empty digits.
pub open spec fn point_at(b: Seq<char>, k: int) -> bool {
    &&& 0 < k < b.len() - 1
    &&& b[k] == '.'
    &&& all_digits(b.take(k))
    &&& all_digits(b.skip(k + 1))
}

/// An unsigned decimal as (digits without the point, digits after the point):
/// `ddd` or `ddd.ddd`, with at most `MAX_DIGITS` digits.
pub open spec fn unsigned_decimal(b: Seq<char>) -> Option<(int, nat)> {
    if 0 < b.len() <= MAX_DIGITS && all_digits(b) {
        Some((digits_value(b), 0nat))
    } else if exists|k: int| point_at(b, k) && b.len() - 1 <= MAX_DIGITS {
        let k = choose|k: int| point_at(b, k);
        let frac = b.skip(k + 1);
        Some((digits_value(b.take(k)) * pow10(frac.len()) + digits_value(frac), frac.len()))
    } else {
        None
    }
}

/// A decimal number `mantissa / 10^scale`.
#[derive(Clone, Copy, Debug, PartialEq, Eq, Structural)]
pub struct Decimal {
    pub mantissa: i64,
    pub scale: u32,
}

impl Decimal {
    /// Mantissa below `10^18` in magnitude, and fewer than 18 digits after
    /// the point: what text of at most `MAX_DIGITS` digits yields.
    pub open spec fn wf(self) -> bool {
        &&& self.scale < MAX_DIGITS
        &&& -pow10(18) < self.mantissa < pow10(18)
    }
}

/// The decimal that text spells: an optional `-`, then `ddd` or `ddd.ddd`.
pub open spec fn decimal_of(s: Seq<char>) -> Option<Decimal> {
    let neg = s.len() > 0 && s[0] == '-';
    let body = if neg {
        s.skip(1)
    } else {
        s
    };
    match unsigned_decimal(body) {
        Some((m, sc)) => Some(
            Decimal { mantissa: (if neg { -m } else { m }) as i64, scale: sc as u32 },
        ),
        None => None,
    }
}

/// The integer that text spells: an optional `-`, then at most `MAX_DIGITS`
/// digits.
pub open spec fn integer_of(s: Seq<char>) -> Option<int> {
    match decimal_of(s) {
        Some(d) => if d.scale == 0 {
            Some(d.mantissa as int)
        } else {
            None
        },
        None => None,
    }
}

pub proof fn lemma_pow10_grows(a: nat, b: nat)
    requires
        a <= b,
    ensures
        1 <= pow10(a) <= pow10(b),
    decreases b,
{
    if b > a {
        lemma_pow10_grows(a, (b - 1) as nat);
    } else if a > 0 {
        lemma_pow10_grows(0, (a - 1) as nat);
    }
}

pub proof fn lemma_digits_value_bound(s: Seq<char>)
    requires
        all_digits(s),
    ensures
        0 <= digits_value(s) < pow10(s.len()),
    decreases s.len(),
{
    if s.len() > 0 {
        let t = s.drop_last();
        assert(all_digits(t)) by {
            assert forall|i: int| 0 <= i < t.len() implies is_digit(#[trigger] t[i]) by {
                assert(t[i] == s[i]);
            }
        }
        lemma_digits_value_bound(t);
        assert(is_digit(s[s.len() - 1]));
    }
}

pub proof fn lemma_point_unique(b: Seq<char>, k1: int, k2: int)
    requires
        point_at(b, k1),
        point_at(b, k2),
    ensures
        k1 == k2,
{
    if k1 < k2 {
        assert(b.take(k2)[k1] == b[k1]);
    } else if k2 < k1 {
        assert(b.take(k1)[k2] == b[k2]);
    }
}

/// `10^n` for `n <= 18`.
pub fn pow10_u64(n: u32) -> (r: u64)
    requires
        n <= 18,
    ensures
        r == pow10(n as nat),
{
    let mut r: u64 = 1;
    let mut i: u32 = 0;
    while i < n
        invariant
            i <= n <= 18,
            r == pow10(i as nat),
        decreases n - i,
    {
        proof {
            lemma_pow10_grows((i + 1) as nat, 18);
            reveal_with_fuel(pow10, 19);
        }
        r = r * 10;
        i = i + 1;
    }
    r
}

/// The value of the digits `cs[from..to]`, or `None` where one is no digit.
fn digits_in(cs: &Vec<char>, from: usize, to: usize) -> (r: Option<u64>)
    requires
        from <= to <= cs@.len(),
        to - from <= MAX_DIGITS,
    ensures
        r matches Some(v) ==> all_digits(cs@.subrange(from as int, to as int)) && v
            == digits_value(cs@.subrange(from as int, to as int)),
        r is None ==> !all_digits(cs@.subrange(from as int, to as int)),
{
    let mut acc: u64 = 0;
    let mut i: usize = from;
    while i < to
        invariant
            from <= i <= to <= cs@.len(),
            to - from <= MAX_DIGITS,
            all_digits(cs@.subrange(from as int, i as int)),
            acc == digits_value(cs@.subrange(from as int, i as int)),
        decreases to - i,
    {
        let c = cs[i];
        if !('0' <= c && c <= '9') {
            assert(cs@.subrange(from as int, to as int)[i - from] == c);
            return None;
        }
        let ghost prev = cs@.subrange(from as int, i as int);
        let ghost next = cs@.subrange(from as int, i + 1);
        proof {
            assert(next.drop_last() =~= prev);
            assert(all_digits(next)) by {
                assert forall|j: int| 0 <= j < next.len() implies is_digit(#[trigger] next[j]) by {
                    if j < prev.len() {
                        assert(next[j] == prev[j]);
                    }
                }
            }
            lemma_digits_value_bound(prev);
            lemma_pow10_grows(prev.len(), 17);
            reveal_with_fuel(pow10, 19);
        }
        acc = acc * 10 + (c as u64 - '0' as u64);
        i = i + 1;
    }
    Some(acc)
}

/// Where `b` is `cs[start..]`: the unsigned decimal that it spells.
fn parse_unsigned(cs: &Vec<char>, start: usize) -> (r: Option<(u64, u32)>)
    requires
        start <= cs@.len(),
    ensures
        ({
            let b = cs@.subrange(start as int, cs@.len() as int);
            match r {
                Some((m, sc)) => unsigned_decimal(b) == Some((m as int, sc as nat)) && m < pow10(18)
                    && sc < MAX_DIGITS,
                None => unsigned_decimal(b) is None,
            }
        }),
{
    let n = cs.len();
    let ghost body = cs@.subrange(start as int, n as int);
    let mut k: usize = start;
    while k < n && cs[k] != '.'
        invariant
            start <= k <= n == cs@.len(),
            forall|j: int| start <= j < k ==> cs@[j] != '.',
        decreases n - k,
    {
        k = k + 1;
    }
    let ghost kk = k - start;
    if k == n {
        if n == start || n - start > MAX_DIGITS {
            return None;
        }
        match digits_in(cs, start, n) {
            Some(v) => {
                proof {
                    lemma_digits_value_bound(body);
                    lemma_pow10_grows(body.len(), 18);
                }
                Some((v, 0))
            },
            None => {
                proof {
                    assert forall|k2: int| !point_at(body, k2) by {
                        if point_at(body, k2) {
                            assert(cs@[start + k2] == '.');
                        }
                    }
                }
                None
            },
        }
    } else {
        proof {
            assert(body[kk] == '.');
            assert(!all_digits(body));
            assert forall|k2: int| point_at(body, k2) implies k2 == kk by {
                if k2 < kk {
                    assert(cs@[start + k2] == body[k2]);
                }
                if point_at(body, kk) {
                    lemma_point_unique(body, k2, kk);
                } else if k2 > kk {
                    assert(body.take(k2)[kk] == body[kk]);
                }
            }
        }
        if k == start || k + 1 >= n || n - start - 1 > MAX_DIGITS {
            return None;
        }
        let ip = digits_in(cs, start, k);
        let fp = digits_in(cs, k + 1, n);
        assert(body.take(kk) =~= cs@.subrange(start as int, k as int));
        assert(body.skip(kk + 1) =~= cs@.subrange(k + 1, n as int));
        match (ip, fp) {
            (Some(iv), Some(fv)) => {
                let flen: u32 = (n - k - 1) as u32;
                let p = pow10_u64(flen);
                proof {
                    assert(point_at(body, kk as int));
                    let ipart = body.take(kk);
                    let fpart = body.skip(kk + 1);
                    lemma_digits_value_bound(ipart);
                    lemma_digits_value_bound(fpart);
                    lemma_pow10_add(ipart.len(), fpart.len());
                    lemma_pow10_grows(ipart.len() + fpart.len(), 18);
                    lemma_combine_bound(iv as int, fv as int, p as int, pow10(ipart.len()));
                    lemma_pow10_18();
                    assert(pow10(ipart.len()) * pow10(fpart.len()) <= 1000000000000000000);
                }
                Some((iv * p + fv, flen))
            },
            _ => None,
        }
    }
}

proof fn lemma_combine_bound(i: int, f: int, p: int, q: int)
    requires
        0 <= i < q,
        0 <= f < p,
    ensures
        0 <= i * p + f < q * p,
{
    assert(i * p + f < q * p) by (nonlinear_arith)
        requires
            0 <= i < q,
            0 <= f < p,
    ;
    assert(0 <= i * p) by (nonlinear_arith)
        requires
            0 <= i,
            0 <= p,
    ;
}

pub proof fn lemma_pow10_18()
    ensures
        pow10(18) == 1000000000000000000,
{
    reveal_with_fuel(pow10, 19);
}

pub proof fn lemma_pow10_17()
    ensures
        pow10(17) == 100000000000000000,
{
    reveal_with_fuel(pow10, 18);
}

/// Parses an optional `-` followed by `ddd` or `ddd.ddd` (at most
/// `MAX_DIGITS` digits) as an exact decimal.
pub fn parse_decimal(s: &str) -> (r: Option<Decimal>)
    ensures
        r == decimal_of(s@),
        r matches Some(d) ==> d.wf(),
{
    let cs = chars_of(s);
    let n = cs.len();
    let neg = n > 0 && cs[0] == '-';
    let start: usize = if neg {
        1
    } else {
        0
    };
    proof {
        lemma_pow10_18();
        if neg {
            assert(s@.skip(1) =~= cs@.subrange(1, n as int));
        } else {
            assert(s@ =~= cs@.subrange(0, n as int));
        }
    }
    match parse_unsigned(&cs, start) {
        Some((mag, sc)) => {
            let m: i64 = if neg {
                -(mag as i64)
            } else {
                mag as i64
            };
            Some(Decimal { mantissa: m, scale: sc })
        },
        None => None,
    }
}

pub proof fn lemma_pow10_add(a: nat, b: nat)
    ensures
        pow10(a) * pow10(b) == pow10(a + b),
    decreases a,
{
    if a > 0 {
        lemma_pow10_add((a - 1) as nat, b);
        assert(pow10(a) * pow10(b) == 10 * (pow10((a - 1) as nat) * pow10(b))) by (nonlinear_arith)
            requires
                pow10(a) == 10 * pow10((a - 1) as nat),
        ;
    }
}

} // verus!
