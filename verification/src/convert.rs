//! Field-level converters for the exchange's wire encodings: timestamps as
//! millisecond strings and decimals as (possibly empty) numeric strings.
use vstd::prelude::*;

verus! {

/// Largest magnitude a decimal's integer representation may take; mirrors the
/// 96-bit coefficient range of the exchange decimals this library models.
pub const MAX_DEC_UNITS: i128 = 79228162514264337593543950335;

/// Largest number of fractional digits a decimal may carry.
pub const MAX_DEC_SCALE: u32 = 28;

/// A decimal number `units / 10^scale`, held exactly.
///
/// This is the library's own representation of the exchange's decimal fields:
/// a 96-bit-bounded signed coefficient and a scale of at most 28.
#[derive(Debug, Clone, Copy, PartialEq, Eq, Structural)]
pub struct Dec {
    pub units: i128,
    pub scale: u32,
}

impl Dec {
    /// A well-formed decimal: the coefficient and scale are within range.
    pub open spec fn wf(self) -> bool {
        &&& self.scale <= MAX_DEC_SCALE
        &&& -MAX_DEC_UNITS <= self.units <= MAX_DEC_UNITS
    }
}

pub open spec fn is_digit(c: char) -> bool {
    '0' <= c && c <= '9'
}

pub open spec fn digit_val(c: char) -> nat {
    (c as nat - '0' as nat) as nat
}

pub open spec fn all_digits(s: Seq<char>) -> bool {
    forall|i: int| 0 <= i < s.len() ==> is_digit(s[i])
}

/// The number denoted by a digit string, most significant digit first.
pub open spec fn digits_val(s: Seq<char>) -> nat
    decreases s.len(),
{
    if s.len() == 0 {
        0
    } else {
        digits_val(s.drop_last()) * 10 + digit_val(s.last())
    }
}

pub open spec fn pow10(n: nat) -> nat
    decreases n,
{
    if n == 0 {
        1
    } else {
        10 * pow10((n - 1) as nat)
    }
}

/// What a digit-only string parses to, bounded by `max`: defined exactly when
/// the string is non-empty, all digits, and its value does not exceed `max`.
pub open spec fn spec_parse_digits(s: Seq<char>, max: nat) -> Option<nat> {
    if s.len() > 0 && all_digits(s) && digits_val(s) <= max {
        Some(digits_val(s))
    } else {
        None
    }
}

/// What a millisecond-timestamp string decodes to: the number of milliseconds
/// since the Unix epoch, when the string is a non-empty digit string in range.
pub open spec fn spec_parse_u64(s: Seq<char>) -> Option<u64> {
    match spec_parse_digits(s, u64::MAX as nat) {
        Some(v) => Some(v as u64),
        None => None,
    }
}

proof fn lemma_digits_val_grows(s: Seq<char>, i: int)
    requires
        0 <= i <= s.len(),
    ensures
        digits_val(s.take(i)) <= digits_val(s),
    decreases s.len() - i,
{
    if i < s.len() {
        assert(s.take(i + 1).drop_last() =~= s.take(i));
        assert(s.take(i + 1).last() == s[i]);
        assert(digits_val(s.take(i + 1)) == digits_val(s.take(i)) * 10 + digit_val(s[i]));
        assert(digits_val(s.take(i)) <= digits_val(s.take(i)) * 10) by (nonlinear_arith);
        lemma_digits_val_grows(s, i + 1);
        assert(s.take(s.len() as int) =~= s);
    } else {
        assert(s.take(i) =~= s);
    }
}

/// Parse a digit-only string into a number no greater than `max`.
pub fn parse_digits(s: &str, max: u128) -> (r: Option<u128>)
    ensures
        r matches Some(v) ==> spec_parse_digits(s@, max as nat) == Some(v as nat),
        r is None ==> spec_parse_digits(s@, max as nat) is None,
{
    let n = s.unicode_len();
    if n == 0 {
        return None;
    }
    let mut acc: u128 = 0;
    let mut i: usize = 0;
    while i < n
        invariant
            n == s@.len(),
            0 < n,
            i <= n,
            all_digits(s@.take(i as int)),
            acc == digits_val(s@.take(i as int)),
            acc <= max,
            max <= u128::MAX,
        decreases n - i,
    {
        let c = s.get_char(i);
        if c < '0' || c > '9' {
            assert(!is_digit(s@[i as int]));
            return None;
        }
        let d: u128 = (c as u32 - 48) as u128;
        assert(d == digit_val(s@[i as int]));
        proof {
            assert(s@.take(i + 1).drop_last() =~= s@.take(i as int));
            assert(s@.take(i + 1).last() == s@[i as int]);
        }
        if d > max {
            proof {
                assert(digits_val(s@.take(i + 1)) == acc * 10 + d);
                assert(acc * 10 + d >= d) by (nonlinear_arith);
                lemma_digits_val_grows(s@, i + 1);
            }
            return None;
        }
        if acc > (max - d) / 10 {
            proof {
                assert(acc * 10 + d > max) by (nonlinear_arith)
                    requires
                        acc as int > (max as int - d as int) / 10,
                        d <= 9,
                        max >= d,
                ;
                assert(digits_val(s@.take(i + 1)) > max);
                lemma_digits_val_grows(s@, i + 1);
            }
            return None;
        }
        proof {
            assert(acc * 10 + d <= max) by (nonlinear_arith)
                requires
                    acc as int <= (max as int - d as int) / 10,
                    d <= 9,
                    max >= d,
            ;
        }
        acc = acc * 10 + d;
        i = i + 1;
    }
    proof {
        assert(s@.take(n as int) =~= s@);
    }
    Some(acc)
}

/// Decode a millisecond-timestamp string, e.g. `"1597026383085"`, to the
/// number of milliseconds since the Unix epoch.
pub fn parse_u64_digits(s: &str) -> (r: Option<u64>)
    ensures
        r == spec_parse_u64(s@),
{
    match parse_digits(s, 0xffff_ffff_ffff_ffff) {
        Some(v) => Some(v as u64),
        None => None,
    }
}

/// Index of the first `'.'` in `s`, or `-1` when there is none.
pub open spec fn first_dot(s: Seq<char>) -> int
    decreases s.len(),
{
    if s.len() == 0 {
        -1
    } else if s[0] == '.' {
        0
    } else if first_dot(s.drop_first()) < 0 {
        -1
    } else {
        first_dot(s.drop_first()) + 1
    }
}

proof fn lemma_first_dot_at(s: Seq<char>, d: int)
    requires
        0 <= d < s.len(),
        s[d] == '.',
        forall|j: int| 0 <= j < d ==> s[j] != '.',
    ensures
        first_dot(s) == d,
    decreases s.len(),
{
    if d > 0 {
        lemma_first_dot_at(s.drop_first(), d - 1);
    }
}

proof fn lemma_first_dot_none(s: Seq<char>)
    requires
        forall|j: int| 0 <= j < s.len() ==> s[j] != '.',
    ensures
        first_dot(s) == -1,
    decreases s.len(),
{
    if s.len() > 0 {
        lemma_first_dot_none(s.drop_first());
    }
}

proof fn lemma_digits_val_concat(a: Seq<char>, b: Seq<char>)
    ensures
        digits_val(a + b) == digits_val(a) * pow10(b.len()) + digits_val(b),
    decreases b.len(),
{
    if b.len() == 0 {
        assert(a + b =~= a);
        assert(pow10(0) == 1);
        assert(digits_val(a) * 1 == digits_val(a)) by (nonlinear_arith);
        assert(digits_val(a + b) == digits_val(a) * pow10(b.len()) + digits_val(b));
    } else {
        lemma_digits_val_concat(a, b.drop_last());
        assert((a + b).drop_last() =~= a + b.drop_last());
        assert((a + b).last() == b.last());
        assert(digits_val(a + b) == (digits_val(a) * pow10((b.len() - 1) as nat) + digits_val(
            b.drop_last(),
        )) * 10 + digit_val(b.last()));
        assert((digits_val(a) * pow10((b.len() - 1) as nat)) * 10 == digits_val(a) * (10 * pow10(
            (b.len() - 1) as nat,
        ))) by (nonlinear_arith);
        assert(digits_val(b) == digits_val(b.drop_last()) * 10 + digit_val(b.last()));
        assert(pow10(b.len()) == 10 * pow10((b.len() - 1) as nat));
        assert((digits_val(a) * pow10((b.len() - 1) as nat) + digits_val(b.drop_last())) * 10 == (
        digits_val(a) * pow10((b.len() - 1) as nat)) * 10 + digits_val(b.drop_last()) * 10)
            by (nonlinear_arith);
        assert(digits_val(a + b) == digits_val(a) * pow10(b.len()) + digits_val(b));
    }
}

/// What a decimal string parses to. The accepted grammar is an optional `'-'`,
/// a non-empty run of digits, and optionally a `'.'` followed by a non-empty
/// run of digits; the value must fit the coefficient and scale bounds.
pub open spec fn spec_parse_dec(s: Seq<char>) -> Option<Dec> {
    let neg = s.len() > 0 && s[0] == '-';
    let t = if neg {
        s.drop_first()
    } else {
        s
    };
    let dot = first_dot(t);
    let ip = if dot < 0 {
        t
    } else {
        t.take(dot)
    };
    let fp = if dot < 0 {
        Seq::<char>::empty()
    } else {
        t.skip(dot + 1)
    };
    if ip.len() > 0 && all_digits(ip) && (dot < 0 || (fp.len() > 0 && all_digits(fp))) && fp.len()
        <= MAX_DEC_SCALE && digits_val(ip + fp) <= MAX_DEC_UNITS as nat {
        Some(
            Dec {
                units: if neg {
                    (-(digits_val(ip + fp) as int)) as i128
                } else {
                    digits_val(ip + fp) as i128
                },
                scale: fp.len() as u32,
            },
        )
    } else {
        None
    }
}

/// 10 to the power `n`, for scales within range.
pub fn pow10_u128(n: u32) -> (r: u128)
    requires
        n <= MAX_DEC_SCALE,
    ensures
        r == pow10(n as nat),
        r >= 1,
{
    let mut r: u128 = 1;
    let mut i: u32 = 0;
    while i < n
        invariant
            i <= n <= MAX_DEC_SCALE,
            r == pow10(i as nat),
            r >= 1,
            r <= 10000000000000000000000000000u128,
        decreases n - i,
    {
        proof {
            lemma_pow10_bound((i + 1) as nat);
        }
        r = r * 10;
        i = i + 1;
    }
    r
}

proof fn lemma_pow10_bound(n: nat)
    requires
        n <= 28,
    ensures
        pow10(n) <= 10000000000000000000000000000nat,
{
    lemma_pow10_mono(n, 28);
    assert(pow10(28) == 10000000000000000000000000000nat) by {
        reveal_with_fuel(pow10, 29);
    }
}

proof fn lemma_pow10_mono(a: nat, b: nat)
    requires
        a <= b,
    ensures
        pow10(a) <= pow10(b),
    decreases b,
{
    if a < b {
        lemma_pow10_mono(a, (b - 1) as nat);
        assert(pow10((b - 1) as nat) <= 10 * pow10((b - 1) as nat)) by (nonlinear_arith)
            requires
                pow10((b - 1) as nat) >= 0,
        ;
        assert(pow10((b - 1) as nat) >= 1) by {
            lemma_pow10_pos((b - 1) as nat);
        }
    }
}

proof fn lemma_pow10_pos(n: nat)
    ensures
        pow10(n) >= 1,
    decreases n,
{
    if n > 0 {
        lemma_pow10_pos((n - 1) as nat);
    }
}

/// Parse a decimal string such as `"0.015"` or `"-1.5"` into a [`Dec`].
/// Returns `None` exactly when the string does not match the decimal grammar
/// or its value is out of range.
pub fn parse_decimal(s: &str) -> (r: Option<Dec>)
    ensures
        r == spec_parse_dec(s@),
        r matches Some(d) ==> d.wf(),
{
    let n = s.unicode_len();
    let neg = n > 0 && s.get_char(0) == '-';
    let t: &str = if neg {
        s.substring_char(1, n)
    } else {
        s
    };
    let m = if neg {
        n - 1
    } else {
        n
    };
    assert(t@ =~= if neg { s@.drop_first() } else { s@ });
    assert(m == t@.len());
    // locate the first dot
    let mut dot: usize = m;
    let mut i: usize = 0;
    while i < m && dot == m
        invariant
            n == s@.len(),
            m == t@.len(),
            t@ =~= (if neg {
                s@.drop_first()
            } else {
                s@
            }),
            (if neg {
                m + 1 == n
            } else {
                m == n
            }),
            i <= m,
            dot <= m,
            dot == m ==> forall|j: int| 0 <= j < i ==> t@[j] != '.',
            dot < m ==> t@[dot as int] == '.' && (forall|j: int| 0 <= j < dot ==> t@[j] != '.'),
        decreases m - i + (if dot == m {
            1int
        } else {
            0int
        }),
    {
        let c = s.get_char(if neg { i + 1 } else { i });
        assert(c == t@[i as int]);
        if c == '.' {
            dot = i;
        } else {
            i = i + 1;
        }
    }
    proof {
        if dot < m {
            lemma_first_dot_at(t@, dot as int);
        } else {
            lemma_first_dot_none(t@);
        }
    }
    let ip: &str = if dot < m {
        t.substring_char(0, dot)
    } else {
        t
    };
    let ghost gip: Seq<char> = if first_dot(t@) < 0 { t@ } else { t@.take(first_dot(t@)) };
    assert(ip@ =~= gip);
    let ghost gfp: Seq<char> = if first_dot(t@) < 0 { Seq::<char>::empty() } else {
        t@.skip(first_dot(t@) + 1)
    };
    if dot < m {
        let fp: &str = t.substring_char(dot + 1, m);
        assert(fp@ =~= gfp);
        let scale = m - dot - 1;
        if scale > 28 {
            return None;
        }
        let ipv = match parse_digits(ip, 79228162514264337593543950335u128) {
            Some(v) => v,
            None => {
                proof {
                    if ip@.len() > 0 && all_digits(ip@) {
                        lemma_pow10_pos(gfp.len());
                        lemma_digits_val_concat(gip, gfp);
                        assert(digits_val(gip + gfp) >= digits_val(gip)) by (nonlinear_arith)
                            requires
                                digits_val(gip + gfp) == digits_val(gip) * pow10(gfp.len())
                                    + digits_val(gfp),
                                pow10(gfp.len()) >= 1,
                        ;
                    }
                }
                return None;
            },
        };
        let fpv = match parse_digits(fp, 79228162514264337593543950335u128) {
            Some(v) => v,
            None => {
                proof {
                    if fp@.len() > 0 && all_digits(fp@) {
                        lemma_digits_val_concat(gip, gfp);
                        assert(digits_val(gip + gfp) >= digits_val(gfp)) by (nonlinear_arith)
                            requires
                                digits_val(gip + gfp) == digits_val(gip) * pow10(gfp.len())
                                    + digits_val(gfp),
                        ;
                    }
                }
                return None;
            },
        };
        let p = pow10_u128(scale as u32);
        proof {
            lemma_digits_val_concat(gip, gfp);
        }
        if ipv > (79228162514264337593543950335u128 - fpv) / p {
            proof {
                assert(ipv * p + fpv > 79228162514264337593543950335u128) by (nonlinear_arith)
                    requires
                        ipv as int > (79228162514264337593543950335 - fpv as int) / (p as int),
                        p >= 1,
                        fpv <= 79228162514264337593543950335u128,
                ;
            }
            return None;
        }
        proof {
            assert(ipv * p + fpv <= 79228162514264337593543950335u128) by (nonlinear_arith)
                requires
                    ipv as int <= (79228162514264337593543950335 - fpv as int) / (p as int),
                    p >= 1,
                    fpv <= 79228162514264337593543950335u128,
            ;
        }
        let mag: u128 = ipv * p + fpv;
        let units: i128 = if neg {
            -(mag as i128)
        } else {
            mag as i128
        };
        Some(Dec { units, scale: scale as u32 })
    } else {
        assert(gfp =~= Seq::<char>::empty());
        assert(gip + gfp =~= gip);
        let ipv = match parse_digits(ip, 79228162514264337593543950335u128) {
            Some(v) => v,
            None => {
                return None;
            },
        };
        let units: i128 = if neg {
            -(ipv as i128)
        } else {
            ipv as i128
        };
        Some(Dec { units, scale: 0 })
    }
}

} // verus!
