//! Exact numeric parsing. Share counts and prices may be fractional in the
//! source, so they are modelled as scaled decimals (sign, mantissa, power of
//! ten) rather than machine floats; amounts parse as `i32`.

use vstd::prelude::*;

verus! {

/// A signed decimal: the value is `mantissa / 10^scale`, negated when `neg`.
#[derive(Clone, Copy, PartialEq, Eq, Structural, Debug)]
pub struct Decimal {
    pub neg: bool,
    pub mantissa: u64,
    pub scale: u32,
}

pub open spec fn is_digit_char(c: char) -> bool {
    '0' <= c && c <= '9'
}

pub open spec fn digit_val(c: char) -> nat {
    (c as int - '0' as int) as nat
}

pub open spec fn all_digits(s: Seq<char>) -> bool {
    forall|i: int| 0 <= i < s.len() ==> is_digit_char(#[trigger] s[i])
}

/// The number written by a digit string, most significant digit first.
pub open spec fn num_of(s: Seq<char>) -> nat
    decreases s.len(),
{
    if s.len() == 0 {
        0
    } else {
        num_of(s.drop_last()) * 10 + digit_val(s.last())
    }
}

/// The least index `>= from` holding `c`, if any.
pub open spec fn find_char_from(s: Seq<char>, c: char, from: int) -> Option<int>
    recommends
        0 <= from,
    decreases s.len() - from,
        when from <= s.len()
{
    if from < 0 || from >= s.len() {
        None
    } else if s[from] == c {
        Some(from)
    } else {
        find_char_from(s, c, from + 1)
    }
}

/// The digits of an unsigned decimal body: everything around the first dot.
pub open spec fn dec_digits(b: Seq<char>) -> Seq<char> {
    match find_char_from(b, '.', 0) {
        None => b,
        Some(d) => b.take(d) + b.skip(d + 1),
    }
}

/// How many digits follow the dot.
pub open spec fn dec_scale(b: Seq<char>) -> int {
    match find_char_from(b, '.', 0) {
        None => 0,
        Some(d) => b.len() - d - 1,
    }
}

/// A valid unsigned decimal body: at most one dot, all other characters
/// digits, and at least one digit.
pub open spec fn dec_body_ok(b: Seq<char>) -> bool {
    all_digits(dec_digits(b)) && dec_digits(b).len() >= 1 && (match find_char_from(b, '.', 0) {
        None => true,
        Some(d) => find_char_from(b, '.', d + 1) is None,
    })
}

/// What a decimal string denotes: an optional sign, digits with at most one
/// dot. `None` when the shape is wrong or the digits overflow the mantissa.
pub open spec fn dec_of(s: Seq<char>) -> Option<Decimal> {
    let signed = s.len() > 0 && (s[0] == '-' || s[0] == '+');
    let neg = s.len() > 0 && s[0] == '-';
    let b = if signed {
        s.drop_first()
    } else {
        s
    };
    if dec_body_ok(b) && num_of(dec_digits(b)) <= u64::MAX && dec_scale(b) <= u32::MAX {
        Some(
            Decimal {
                neg,
                mantissa: num_of(dec_digits(b)) as u64,
                scale: dec_scale(b) as u32,
            },
        )
    } else {
        None
    }
}

/// What an integer string denotes: an optional sign and digits, in `i32`
/// range. `None` otherwise.
pub open spec fn i32_of(s: Seq<char>) -> Option<i32> {
    let signed = s.len() > 0 && (s[0] == '-' || s[0] == '+');
    let neg = s.len() > 0 && s[0] == '-';
    let b = if signed {
        s.drop_first()
    } else {
        s
    };
    if b.len() >= 1 && all_digits(b) {
        if neg && num_of(b) <= 0x8000_0000 {
            Some((0 - num_of(b) as int) as i32)
        } else if !neg && num_of(b) <= 0x7fff_ffff {
            Some(num_of(b) as i32)
        } else {
            None
        }
    } else {
        None
    }
}

proof fn lemma_num_step(s: Seq<char>, i: int)
    requires
        0 <= i < s.len(),
    ensures
        num_of(s.take(i + 1)) == num_of(s.take(i)) * 10 + digit_val(s[i]),
{
    assert(s.take(i + 1).drop_last() =~= s.take(i));
    assert(s.take(i + 1).last() == s[i]);
}

proof fn lemma_num_mono(s: Seq<char>, i: int, j: int)
    requires
        0 <= i <= j <= s.len(),
    ensures
        num_of(s.take(i)) <= num_of(s.take(j)),
    decreases j - i,
{
    if i < j {
        lemma_num_mono(s, i, j - 1);
        lemma_num_step(s, j - 1);
    }
}

/// Parses the digit run `s[from..to]` on top of already-read digits `pfx`
/// whose number is `acc`; `None` when the whole number overflows `u64`.
fn parse_digits(s: &str, from: usize, to: usize, acc: u64, pfx: Ghost<Seq<char>>) -> (r: Option<
    u64,
>)
    requires
        from <= to <= s@.len(),
        all_digits(s@.subrange(from as int, to as int)),
        acc == num_of(pfx@),
    ensures
        match r {
            Some(m) => m == num_of(pfx@ + s@.subrange(from as int, to as int)),
            None => num_of(pfx@ + s@.subrange(from as int, to as int)) > u64::MAX,
        },
{
    let ghost t = pfx@ + s@.subrange(from as int, to as int);
    let ghost p = pfx@.len() as int;
    proof {
        assert(t.take(p) =~= pfx@);
    }
    let mut m: u64 = acc;
    let mut i: usize = from;
    while i < to
        invariant
            from <= i <= to <= s@.len(),
            t == pfx@ + s@.subrange(from as int, to as int),
            p == pfx@.len() as int,
            all_digits(s@.subrange(from as int, to as int)),
            m == num_of(t.take(p + (i - from))),
        decreases to - i,
    {
        let c = s.get_char(i);
        assert(t[p + (i - from)] == s@.subrange(from as int, to as int)[i - from]);
        assert(is_digit_char(c));
        let d: u64 = (c as u32 as u64) - ('0' as u32 as u64);
        proof {
            lemma_num_step(t, p + (i - from));
        }
        let m10 = match m.checked_mul(10) {
            Some(v) => v,
            None => {
                proof {
                    lemma_num_mono(t, p + (i - from) + 1, t.len() as int);
                    assert(t.take(t.len() as int) =~= t);
                }
                return None;
            },
        };
        let m2 = match m10.checked_add(d) {
            Some(v) => v,
            None => {
                proof {
                    lemma_num_mono(t, p + (i - from) + 1, t.len() as int);
                    assert(t.take(t.len() as int) =~= t);
                }
                return None;
            },
        };
        m = m2;
        i = i + 1;
    }
    proof {
        assert(t.take(t.len() as int) =~= t);
    }
    Some(m)
}

/// Finds the first dot in `s[from..]`, checking every other character of the
/// tail is a digit; returns the dot's index and whether the tail is valid.
fn scan_body(s: &str, from: usize) -> (r: (Option<usize>, bool))
    requires
        from <= s@.len(),
    ensures
        ({
            let b = s@.skip(from as int);
            match r.0 {
                Some(d) => {
                    &&& from <= d < s@.len()
                    &&& find_char_from(b, '.', 0) == Some(d - from)
                    &&& r.1 == (all_digits(b.take(d - from)) && all_digits(b.skip(d - from + 1))
                        && find_char_from(b, '.', d - from + 1) is None)
                },
                None => {
                    &&& find_char_from(b, '.', 0) is None
                    &&& r.1 == all_digits(b)
                },
            }
        }),
{
    let ghost b = s@.skip(from as int);
    let n = s.unicode_len();
    let mut i: usize = from;
    let mut dot: Option<usize> = None;
    let mut ok: bool = true;
    while i < n
        invariant
            from <= i <= n == s@.len(),
            b == s@.skip(from as int),
            match dot {
                Some(d) => {
                    &&& from <= d < i
                    &&& find_char_from(b, '.', 0) == Some(d - from)
                    &&& ok == (all_digits(b.take(d - from)) && all_digits(
                        b.subrange(d - from + 1, i - from),
                    ))
                },
                None => {
                    &&& find_char_from(b, '.', 0) == find_char_from(b, '.', i - from)
                    &&& ok == all_digits(b.take(i - from))
                },
            },
        decreases n - i,
    {
        let c = s.get_char(i);
        assert(b[i - from] == s@[i as int]);
        let is_digit = '0' <= c && c <= '9';
        match dot {
            Some(d) => {
                proof {
                    assert(b.subrange(d - from + 1, i - from + 1).drop_last() =~= b.subrange(
                        d - from + 1,
                        i - from,
                    ));
                    assert(b.subrange(d - from + 1, i - from + 1).last() == b[i - from]);
                }
                if !is_digit {
                    ok = false;
                }
            },
            None => {
                proof {
                    assert(b.take(i - from + 1).drop_last() =~= b.take(i - from));
                    assert(b.take(i - from + 1).last() == b[i - from]);
                }
                if c == '.' {
                    dot = Some(i);
                    assert(b.subrange(i - from + 1, i - from + 1) =~= Seq::<char>::empty());
                } else if !is_digit {
                    ok = false;
                }
            },
        }
        i = i + 1;
    }
    proof {
        match dot {
            Some(d) => {
                assert(b.subrange(d - from + 1, n - from) =~= b.skip(d - from + 1));
                if all_digits(b.skip(d - from + 1)) {
                    lemma_no_dot(b, d - from + 1);
                }
            },
            None => {
                assert(b.take(n - from) =~= b);
            },
        }
    }
    (dot, ok)
}

proof fn lemma_all_digits_concat(a: Seq<char>, b: Seq<char>)
    ensures
        all_digits(a + b) == (all_digits(a) && all_digits(b)),
{
    if all_digits(a + b) {
        assert forall|i: int| 0 <= i < a.len() implies is_digit_char(#[trigger] a[i]) by {
            assert((a + b)[i] == a[i]);
        }
        assert forall|i: int| 0 <= i < b.len() implies is_digit_char(#[trigger] b[i]) by {
            assert((a + b)[a.len() + i] == b[i]);
        }
    }
}

/// Parses a decimal numeral: an optional sign, then digits holding at most
/// one dot. Returns exactly what the string denotes, or `None` when the
/// shape is wrong or the mantissa or scale overflows.
pub fn parse_decimal(s: &str) -> (r: Option<Decimal>)
    ensures
        r == dec_of(s@),
{
    let n = s.unicode_len();
    let signed: bool = if n > 0 {
        let c0 = s.get_char(0);
        c0 == '-' || c0 == '+'
    } else {
        false
    };
    let neg: bool = if n > 0 {
        s.get_char(0) == '-'
    } else {
        false
    };
    let start: usize = if signed {
        1
    } else {
        0
    };
    let ghost b = if signed {
        s@.drop_first()
    } else {
        s@
    };
    proof {
        assert(b =~= s@.skip(start as int));
    }
    let (dot, ok) = scan_body(s, start);
    match dot {
        None => {
            proof {
                assert(dec_digits(b) == b);
            }
            if !ok || n - start == 0 {
                return None;
            }
            proof {
                assert(b =~= s@.subrange(start as int, n as int));
            }
            let m = match parse_digits(s, start, n, 0, Ghost(Seq::empty())) {
                Some(m) => m,
                None => {
                    proof {
                        assert(Seq::<char>::empty() + s@.subrange(start as int, n as int) =~= b);
                    }
                    return None;
                },
            };
            proof {
                assert(Seq::<char>::empty() + s@.subrange(start as int, n as int) =~= b);
            }
            Some(Decimal { neg, mantissa: m, scale: 0 })
        },
        Some(d) => {
            let ghost dr = d - start;
            let ghost ints = b.take(dr);
            let ghost frac = b.skip(dr + 1);
            proof {
                assert(dec_digits(b) == ints + frac);
                lemma_all_digits_concat(ints, frac);
            }
            if !ok {
                return None;
            }
            if n - start < 2 {
                proof {
                    assert(dec_digits(b).len() == b.len() - 1);
                }
                return None;
            }
            proof {
                assert(ints =~= s@.subrange(start as int, d as int));
                assert(frac =~= s@.subrange(d + 1, n as int));
                assert(dec_digits(b).len() == b.len() - 1 >= 1);
            }
            let mi = match parse_digits(s, start, d, 0, Ghost(Seq::empty())) {
                Some(m) => m,
                None => {
                    proof {
                        assert(Seq::<char>::empty() + s@.subrange(start as int, d as int) =~= ints);
                        lemma_num_concat_mono(ints, frac);
                    }
                    return None;
                },
            };
            proof {
                assert(Seq::<char>::empty() + s@.subrange(start as int, d as int) =~= ints);
            }
            let m = match parse_digits(s, d + 1, n, mi, Ghost(ints)) {
                Some(m) => m,
                None => {
                    proof {
                        assert(ints + s@.subrange(d + 1, n as int) =~= dec_digits(b));
                    }
                    return None;
                },
            };
            proof {
                assert(ints + s@.subrange(d + 1, n as int) =~= dec_digits(b));
            }
            let scale_usize = n - d - 1;
            if scale_usize > u32::MAX as usize {
                return None;
            }
            Some(Decimal { neg, mantissa: m, scale: scale_usize as u32 })
        },
    }
}

proof fn lemma_num_concat_mono(a: Seq<char>, b: Seq<char>)
    ensures
        num_of(a) <= num_of(a + b),
    decreases b.len(),
{
    if b.len() == 0 {
        assert(a + b =~= a);
    } else {
        assert((a + b).drop_last() =~= a + b.drop_last());
        lemma_num_concat_mono(a, b.drop_last());
    }
}

/// Parses an integer numeral: an optional sign and digits, in `i32` range.
pub fn parse_i32(s: &str) -> (r: Option<i32>)
    ensures
        r == i32_of(s@),
{
    let n = s.unicode_len();
    let signed: bool = if n > 0 {
        let c0 = s.get_char(0);
        c0 == '-' || c0 == '+'
    } else {
        false
    };
    let neg: bool = if n > 0 {
        s.get_char(0) == '-'
    } else {
        false
    };
    let start: usize = if signed {
        1
    } else {
        0
    };
    let ghost b = if signed {
        s@.drop_first()
    } else {
        s@
    };
    proof {
        assert(b =~= s@.skip(start as int));
    }
    let (dot, ok) = scan_body(s, start);
    if n - start == 0 {
        return None;
    }
    match dot {
        Some(d) => {
            proof {
                lemma_find_char_at(b, '.', 0);
            }
            assert(!is_digit_char(b[d - start]));
            return None;
        },
        None => {
            if !ok {
                proof {
                    assert(b.take(b.len() as int) =~= b);
                }
                return None;
            }
            proof {
                assert(b.take(b.len() as int) =~= b);
                assert(b =~= s@.subrange(start as int, n as int));
            }
            let m = match parse_digits(s, start, n, 0, Ghost(Seq::empty())) {
                Some(m) => m,
                None => {
                    proof {
                        assert(Seq::<char>::empty() + s@.subrange(start as int, n as int) =~= b);
                    }
                    return None;
                },
            };
            proof {
                assert(Seq::<char>::empty() + s@.subrange(start as int, n as int) =~= b);
            }
            if neg {
                if m <= 0x8000_0000 {
                    let v: i64 = -(m as i64);
                    Some(v as i32)
                } else {
                    None
                }
            } else {
                if m <= 0x7fff_ffff {
                    Some(m as i32)
                } else {
                    None
                }
            }
        },
    }
}

proof fn lemma_find_char_at(s: Seq<char>, c: char, from: int)
    requires
        0 <= from <= s.len(),
        find_char_from(s, c, from) is Some,
    ensures
        ({
            let d = find_char_from(s, c, from)->Some_0;
            from <= d < s.len() && s[d] == c
        }),
    decreases s.len() - from,
{
    if from < s.len() && s[from] != c {
        lemma_find_char_at(s, c, from + 1);
    }
}

proof fn lemma_no_dot(s: Seq<char>, from: int)
    requires
        0 <= from <= s.len(),
        all_digits(s.skip(from)),
    ensures
        find_char_from(s, '.', from) is None,
    decreases s.len() - from,
{
    if from < s.len() {
        assert(s.skip(from)[0] == s[from]);
        assert(is_digit_char(s[from]));
        assert(forall|k: int|
            0 <= k < s.skip(from + 1).len() ==> #[trigger] s.skip(from + 1)[k] == s.skip(from)[k
                + 1]);
        lemma_no_dot(s, from + 1);
    }
}

} // verus!
