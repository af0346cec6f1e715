//! Decimal rendering and parsing of the integers and millisecond
//! durations that appear in manifests and generated URLs.

use vstd::prelude::*;

verus! {

/// The decimal digit character for `d` (`d < 10`).
pub open spec fn digit_char(d: nat) -> char {
    if d == 0 {
        '0'
    } else if d == 1 {
        '1'
    } else if d == 2 {
        '2'
    } else if d == 3 {
        '3'
    } else if d == 4 {
        '4'
    } else if d == 5 {
        '5'
    } else if d == 6 {
        '6'
    } else if d == 7 {
        '7'
    } else if d == 8 {
        '8'
    } else {
        '9'
    }
}

/// The decimal rendering of `n`, without leading zeros (`0` renders as "0").
pub open spec fn dec_str(n: nat) -> Seq<char>
    decreases n,
{
    if n < 10 {
        seq![digit_char(n)]
    } else {
        dec_str(n / 10) + seq![digit_char(n % 10)]
    }
}

/// The single-digit string for `d`.
fn digit_str(d: u64) -> (r: &'static str)
    requires
        d < 10,
    ensures
        r@ == seq![digit_char(d as nat)],
{
    proof {
        reveal_strlit("0");
        reveal_strlit("1");
        reveal_strlit("2");
        reveal_strlit("3");
        reveal_strlit("4");
        reveal_strlit("5");
        reveal_strlit("6");
        reveal_strlit("7");
        reveal_strlit("8");
        reveal_strlit("9");
    }
    let r: &'static str = if d == 0 {
        "0"
    } else if d == 1 {
        "1"
    } else if d == 2 {
        "2"
    } else if d == 3 {
        "3"
    } else if d == 4 {
        "4"
    } else if d == 5 {
        "5"
    } else if d == 6 {
        "6"
    } else if d == 7 {
        "7"
    } else if d == 8 {
        "8"
    } else {
        "9"
    };
    assert(r@ =~= seq![digit_char(d as nat)]);
    r
}

/// Decimal rendering of a `u64`.
pub fn u64_to_string(n: u64) -> (r: String)
    ensures
        r@ == dec_str(n as nat),
    decreases n,
{
    if n < 10 {
        digit_str(n).to_owned()
    } else {
        let mut s = u64_to_string(n / 10);
        s.append(digit_str(n % 10));
        s
    }
}

/// Decimal rendering of a `usize`.
pub fn usize_to_string(n: usize) -> (r: String)
    ensures
        r@ == dec_str(n as nat),
{
    u64_to_string(n as u64)
}

/// `c` is a decimal digit.
pub open spec fn is_digit(c: char) -> bool {
    '0' <= c <= '9'
}

/// Numeric value of a digit character.
pub open spec fn digit_val(c: char) -> nat {
    ((c as int) - ('0' as int)) as nat
}

/// `s` is one or more decimal digits.
pub open spec fn all_digits(s: Seq<char>) -> bool {
    forall|i: int| 0 <= i < s.len() ==> is_digit(#[trigger] s[i])
}

/// The value of a digit string, most significant first.
pub open spec fn dec_val(s: Seq<char>) -> nat
    decreases s.len(),
{
    if s.len() == 0 {
        0
    } else {
        dec_val(s.drop_last()) * 10 + digit_val(s.last())
    }
}

/// Executable digit test.
pub fn is_digit_char(c: char) -> (r: bool)
    ensures
        r == is_digit(c),
{
    '0' <= c && c <= '9'
}

/// Numeric value of a digit character.
pub fn digit_of(c: char) -> (d: u64)
    requires
        is_digit(c),
    ensures
        d == digit_val(c),
        d < 10,
{
    (c as u32 - '0' as u32) as u64
}

/// Parse a non-empty digit string as a `u64`; `None` on a non-digit, an
/// empty string, or overflow.
pub fn parse_u64(s: &str) -> (r: Option<u64>)
    ensures
        match r {
            Some(v) => s@.len() > 0 && all_digits(s@) && v == dec_val(s@)
                && dec_val(s@) <= u64::MAX,
            None => s@.len() == 0 || !all_digits(s@) || dec_val(s@) > u64::MAX,
        },
{
    let len = s.unicode_len();
    if len == 0 {
        return None;
    }
    let mut acc: u64 = 0;
    let mut i: usize = 0;
    while i < len
        invariant
            len == s@.len(),
            0 <= i <= len,
            all_digits(s@.subrange(0, i as int)),
            acc == dec_val(s@.subrange(0, i as int)),
        decreases len - i,
    {
        let c = s.get_char(i);
        if !is_digit_char(c) {
            return None;
        }
        let d = digit_of(c);
        proof {
            assert(s@.subrange(0, i + 1).drop_last() =~= s@.subrange(0, i as int));
            assert(s@.subrange(0, i + 1).last() == s@[i as int]);
        }
        if acc > (u64::MAX - d) / 10 {
            proof {
                let q = s@.subrange(0, i + 1);
                assert(dec_val(q) == acc * 10 + d);
                assert(acc * 10 + d > u64::MAX) by {
                    assert(acc >= (u64::MAX - d) / 10 + 1);
                };
                if all_digits(s@) {
                    lemma_dec_val_monotone(q, s@);
                }
            }
            return None;
        }
        acc = acc * 10 + d;
        proof {
            assert(all_digits(s@.subrange(0, i + 1))) by {
                assert(forall|j: int| 0 <= j < i + 1 ==> is_digit(
                    #[trigger] s@.subrange(0, i + 1)[j],
                ));
            }
        }
        i += 1;
    }
    proof {
        assert(s@.subrange(0, len as int) =~= s@);
    }
    Some(acc)
}

/// A prefix of a digit string never exceeds the whole string's value.
proof fn lemma_dec_val_monotone(p: Seq<char>, s: Seq<char>)
    requires
        p.len() <= s.len(),
        p == s.subrange(0, p.len() as int),
        all_digits(s),
    ensures
        dec_val(p) <= dec_val(s),
    decreases s.len() - p.len(),
{
    if p.len() < s.len() {
        let q = s.subrange(0, p.len() as int + 1);
        assert(q.drop_last() =~= p);
        assert(is_digit(s[p.len() as int]));
        assert(dec_val(q) == dec_val(p) * 10 + digit_val(q.last()));
        assert(dec_val(p) <= dec_val(p) * 10);
        lemma_dec_val_monotone(q, s);
    } else {
        assert(p =~= s);
    }
}

/// The millisecond value of a decimal seconds string: the integer part in
/// milliseconds plus the first three fraction digits (further digits
/// truncated).  The string must hold at least one digit, an optional single
/// dot, and nothing else.
pub open spec fn is_decimal_str(s: Seq<char>) -> bool {
    exists|dot: int|
        0 <= dot <= s.len() && #[trigger] decimal_shape_at(s, dot)
}

/// `s` splits at `dot` into digits, an optional '.', and digits, with at
/// least one digit in all.
pub open spec fn decimal_shape_at(s: Seq<char>, dot: int) -> bool {
    &&& 0 <= dot <= s.len()
    &&& all_digits(s.subrange(0, dot))
    &&& (dot == s.len() || (s[dot] == '.' && all_digits(s.subrange(dot + 1, s.len() as int))))
    &&& s.len() > (if dot == s.len() { 0int } else { 1int })
}

/// Millisecond value of a decimal string split at `dot`.
pub open spec fn decimal_ms_at(s: Seq<char>, dot: int) -> nat {
    dec_val(s.subrange(0, dot)) * 1000 + frac_ms(
        if dot == s.len() {
            Seq::<char>::empty()
        } else {
            s.subrange(dot + 1, s.len() as int)
        },
    )
}

/// Milliseconds contributed by a fraction-digit string (truncated past
/// three digits).
pub open spec fn frac_ms(f: Seq<char>) -> nat {
    if f.len() == 0 {
        0
    } else if f.len() == 1 {
        digit_val(f[0]) * 100
    } else if f.len() == 2 {
        digit_val(f[0]) * 100 + digit_val(f[1]) * 10
    } else {
        digit_val(f[0]) * 100 + digit_val(f[1]) * 10 + digit_val(f[2])
    }
}

/// The split position of a decimal string (meaningful only when
/// `is_decimal_str` holds; it is then unique).
pub open spec fn the_decimal_dot(s: Seq<char>) -> int {
    choose|dot: int| decimal_shape_at(s, dot)
}

/// The millisecond value of a decimal seconds string, when it has one.
pub open spec fn dec_ms_opt(s: Seq<char>) -> Option<nat> {
    if is_decimal_str(s) {
        Some(decimal_ms_at(s, the_decimal_dot(s)))
    } else {
        None
    }
}

/// A decimal string splits at exactly one position.
pub proof fn lemma_decimal_dot_unique(s: Seq<char>, d1: int, d2: int)
    requires
        decimal_shape_at(s, d1),
        decimal_shape_at(s, d2),
    ensures
        d1 == d2,
{
    if d1 < d2 {
        assert(is_digit(s.subrange(0, d2)[d1]));
        assert(s[d1] == '.');
    }
    if d2 < d1 {
        assert(is_digit(s.subrange(0, d1)[d2]));
        assert(s[d2] == '.');
    }
}

/// A witnessed split fixes the value of `dec_ms_opt`.
pub proof fn lemma_dec_ms_at(s: Seq<char>, dot: int)
    requires
        decimal_shape_at(s, dot),
    ensures
        dec_ms_opt(s) == Some(decimal_ms_at(s, dot)),
{
    assert(is_decimal_str(s));
    lemma_decimal_dot_unique(s, dot, the_decimal_dot(s));
}

/// Parse a non-negative decimal seconds string into milliseconds.
/// Returns the value exactly when the string has decimal shape and its
/// millisecond value fits in a `u64`.
pub fn parse_decimal_ms(s: &str) -> (r: Option<u64>)
    ensures
        match r {
            Some(v) => dec_ms_opt(s@) == Some(v as nat),
            None => match dec_ms_opt(s@) {
                Some(v) => v > u64::MAX,
                None => true,
            },
        },
{
    let len = s.unicode_len();
    let fd = first_dot(s);
    let dot: usize = match fd {
        Some(d) => d,
        None => len,
    };
    proof {
        assert(dot as int == s@.len() || s@[dot as int] == '.');
        assert(forall|j: int| 0 <= j < dot ==> s@[j] != '.');
        assert(dot == len ==> forall|j: int| 0 <= j < s@.len() ==> s@[j] != '.');
        assert forall|d: int| decimal_shape_at(s@, d) implies d == dot as int by {
            lemma_shape_dot_is(s@, dot as int, d);
        }
    }
    if len == 0 {
        assert(dec_ms_opt(s@) is None);
        return None;
    }
    if dot != len && len == 1 {
        // the string is a bare dot: no digits at all
        assert(dec_ms_opt(s@) is None) by {
            assert(!decimal_shape_at(s@, dot as int));
        }
        return None;
    }
    // integer part
    let int_part = s.substring_char(0, dot);
    proof {
        if dot > 0 {
            assert(int_part@ == s@.subrange(0, dot as int));
        } else {
            assert(s@.subrange(0, 0) =~= Seq::<char>::empty());
        }
    }
    let int_val: u64;
    if dot == 0 {
        int_val = 0;
        assert(dec_val(s@.subrange(0, 0)) == 0);
    } else {
        match parse_u64(int_part) {
            Some(v) => {
                int_val = v;
            },
            None => {
                proof {
                    if all_digits(s@.subrange(0, dot as int)) {
                        // the integer part overflowed a u64; the total can only be larger
                        if decimal_shape_at(s@, dot as int) {
                            lemma_dec_ms_at(s@, dot as int);
                            assert(dec_val(s@.subrange(0, dot as int)) * 1000
                                >= dec_val(s@.subrange(0, dot as int)));
                        }
                    } else {
                        assert(!decimal_shape_at(s@, dot as int));
                    }
                }
                return None;
            },
        }
    }
    if int_val > u64::MAX / 1000 {
        proof {
            if decimal_shape_at(s@, dot as int) {
                lemma_dec_ms_at(s@, dot as int);
                assert(int_val * 1000 > u64::MAX) by {
                    assert(int_val >= u64::MAX / 1000 + 1);
                };
            }
        }
        return None;
    }
    let int_ms: u64 = int_val * 1000;
    // fraction part
    if dot != len {
        let frac = s.substring_char(dot + 1, len);
        let flen = frac.unicode_len();
        let mut f_ms: u64 = 0;
        let mut k: usize = 0;
        while k < flen
            invariant
                flen == frac@.len(),
                len == s@.len(),
                dot < len,
                frac@ == s@.subrange(dot + 1, s@.len() as int),
                forall|d: int| decimal_shape_at(s@, d) ==> d == dot as int,
                0 <= k <= flen,
                all_digits(frac@.subrange(0, k as int)),
                f_ms == frac_ms(frac@.subrange(0, k as int))
                    || (k >= 3 && f_ms == frac_ms(frac@)),
                f_ms < 1000,
                k >= 3 ==> f_ms == frac_ms(frac@),
            decreases flen - k,
        {
            let c = frac.get_char(k);
            if !is_digit_char(c) {
                proof {
                    assert(frac@ == s@.subrange(dot + 1, s@.len() as int));
                    assert(!decimal_shape_at(s@, dot as int));
                }
                return None;
            }
            proof {
                assert(frac@.subrange(0, k + 1).drop_last() =~= frac@.subrange(0, k as int));
            }
            if k == 0 {
                f_ms = digit_of(c) * 100;
                assert(frac@.subrange(0, 1)[0] == frac@[0]);
            } else if k == 1 {
                f_ms = f_ms + digit_of(c) * 10;
                assert(frac@.subrange(0, 2)[0] == frac@[0]);
                assert(frac@.subrange(0, 2)[1] == frac@[1]);
            } else if k == 2 {
                f_ms = f_ms + digit_of(c);
                assert(frac@.subrange(0, 3)[0] == frac@[0]);
                assert(frac@.subrange(0, 3)[1] == frac@[1]);
                assert(frac@.subrange(0, 3)[2] == frac@[2]);
            } else {
                proof {
                    if k == 3 {
                        lemma_frac_ms_prefix(frac@, 3);
                    }
                }
            }
            proof {
                if k <= 2 {
                    lemma_frac_prefix_vals(frac@, k as int);
                }
                assert(all_digits(frac@.subrange(0, k + 1))) by {
                    assert(forall|j: int| 0 <= j < k + 1 ==> is_digit(
                        #[trigger] frac@.subrange(0, k + 1)[j],
                    ));
                }
            }
            k += 1;
        }
        proof {
            assert(frac@.subrange(0, flen as int) =~= frac@);
            if flen < 3 {
                assert(f_ms == frac_ms(frac@));
            }
            lemma_frac_ms_bound(frac@);
            assert(decimal_shape_at(s@, dot as int)) by {
                assert(frac@ == s@.subrange(dot + 1, s@.len() as int));
            }
            lemma_dec_ms_at(s@, dot as int);
        }
        if int_ms > u64::MAX - f_ms {
            return None;
        }
        let total = int_ms + f_ms;
        assert(total == decimal_ms_at(s@, dot as int));
        return Some(total);
    }
    proof {
        assert(s@.subrange(0, len as int) =~= s@);
        assert(decimal_shape_at(s@, dot as int));
        lemma_dec_ms_at(s@, dot as int);
        assert(int_ms == decimal_ms_at(s@, dot as int));
    }
    Some(int_ms)
}

/// A decimal shape can split only at the first dot (or at the end when
/// there is none).
proof fn lemma_shape_dot_is(s: Seq<char>, fdot: int, d: int)
    requires
        0 <= fdot <= s.len(),
        fdot == s.len() || s[fdot] == '.',
        forall|j: int| 0 <= j < fdot ==> s[j] != '.',
        fdot == s.len() ==> forall|j: int| 0 <= j < s.len() ==> s[j] != '.',
        decimal_shape_at(s, d),
    ensures
        d == fdot,
{
    if d < fdot {
        assert(d < s.len());
        assert(s[d] == '.');
    } else if d > fdot {
        assert(fdot < s.len());
        assert(s[fdot] == '.');
        assert(is_digit(s.subrange(0, d)[fdot]));
    }
}

/// Values of short fraction prefixes line up digit by digit.
proof fn lemma_frac_prefix_vals(f: Seq<char>, k: int)
    requires
        0 <= k <= 2,
        k < f.len(),
    ensures
        k == 0 ==> frac_ms(f.subrange(0, 1)) == digit_val(f[0]) * 100,
        k == 1 && f.len() >= 2 ==> frac_ms(f.subrange(0, 2)) == digit_val(f[0]) * 100
            + digit_val(f[1]) * 10,
        k == 2 && f.len() >= 3 ==> frac_ms(f.subrange(0, 3)) == digit_val(f[0]) * 100
            + digit_val(f[1]) * 10 + digit_val(f[2]),
{
}

/// A fraction's milliseconds never reach 1000.
proof fn lemma_frac_ms_bound(f: Seq<char>)
    requires
        all_digits(f),
    ensures
        frac_ms(f) < 1000,
{
    if f.len() >= 1 {
        assert(digit_val(f[0]) <= 9);
    }
    if f.len() >= 2 {
        assert(digit_val(f[1]) <= 9);
    }
    if f.len() >= 3 {
        assert(digit_val(f[2]) <= 9);
    }
}

/// Once three digits are in, further digits change nothing.
proof fn lemma_frac_ms_prefix(f: Seq<char>, k: int)
    requires
        3 <= k <= f.len(),
    ensures
        frac_ms(f.subrange(0, 3)) == frac_ms(f),
{
    assert(f.subrange(0, 3)[0] == f[0]);
    assert(f.subrange(0, 3)[1] == f[1]);
    assert(f.subrange(0, 3)[2] == f[2]);
}

/// Index of the first '.', or `None`.
fn first_dot(s: &str) -> (r: Option<usize>)
    ensures
        match r {
            Some(i) => i < s@.len() && s@[i as int] == '.'
                && forall|j: int| 0 <= j < i ==> s@[j] != '.',
            None => forall|j: int| 0 <= j < s@.len() ==> s@[j] != '.',
        },
{
    crate::text::first_index_of(s, '.')
}

/// Decimal-seconds rendering of a millisecond count: whole seconds, then
/// up to three fraction digits with trailing zeros dropped.
pub open spec fn ms_dec_str(ms: nat) -> Seq<char> {
    let s = ms / 1000;
    let f = ms % 1000;
    if f == 0 {
        dec_str(s)
    } else if f % 100 == 0 {
        dec_str(s) + seq!['.'] + seq![digit_char(f / 100)]
    } else if f % 10 == 0 {
        dec_str(s) + seq!['.'] + seq![digit_char(f / 100), digit_char((f / 10) % 10)]
    } else {
        dec_str(s) + seq!['.'] + seq![
            digit_char(f / 100),
            digit_char((f / 10) % 10),
            digit_char(f % 10),
        ]
    }
}

/// Render milliseconds as decimal seconds.
pub fn ms_to_dec_string(ms: u64) -> (r: String)
    ensures
        r@ == ms_dec_str(ms as nat),
{
    let s = ms / 1000;
    let f = ms % 1000;
    let mut out = u64_to_string(s);
    if f == 0 {
        return out;
    }
    proof {
        reveal_strlit(".");
    }
    out.append(".");
    assert("."@ =~= seq!['.']);
    out.append(digit_str(f / 100));
    if f % 100 == 0 {
        assert(out@ =~= ms_dec_str(ms as nat));
        return out;
    }
    out.append(digit_str((f / 10) % 10));
    if f % 10 == 0 {
        assert(out@ =~= ms_dec_str(ms as nat));
        return out;
    }
    out.append(digit_str(f % 10));
    assert(out@ =~= ms_dec_str(ms as nat));
    out
}

/// Three-digit zero-padded rendering, as in cycled segment file names.
pub open spec fn pad3_str(n: nat) -> Seq<char> {
    if n < 10 {
        seq!['0', '0'] + dec_str(n)
    } else if n < 100 {
        seq!['0'] + dec_str(n)
    } else {
        dec_str(n)
    }
}

/// Render `n` as at least three digits, zero-padded.
pub fn pad3(n: u64) -> (r: String)
    ensures
        r@ == pad3_str(n as nat),
{
    proof {
        reveal_strlit("00");
        reveal_strlit("0");
    }
    if n < 10 {
        let mut out = "00".to_owned();
        out.append(u64_to_string(n).as_str());
        assert(out@ =~= pad3_str(n as nat));
        out
    } else if n < 100 {
        let mut out = "0".to_owned();
        out.append(u64_to_string(n).as_str());
        assert(out@ =~= pad3_str(n as nat));
        out
    } else {
        u64_to_string(n)
    }
}

/// Parse a non-negative decimal seconds string into milliseconds,
/// saturating: a string without decimal shape reads as zero, and a
/// value beyond `u64` as the largest `u64`.
pub open spec fn dec_ms_sat(s: Seq<char>) -> u64 {
    match dec_ms_opt(s) {
        Some(v) => if v > u64::MAX as nat {
            u64::MAX
        } else {
            v as u64
        },
        None => 0u64,
    }
}

/// Executable saturating decimal parser.
pub fn parse_decimal_sat(s: &str) -> (r: u64)
    ensures
        r == dec_ms_sat(s@),
{
    let len = s.unicode_len();
    let fd = first_dot(s);
    let dot: usize = match fd {
        Some(d) => d,
        None => len,
    };
    proof {
        assert(dot as int == s@.len() || s@[dot as int] == '.');
        assert(forall|j: int| 0 <= j < dot ==> s@[j] != '.');
        assert(dot == len ==> forall|j: int| 0 <= j < s@.len() ==> s@[j] != '.');
        assert forall|d: int| decimal_shape_at(s@, d) implies d == dot as int by {
            lemma_shape_dot_is(s@, dot as int, d);
        }
    }
    if len == 0 {
        assert(dec_ms_opt(s@) is None);
        return 0;
    }
    if dot != len && len == 1 {
        assert(dec_ms_opt(s@) is None) by {
            assert(!decimal_shape_at(s@, dot as int));
        }
        return 0;
    }
    let int_part = s.substring_char(0, dot);
    proof {
        if dot > 0 {
            assert(int_part@ == s@.subrange(0, dot as int));
        } else {
            assert(s@.subrange(0, 0) =~= Seq::<char>::empty());
        }
    }
    let int_val: u64;
    if dot == 0 {
        int_val = 0;
        assert(dec_val(s@.subrange(0, 0)) == 0);
    } else {
        match parse_u64(int_part) {
            Some(v) => {
                int_val = v;
            },
            None => {
                proof {
                    if all_digits(s@.subrange(0, dot as int)) {
                        if decimal_shape_at(s@, dot as int) {
                            lemma_dec_ms_at(s@, dot as int);
                            assert(dec_val(s@.subrange(0, dot as int)) * 1000
                                >= dec_val(s@.subrange(0, dot as int)));
                        }
                    } else {
                        assert(!decimal_shape_at(s@, dot as int));
                    }
                }
                // either no decimal shape (reads as zero) or an integer
                // part beyond any u64 (saturates, if the rest is digits)
                if !all_digits_check(int_part) {
                    return 0;
                }
                if dot == len {
                    proof {
                        assert(s@.subrange(0, len as int) =~= s@);
                        assert(decimal_shape_at(s@, dot as int));
                    }
                    return u64::MAX;
                }
                let frac = s.substring_char(dot + 1, len);
                proof {
                    assert(frac@ == s@.subrange(dot + 1, s@.len() as int));
                }
                if digits_or_empty(frac) {
                    proof {
                        assert(decimal_shape_at(s@, dot as int));
                    }
                    return u64::MAX;
                }
                proof {
                    assert(!decimal_shape_at(s@, dot as int));
                }
                return 0;
            },
        }
    }
    if int_val > u64::MAX / 1000 {
        proof {
            if decimal_shape_at(s@, dot as int) {
                lemma_dec_ms_at(s@, dot as int);
                assert(int_val * 1000 > u64::MAX) by {
                    assert(int_val >= u64::MAX / 1000 + 1);
                };
            }
        }
        if dot == len {
            proof {
                assert(s@.subrange(0, len as int) =~= s@);
                assert(decimal_shape_at(s@, dot as int));
            }
            return u64::MAX;
        }
        // the fraction may still be malformed, which reads as zero
        let frac = s.substring_char(dot + 1, len);
        if digits_or_empty(frac) {
            proof {
                assert(frac@ == s@.subrange(dot + 1, s@.len() as int));
                assert(decimal_shape_at(s@, dot as int));
            }
            return u64::MAX;
        }
        proof {
            assert(frac@ == s@.subrange(dot + 1, s@.len() as int));
            assert(!decimal_shape_at(s@, dot as int));
        }
        return 0;
    }
    let int_ms: u64 = int_val * 1000;
    if dot != len {
        let frac = s.substring_char(dot + 1, len);
        let flen = frac.unicode_len();
        let mut f_ms: u64 = 0;
        let mut k: usize = 0;
        while k < flen
            invariant
                flen == frac@.len(),
                len == s@.len(),
                dot < len,
                frac@ == s@.subrange(dot + 1, s@.len() as int),
                forall|d: int| decimal_shape_at(s@, d) ==> d == dot as int,
                0 <= k <= flen,
                all_digits(frac@.subrange(0, k as int)),
                f_ms == frac_ms(frac@.subrange(0, k as int))
                    || (k >= 3 && f_ms == frac_ms(frac@)),
                f_ms < 1000,
                k >= 3 ==> f_ms == frac_ms(frac@),
            decreases flen - k,
        {
            let c = frac.get_char(k);
            if !is_digit_char(c) {
                proof {
                    assert(!decimal_shape_at(s@, dot as int));
                }
                return 0;
            }
            proof {
                assert(frac@.subrange(0, k + 1).drop_last() =~= frac@.subrange(0, k as int));
            }
            if k == 0 {
                f_ms = digit_of(c) * 100;
                assert(frac@.subrange(0, 1)[0] == frac@[0]);
            } else if k == 1 {
                f_ms = f_ms + digit_of(c) * 10;
                assert(frac@.subrange(0, 2)[0] == frac@[0]);
                assert(frac@.subrange(0, 2)[1] == frac@[1]);
            } else if k == 2 {
                f_ms = f_ms + digit_of(c);
                assert(frac@.subrange(0, 3)[0] == frac@[0]);
                assert(frac@.subrange(0, 3)[1] == frac@[1]);
                assert(frac@.subrange(0, 3)[2] == frac@[2]);
            } else {
                proof {
                    if k == 3 {
                        lemma_frac_ms_prefix(frac@, 3);
                    }
                }
            }
            proof {
                if k <= 2 {
                    lemma_frac_prefix_vals(frac@, k as int);
                }
                assert(all_digits(frac@.subrange(0, k + 1))) by {
                    assert(forall|j: int| 0 <= j < k + 1 ==> is_digit(
                        #[trigger] frac@.subrange(0, k + 1)[j],
                    ));
                }
            }
            k += 1;
        }
        proof {
            assert(frac@.subrange(0, flen as int) =~= frac@);
            if flen < 3 {
                assert(f_ms == frac_ms(frac@));
            }
            lemma_frac_ms_bound(frac@);
            assert(decimal_shape_at(s@, dot as int)) by {
                assert(frac@ == s@.subrange(dot + 1, s@.len() as int));
            }
            lemma_dec_ms_at(s@, dot as int);
        }
        if int_ms > u64::MAX - f_ms {
            return u64::MAX;
        }
        let total = int_ms + f_ms;
        assert(total == decimal_ms_at(s@, dot as int));
        return total;
    }
    proof {
        assert(s@.subrange(0, len as int) =~= s@);
        assert(decimal_shape_at(s@, dot as int));
        lemma_dec_ms_at(s@, dot as int);
        assert(int_ms == decimal_ms_at(s@, dot as int));
    }
    int_ms
}

/// Whether every character of `s` is a digit (an empty string counts).
fn digits_or_empty(s: &str) -> (r: bool)
    ensures
        r == all_digits(s@),
{
    let len = s.unicode_len();
    let mut i: usize = 0;
    while i < len
        invariant
            len == s@.len(),
            0 <= i <= len,
            forall|j: int| 0 <= j < i ==> is_digit(#[trigger] s@[j]),
        decreases len - i,
    {
        if !is_digit_char(s.get_char(i)) {
            return false;
        }
        i += 1;
    }
    true
}

/// Whether every character of `s` is a digit and `s` is non-empty.
fn all_digits_check(s: &str) -> (r: bool)
    ensures
        r == (s@.len() > 0 && all_digits(s@)),
{
    let len = s.unicode_len();
    if len == 0 {
        return false;
    }
    let mut i: usize = 0;
    while i < len
        invariant
            len == s@.len(),
            0 <= i <= len,
            forall|j: int| 0 <= j < i ==> is_digit(#[trigger] s@[j]),
        decreases len - i,
    {
        if !is_digit_char(s.get_char(i)) {
            return false;
        }
        i += 1;
    }
    true
}

} // verus!
