//! Byte-level building blocks of the JSON texts this library emits and
//! accepts: escaped string bodies and decimal integers, each with a spec
//! encoder, a spec parser, exec implementations, and round-trip lemmas.
//!
//! The accepted grammar is deliberately canonical: object keys in a fixed
//! order, no insignificant whitespace, string escapes `\"`, `\\` and
//! `\uXXXX` for values below 0x80, and integers without leading zeros.
use vstd::prelude::*;

verus! {

pub open spec fn is_digit(b: u8) -> bool {
    48 <= b <= 57
}

/// Lower-case hex digit for a value below 16.
pub open spec fn hex_digit(v: u8) -> u8 {
    if v < 10 {
        (48 + v) as u8
    } else {
        (87 + v) as u8
    }
}

/// Value of a hex digit byte, either case.
pub open spec fn hex_val(b: u8) -> Option<u8> {
    if 48 <= b <= 57 {
        Some((b - 48) as u8)
    } else if 97 <= b <= 102 {
        Some((b - 87) as u8)
    } else if 65 <= b <= 70 {
        Some((b - 55) as u8)
    } else {
        None
    }
}

/// How one byte of a string value is written inside quotes.
pub open spec fn esc_byte(b: u8) -> Seq<u8> {
    if b == 34 {
        seq![92u8, 34u8]
    } else if b == 92 {
        seq![92u8, 92u8]
    } else if b < 32 {
        seq![92u8, 117u8, 48u8, 48u8, hex_digit(b >> 4), hex_digit(b & 15)]
    } else {
        seq![b]
    }
}

/// The escaped text of a string value (without the surrounding quotes).
pub open spec fn json_escaped(s: Seq<u8>) -> Seq<u8>
    decreases s.len(),
{
    if s.len() == 0 {
        Seq::<u8>::empty()
    } else {
        esc_byte(s[0]) + json_escaped(s.skip(1))
    }
}

/// Parse an escaped string body in `s` starting at `i` (just after the
/// opening quote) up to and including the closing quote. Returns the
/// unescaped content and the position after the closing quote.
pub open spec fn parse_str_content(s: Seq<u8>, i: int) -> Option<(Seq<u8>, int)>
    decreases s.len() - i when 0 <= i <= s.len()
{
    if i >= s.len() {
        None
    } else if s[i] == 34 {
        Some((Seq::<u8>::empty(), i + 1))
    } else if s[i] == 92 {
        if i + 1 >= s.len() {
            None
        } else if s[i + 1] == 34 || s[i + 1] == 92 {
            match parse_str_content(s, i + 2) {
                Some(p) => Some((seq![s[i + 1]] + p.0, p.1)),
                None => None,
            }
        } else if s[i + 1] == 117 {
            if s.len() - i < 6 {
                None
            } else if hex_val(s[i + 2]) is Some && hex_val(s[i + 3]) is Some && hex_val(
                s[i + 4],
            ) is Some && hex_val(s[i + 5]) is Some {
                let v = hex_val(s[i + 2]).unwrap() * 4096 + hex_val(s[i + 3]).unwrap() * 256
                    + hex_val(s[i + 4]).unwrap() * 16 + hex_val(s[i + 5]).unwrap();
                if v < 128 {
                    match parse_str_content(s, i + 6) {
                        Some(p) => Some((seq![v as u8] + p.0, p.1)),
                        None => None,
                    }
                } else {
                    None
                }
            } else {
                None
            }
        } else {
            None
        }
    } else if s[i] < 32 {
        None
    } else {
        match parse_str_content(s, i + 1) {
            Some(p) => Some((seq![s[i]] + p.0, p.1)),
            None => None,
        }
    }
}

pub proof fn lemma_parse_str_content_bounds(s: Seq<u8>, i: int)
    requires
        0 <= i <= s.len(),
    ensures
        parse_str_content(s, i) is Some ==> i < parse_str_content(s, i).unwrap().1 <= s.len(),
    decreases s.len() - i,
{
    if i < s.len() {
        if s[i] == 92 {
            if i + 1 < s.len() && (s[i + 1] == 34 || s[i + 1] == 92) {
                lemma_parse_str_content_bounds(s, i + 2);
            } else if i + 1 < s.len() && s[i + 1] == 117 && s.len() - i >= 6 {
                lemma_parse_str_content_bounds(s, i + 6);
            }
        } else if s[i] != 34 && s[i] >= 32 {
            lemma_parse_str_content_bounds(s, i + 1);
        }
    }
}

/// Parsing recovers exactly the string that was escaped, when the buffer
/// holds the escaped text followed by a closing quote.
pub proof fn lemma_escape_then_parse(u: Seq<u8>, s: Seq<u8>, i: int)
    requires
        0 <= i,
        i + json_escaped(u).len() + 1 <= s.len(),
        s.subrange(i, i + json_escaped(u).len() + 1) == json_escaped(u) + seq![34u8],
    ensures
        parse_str_content(s, i) == Some((u, i + json_escaped(u).len() + 1)),
    decreases u.len(),
{
    let e = json_escaped(u);
    let sub = s.subrange(i, i + e.len() + 1);
    if u.len() == 0 {
        assert(s[i] == sub[0]);
        assert(s[i] == 34);
    } else {
        let b = u[0];
        let rest_e = json_escaped(u.skip(1));
        assert(e == esc_byte(b) + rest_e);
        let k = esc_byte(b).len();
        // the tail of the buffer holds the escaped remainder
        assert(s.subrange(i + k, i + k + rest_e.len() + 1) == rest_e + seq![34u8]) by {
            assert forall|m: int| 0 <= m < rest_e.len() + 1 implies s.subrange(
                i + k,
                i + k + rest_e.len() + 1,
            )[m] == (rest_e + seq![34u8])[m] by {
                assert(s[i + k + m] == sub[k + m]);
                assert(sub[k + m] == (esc_byte(b) + rest_e + seq![34u8])[k + m]);
            }
            assert(s.subrange(i + k, i + k + rest_e.len() + 1) =~= rest_e + seq![34u8]);
        }
        lemma_escape_then_parse(u.skip(1), s, i + k);
        // each buffer byte of the escape is visible through the subrange
        assert forall|m: int| 0 <= m < k implies s[i + m] == esc_byte(b)[m] by {
            assert(s[i + m] == sub[m]);
            assert(sub[m] == (esc_byte(b) + rest_e + seq![34u8])[m]);
        }
        assert(s[i] == esc_byte(b)[0]) by {
            assert(s[i + 0] == esc_byte(b)[0]);
        }
        if b == 34 || b == 92 {
            assert(s[i + 1] == esc_byte(b)[1]);
            assert(s[i] == 92 && s[i + 1] == b);
            assert(parse_str_content(s, i) == Some((seq![b] + u.skip(1), i + k + rest_e.len() + 1)));
            assert(seq![b] + u.skip(1) =~= u);
        } else if b < 32 {
            assert(s[i + 1] == esc_byte(b)[1] && s[i + 2] == esc_byte(b)[2] && s[i + 3]
                == esc_byte(b)[3] && s[i + 4] == esc_byte(b)[4] && s[i + 5] == esc_byte(b)[5]);
            assert(s[i] == 92 && s[i + 1] == 117 && s[i + 2] == 48 && s[i + 3] == 48);
            assert(s[i + 4] == hex_digit(b >> 4) && s[i + 5] == hex_digit(b & 15));
            assert(b >> 4 < 16 && b & 15 < 16) by (bit_vector);
            assert(hex_val(hex_digit(b >> 4)) == Some(b >> 4));
            assert(hex_val(hex_digit(b & 15)) == Some(b & 15));
            let v = (b >> 4) * 16 + (b & 15);
            assert((b >> 4) * 16 + (b & 15) == b) by (bit_vector);
            assert(v == b);
            assert(i + 1 < s.len() && s.len() - i >= 6);
            assert(parse_str_content(s, i) == Some((seq![b] + u.skip(1), i + k + rest_e.len() + 1)));
            assert(seq![b] + u.skip(1) =~= u);
        } else {
            assert(s[i] == b);
            assert(b != 34 && b != 92 && b >= 32);
            assert(parse_str_content(s, i) == Some((seq![b] + u.skip(1), i + k + rest_e.len() + 1)));
            assert(seq![b] + u.skip(1) =~= u);
        }
    }
}

/// First position at or after `i` whose byte is not a decimal digit.
pub open spec fn digits_end(s: Seq<u8>, i: int) -> int
    decreases s.len() - i when 0 <= i <= s.len()
{
    if i >= s.len() {
        i
    } else if is_digit(s[i]) {
        digits_end(s, i + 1)
    } else {
        i
    }
}

pub proof fn lemma_digits_end_props(s: Seq<u8>, i: int)
    requires
        0 <= i <= s.len(),
    ensures
        i <= digits_end(s, i) <= s.len(),
        forall|m: int| i <= m < digits_end(s, i) ==> is_digit(s[m]),
        digits_end(s, i) < s.len() ==> !is_digit(s[digits_end(s, i)]),
    decreases s.len() - i,
{
    if i < s.len() && is_digit(s[i]) {
        lemma_digits_end_props(s, i + 1);
    }
}

/// A digit run bounded on both sides determines `digits_end`.
pub proof fn lemma_digits_end_exact(s: Seq<u8>, i: int, j: int)
    requires
        0 <= i <= j <= s.len(),
        forall|m: int| i <= m < j ==> is_digit(s[m]),
        j < s.len() ==> !is_digit(s[j]),
    ensures
        digits_end(s, i) == j,
    decreases j - i,
{
    if i < j {
        lemma_digits_end_exact(s, i + 1, j);
    }
}

/// Value of the digit run `s[i..j]`.
pub open spec fn digits_val(s: Seq<u8>, i: int, j: int) -> int
    decreases j - i,
{
    if j <= i {
        0
    } else {
        digits_val(s, i, j - 1) * 10 + (s[j - 1] - 48)
    }
}

pub open spec fn pow10(k: nat) -> int
    decreases k,
{
    if k == 0 {
        1
    } else {
        10 * pow10((k - 1) as nat)
    }
}

pub proof fn lemma_digits_val_bounds(s: Seq<u8>, i: int, j: int)
    requires
        0 <= i <= j <= s.len(),
        forall|m: int| i <= m < j ==> is_digit(s[m]),
    ensures
        0 <= digits_val(s, i, j) < pow10((j - i) as nat),
        i < j && s[i] != 48 ==> digits_val(s, i, j) >= pow10((j - i - 1) as nat),
    decreases j - i,
{
    if i < j {
        lemma_digits_val_bounds(s, i, j - 1);
        assert(pow10((j - i) as nat) == 10 * pow10((j - i - 1) as nat));
        if i < j - 1 && s[i] != 48 {
            assert(pow10((j - i - 1) as nat) == 10 * pow10((j - i - 2) as nat));
        }
    }
}

/// The value of a run is the value of the same bytes taken as their own
/// sequence.
pub proof fn lemma_digits_val_subrange(s: Seq<u8>, i: int, j: int)
    requires
        0 <= i <= j <= s.len(),
    ensures
        digits_val(s, i, j) == digits_val(s.subrange(i, j), 0, j - i),
    decreases j - i,
{
    if i < j {
        lemma_digits_val_subrange(s, i, j - 1);
        assert(s.subrange(i, j - 1) =~= s.subrange(i, j).subrange(0, j - 1 - i));
        lemma_digits_val_prefix(s.subrange(i, j), j - i);
    }
}

/// Shortening a digit-value computation to a prefix of the sequence.
proof fn lemma_digits_val_prefix(t: Seq<u8>, j: int)
    requires
        0 < j <= t.len(),
    ensures
        digits_val(t, 0, j - 1) == digits_val(t.subrange(0, j - 1), 0, j - 1),
    decreases j,
{
    if j > 1 {
        lemma_digits_val_prefix(t, j - 1);
        assert(t.subrange(0, j - 2) =~= t.subrange(0, j - 1).subrange(0, j - 2));
        lemma_digits_val_prefix(t.subrange(0, j - 1), j - 1);
    }
}

/// Decimal text of a nonnegative number.
pub open spec fn dec_u64(n: int) -> Seq<u8>
    decreases n when n >= 0
{
    if 0 <= n < 10 {
        seq![(48 + n) as u8]
    } else if n >= 10 {
        dec_u64(n / 10) + seq![(48 + n % 10) as u8]
    } else {
        Seq::<u8>::empty()
    }
}

/// Decimal text of a signed number.
pub open spec fn dec_i64(v: int) -> Seq<u8> {
    if v < 0 {
        seq![45u8] + dec_u64(-v)
    } else {
        dec_u64(v)
    }
}

pub proof fn lemma_dec_u64_props(n: int)
    requires
        n >= 0,
    ensures
        dec_u64(n).len() >= 1,
        forall|m: int| 0 <= m < dec_u64(n).len() ==> is_digit(#[trigger] dec_u64(n)[m]),
        digits_val(dec_u64(n), 0, dec_u64(n).len() as int) == n,
        n > 0 ==> dec_u64(n)[0] != 48,
        n < 10 ==> dec_u64(n).len() == 1,
    decreases n,
{
    reveal_with_fuel(digits_val, 3);
    if n >= 10 {
        lemma_dec_u64_props(n / 10);
        let d = dec_u64(n);
        let p = dec_u64(n / 10);
        assert(d == p + seq![(48 + n % 10) as u8]);
        assert(forall|m: int| 0 <= m < p.len() ==> d[m] == p[m]);
        assert(d[d.len() - 1] == 48 + n % 10);
        assert(d.subrange(0, p.len() as int) =~= p);
        lemma_digits_val_subrange(d, 0, p.len() as int);
        assert(digits_val(d, 0, p.len() as int) == digits_val(p, 0, p.len() as int));
        assert(digits_val(d, 0, d.len() as int) == digits_val(d, 0, d.len() - 1) * 10 + (d[d.len()
            - 1] - 48));
        assert(n / 10 > 0);
        assert(d[0] == p[0]);
    }
}

/// Parse an optionally signed integer at `i`: sign, then a digit run with
/// no leading zero, accepted only when the value fits a 64-bit signed
/// integer. Returns the value and the position after the last digit.
pub open spec fn parse_int_at_spec(s: Seq<u8>, i: int) -> Option<(int, int)> {
    let neg = i < s.len() && s[i] == 45;
    let k = if neg {
        i + 1
    } else {
        i
    };
    let j = digits_end(s, k);
    if j == k {
        None
    } else if s[k] == 48 && j > k + 1 {
        None
    } else {
        let mag = digits_val(s, k, j);
        let v = if neg {
            -mag
        } else {
            mag
        };
        if -0x8000000000000000 <= v <= 0x7fffffffffffffff {
            Some((v, j))
        } else {
            None
        }
    }
}

/// Parsing recovers exactly the number that was written, when the buffer
/// holds its decimal text followed by a byte that is not a digit.
pub proof fn lemma_dec_then_parse(v: int, s: Seq<u8>, i: int)
    requires
        -0x8000000000000000 <= v <= 0x7fffffffffffffff,
        0 <= i,
        i + dec_i64(v).len() < s.len(),
        s.subrange(i, i + dec_i64(v).len()) == dec_i64(v),
        !is_digit(s[i + dec_i64(v).len()]),
    ensures
        parse_int_at_spec(s, i) == Some((v, i + dec_i64(v).len())),
{
    let d = dec_i64(v);
    let mag = if v < 0 {
        -v
    } else {
        v
    };
    lemma_dec_u64_props(mag);
    let u = dec_u64(mag);
    let k = if v < 0 {
        i + 1
    } else {
        i
    };
    // buffer bytes of the digit run
    assert forall|m: int| 0 <= m < u.len() implies s[k + m] == u[m] by {
        if v < 0 {
            assert(s[k + m] == s.subrange(i, i + d.len())[m + 1]);
        } else {
            assert(s[k + m] == s.subrange(i, i + d.len())[m]);
        }
    }
    if v < 0 {
        assert(s[i] == s.subrange(i, i + d.len())[0]);
        assert(s[i] == 45);
    } else {
        assert(s[i] == s.subrange(i, i + d.len())[0]);
        assert(s[i] == u[0]);
        assert(is_digit(s[i]));
        assert(s[i] != 45);
    }
    let j = k + u.len();
    assert forall|q: int| k <= q < j implies is_digit(s[q]) by {
        assert(s[k + (q - k)] == u[q - k]);
    }
    assert(j < s.len() && !is_digit(s[j]));
    lemma_digits_end_exact(s, k, j as int);
    lemma_digits_val_subrange(s, k, j as int);
    assert(s.subrange(k, j as int) =~= u);
    assert(digits_val(s, k, j as int) == digits_val(u, 0, u.len() as int));
    if mag == 0 {
        assert(u.len() == 1);
    } else {
        assert(s[k] == u[0] && u[0] != 48);
    }
}

// ------------------------------------------------------------------
// Exec counterparts
// ------------------------------------------------------------------
/// Append the escaped form of `s` to `out`.
pub fn append_json_escaped(out: &mut Vec<u8>, s: &[u8])
    ensures
        final(out)@ == old(out)@ + json_escaped(s@),
{
    let n: usize = s.len();
    let mut i: usize = 0;
    while i < n
        invariant
            n == s@.len(),
            i <= n,
            out@ == old(out)@ + json_escaped(s@.subrange(0, i as int)),
        decreases n - i,
    {
        let b: u8 = s[i];
        if b == 34 {
            out.push(92);
            out.push(34);
        } else if b == 92 {
            out.push(92);
            out.push(92);
        } else if b < 32 {
            out.push(92);
            out.push(117);
            out.push(48);
            out.push(48);
            let hi: u8 = b >> 4;
            let lo: u8 = b & 15;
            assert(hi < 16 && lo < 16) by (bit_vector)
                requires
                    hi == b >> 4 && lo == b & 15,
            ;
            out.push(if hi < 10 {
                48 + hi
            } else {
                87 + hi
            });
            out.push(if lo < 10 {
                48 + lo
            } else {
                87 + lo
            });
        } else {
            out.push(b);
        }
        proof {
            lemma_json_escaped_snoc(s@, i as int);
            assert(out@ =~= old(out)@ + json_escaped(s@.subrange(0, i + 1)));
        }
        i = i + 1;
    }
    proof {
        assert(s@.subrange(0, n as int) =~= s@);
    }
}

/// Escaping one more byte extends the escaped text by that byte's escape.
proof fn lemma_json_escaped_snoc(s: Seq<u8>, i: int)
    requires
        0 <= i < s.len(),
    ensures
        json_escaped(s.subrange(0, i + 1)) == json_escaped(s.subrange(0, i)) + esc_byte(s[i]),
    decreases i,
{
    if i == 0 {
        assert(s.subrange(0, 1) =~= seq![s[0]]);
        assert(json_escaped(seq![s[0]]) == esc_byte(s[0]) + json_escaped(
            seq![s[0]].skip(1),
        ));
        assert(seq![s[0]].skip(1) =~= Seq::<u8>::empty());
        assert(json_escaped(s.subrange(0, 0)) == Seq::<u8>::empty());
        assert(json_escaped(s.subrange(0, 1)) =~= esc_byte(s[0]));
    } else {
        let a = s.subrange(0, i + 1);
        let b = s.subrange(0, i);
        assert(json_escaped(a) == esc_byte(a[0]) + json_escaped(a.skip(1)));
        assert(json_escaped(b) == esc_byte(b[0]) + json_escaped(b.skip(1)));
        assert(a.skip(1) =~= s.skip(1).subrange(0, i));
        assert(b.skip(1) =~= s.skip(1).subrange(0, i - 1));
        lemma_json_escaped_snoc(s.skip(1), i - 1);
        assert(s.skip(1)[i - 1] == s[i]);
        assert(json_escaped(a) =~= json_escaped(b) + esc_byte(s[i]));
    }
}

/// Append the decimal text of a nonnegative number to `out`.
pub fn append_dec_u64(out: &mut Vec<u8>, n: u64)
    ensures
        final(out)@ == old(out)@ + dec_u64(n as int),
    decreases n,
{
    if n < 10 {
        out.push(48 + (n as u8));
        assert(out@ =~= old(out)@ + dec_u64(n as int));
    } else {
        append_dec_u64(out, n / 10);
        out.push(48 + ((n % 10) as u8));
        assert(out@ =~= old(out)@ + dec_u64(n as int));
    }
}

/// Append the decimal text of a signed number to `out`.
pub fn append_dec_i64(out: &mut Vec<u8>, v: i64)
    ensures
        final(out)@ == old(out)@ + dec_i64(v as int),
{
    if v >= 0 {
        append_dec_u64(out, v as u64);
    } else {
        out.push(45);
        // magnitude without overflowing on the smallest value
        let m: u64 = ((-(v + 1)) as u64) + 1;
        assert(m == -(v as int));
        append_dec_u64(out, m);
        assert(out@ =~= old(out)@ + dec_i64(v as int));
    }
}

/// Whether the byte at `j` is a decimal digit.
fn digit_at(s: &[u8], j: usize) -> (r: bool)
    requires
        j < s@.len(),
    ensures
        r == is_digit(s@[j as int]),
{
    let c: u8 = s[j];
    48 <= c && c <= 57
}

/// Hex digit value, either case.
pub fn hexv(b: u8) -> (r: Option<u8>)
    ensures
        r == hex_val(b),
{
    if 48 <= b && b <= 57 {
        Some(b - 48)
    } else if 97 <= b && b <= 102 {
        Some(b - 87)
    } else if 65 <= b && b <= 70 {
        Some(b - 55)
    } else {
        None
    }
}

/// Parse an escaped string body starting at `i0` (just after the opening
/// quote); returns the content and the position after the closing quote.
pub fn parse_string_at(s: &[u8], i0: usize) -> (r: Option<(Vec<u8>, usize)>)
    requires
        i0 <= s@.len(),
    ensures
        match r {
            Some(p) => parse_str_content(s@, i0 as int) == Some((p.0@, p.1 as int)) && p.1
                <= s@.len(),
            None => parse_str_content(s@, i0 as int) is None,
        },
{
    let n: usize = s.len();
    let mut acc: Vec<u8> = Vec::new();
    let mut i: usize = i0;
    loop
        invariant
            i0 <= i <= n,
            n == s@.len(),
            parse_str_content(s@, i as int) is Some ==> parse_str_content(s@, i0 as int)
                == Some(
                (
                    acc@ + parse_str_content(s@, i as int).unwrap().0,
                    parse_str_content(s@, i as int).unwrap().1,
                ),
            ),
            parse_str_content(s@, i as int) is None ==> parse_str_content(s@, i0 as int) is None,
        decreases n - i,
    {
        if i >= n {
            return None;
        }
        let b: u8 = s[i];
        if b == 34 {
            proof {
                assert(parse_str_content(s@, i as int) == Some((Seq::<u8>::empty(), i + 1)));
                assert(acc@ + Seq::<u8>::empty() =~= acc@);
                lemma_parse_str_content_bounds(s@, i0 as int);
            }
            return Some((acc, i + 1));
        } else if b == 92 {
            if n - i < 2 {
                return None;
            }
            let e: u8 = s[i + 1];
            if e == 34 || e == 92 {
                proof {
                    if parse_str_content(s@, i + 2) is Some {
                        let p = parse_str_content(s@, i + 2).unwrap();
                        assert(acc@ + (seq![e] + p.0) =~= (acc@ + seq![e]) + p.0);
                    }
                }
                acc.push(e);
                i = i + 2;
            } else if e == 117 {
                if n - i < 6 {
                    return None;
                }
                let h0 = hexv(s[i + 2]);
                let h1 = hexv(s[i + 3]);
                let h2 = hexv(s[i + 4]);
                let h3 = hexv(s[i + 5]);
                if h0.is_none() || h1.is_none() || h2.is_none() || h3.is_none() {
                    return None;
                }
                let v: u32 = (h0.unwrap() as u32) * 4096 + (h1.unwrap() as u32) * 256 + (h2.unwrap()
                    as u32) * 16 + (h3.unwrap() as u32);
                if v >= 128 {
                    return None;
                }
                proof {
                    if parse_str_content(s@, i + 6) is Some {
                        let p = parse_str_content(s@, i + 6).unwrap();
                        assert(acc@ + (seq![v as u8] + p.0) =~= (acc@ + seq![v as u8]) + p.0);
                    }
                }
                acc.push(v as u8);
                i = i + 6;
            } else {
                return None;
            }
        } else if b < 32 {
            return None;
        } else {
            proof {
                if parse_str_content(s@, i + 1) is Some {
                    let p = parse_str_content(s@, i + 1).unwrap();
                    assert(acc@ + (seq![b] + p.0) =~= (acc@ + seq![b]) + p.0);
                }
            }
            acc.push(b);
            i = i + 1;
        }
    }
}

/// Parse a signed decimal integer at `i0`; returns the value and the
/// position after the last digit.
pub fn parse_int_at(s: &[u8], i0: usize) -> (r: Option<(i64, usize)>)
    requires
        i0 <= s@.len(),
    ensures
        match r {
            Some(p) => parse_int_at_spec(s@, i0 as int) == Some((p.0 as int, p.1 as int)) && p.1
                <= s@.len(),
            None => parse_int_at_spec(s@, i0 as int) is None,
        },
{
    let n: usize = s.len();
    let mut k: usize = i0;
    let neg: bool = if i0 < n && s[i0] == 45 {
        k = i0 + 1;
        true
    } else {
        false
    };
    // find the end of the digit run
    let mut j: usize = k;
    while j < n && digit_at(s, j)
        invariant
            k <= j <= n,
            n == s@.len(),
            forall|m: int| k <= m < j ==> is_digit(s@[m]),
        decreases n - j,
    {
        j = j + 1;
    }
    proof {
        lemma_digits_end_exact(s@, k as int, j as int);
    }
    if j == k {
        return None;
    }
    if s[k] == 48 && j > k + 1 {
        return None;
    }
    proof {
        lemma_digits_val_bounds(s@, k as int, j as int);
        lemma_pow10_values();
    }
    if j - k > 19 {
        // at least twenty digits with no leading zero: out of range
        proof {
            lemma_pow10_increasing(19, (j - k - 1) as nat);
        }
        return None;
    }
    let mut mag: u64 = 0;
    let mut m: usize = k;
    while m < j
        invariant
            k <= m <= j <= n,
            n == s@.len(),
            j - k <= 19,
            forall|q: int| k <= q < j ==> is_digit(s@[q]),
            mag == digits_val(s@, k as int, m as int),
            mag < pow10((m - k) as nat),
        decreases j - m,
    {
        proof {
            lemma_pow10_values();
            lemma_pow10_increasing((m - k) as nat, 18);
        }
        let d: u8 = s[m] - 48;
        mag = mag * 10 + (d as u64);
        m = m + 1;
    }
    proof {
        lemma_pow10_values();
    }
    if neg {
        if mag > 0x8000000000000000 {
            return None;
        }
        if mag == 0x8000000000000000 {
            Some((i64::MIN, j))
        } else {
            Some((-(mag as i64), j))
        }
    } else {
        if mag > 0x7fffffffffffffff {
            return None;
        }
        Some((mag as i64, j))
    }
}

proof fn lemma_pow10_increasing(a: nat, b: nat)
    requires
        a <= b,
    ensures
        pow10(a) <= pow10(b),
        pow10(a) >= 1,
    decreases b,
{
    if a == b {
        if a > 0 {
            lemma_pow10_increasing((a - 1) as nat, (b - 1) as nat);
        }
    } else {
        lemma_pow10_increasing(a, (b - 1) as nat);
    }
}

proof fn lemma_pow10_values()
    ensures
        pow10(18) == 0xde0b6b3a7640000,
        pow10(19) == 0x8ac7230489e80000,
{
    reveal_with_fuel(pow10, 20);
}

/// Whether `s` holds exactly the bytes of `lit` starting at `i`.
pub fn expect_lit(s: &[u8], i: usize, lit: &[u8]) -> (r: bool)
    requires
        i <= s@.len(),
    ensures
        r == (i + lit@.len() <= s@.len() && s@.subrange(i as int, i + lit@.len()) == lit@),
{
    let w: usize = lit.len();
    let n: usize = s.len();
    if n - i < w {
        return false;
    }
    let mut m: usize = 0;
    while m < w
        invariant
            m <= w,
            i + w <= n,
            n == s@.len(),
            w == lit@.len(),
            forall|q: int| 0 <= q < m ==> s@[i + q] == lit@[q],
        decreases w - m,
    {
        if s[i + m] != lit[m] {
            assert(s@.subrange(i as int, i + lit@.len())[m as int] != lit@[m as int]);
            return false;
        }
        m = m + 1;
    }
    assert(s@.subrange(i as int, i + lit@.len()) =~= lit@);
    true
}

} // verus!
