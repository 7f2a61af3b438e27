//! The URL-safe, unpadded base64 alphabet used for every segment of a
//! session token, specified down to the byte so that token contracts can
//! speak about the exact text of a token.
use vstd::prelude::*;

verus! {

/// True of the bytes that can appear in an unpadded URL-safe base64 text.
pub open spec fn is_b64_char(c: u8) -> bool {
    (65 <= c <= 90) || (97 <= c <= 122) || (48 <= c <= 57) || c == 45 || c == 95
}

/// The alphabet byte standing for a 6-bit value.
pub open spec fn b64_digit(v: u8) -> u8 {
    if v < 26 {
        (65 + v) as u8
    } else if v < 52 {
        (97 + (v - 26)) as u8
    } else if v < 62 {
        (48 + (v - 52)) as u8
    } else if v == 62 {
        45u8
    } else {
        95u8
    }
}

pub open spec fn enc3(b0: u8, b1: u8, b2: u8) -> Seq<u8> {
    seq![
        b64_digit(b0 >> 2),
        b64_digit(((b0 & 3) << 4) | (b1 >> 4)),
        b64_digit(((b1 & 15) << 2) | (b2 >> 6)),
        b64_digit(b2 & 63),
    ]
}

pub open spec fn enc2(b0: u8, b1: u8) -> Seq<u8> {
    seq![
        b64_digit(b0 >> 2),
        b64_digit(((b0 & 3) << 4) | (b1 >> 4)),
        b64_digit((b1 & 15) << 2),
    ]
}

pub open spec fn enc1(b0: u8) -> Seq<u8> {
    seq![b64_digit(b0 >> 2), b64_digit((b0 & 3) << 4)]
}

/// Unpadded URL-safe base64 of a byte sequence.
pub open spec fn base64url_of(s: Seq<u8>) -> Seq<u8>
    decreases s.len(),
{
    if s.len() >= 3 {
        enc3(s[0], s[1], s[2]) + base64url_of(s.skip(3))
    } else if s.len() == 2 {
        enc2(s[0], s[1])
    } else if s.len() == 1 {
        enc1(s[0])
    } else {
        Seq::<u8>::empty()
    }
}

/// Length of the encoding of an `n`-byte input.
pub open spec fn b64_len(n: int) -> int
    decreases n when n >= 0
{
    if n <= 0 {
        0
    } else if n == 1 {
        2
    } else if n == 2 {
        3
    } else {
        4 + b64_len(n - 3)
    }
}

pub proof fn lemma_b64_len(s: Seq<u8>)
    ensures
        base64url_of(s).len() == b64_len(s.len() as int),
    decreases s.len(),
{
    if s.len() >= 3 {
        lemma_b64_len(s.skip(3));
    }
}

pub proof fn lemma_b64_len_increasing(n1: int, n2: int)
    requires
        0 <= n1 < n2,
    ensures
        b64_len(n1) < b64_len(n2),
    decreases n2,
{
    if n2 <= 3 {
        // b64_len on 0..3 is 0, 2, 3, 4: increasing by direct evaluation
        assert(b64_len(0) == 0 && b64_len(1) == 2 && b64_len(2) == 3);
        assert(b64_len(3) == 4 + b64_len(0));
    } else {
        if n1 >= 3 {
            lemma_b64_len_increasing(n1 - 3, n2 - 3);
        } else {
            assert(b64_len(n1) <= 3);
            if n2 - 3 >= 1 {
                lemma_b64_len_increasing(0, n2 - 3);
            }
            assert(b64_len(n2) == 4 + b64_len(n2 - 3));
        }
    }
}

/// Every byte of an encoding belongs to the alphabet; in particular no
/// segment of a token can contain a `.` separator.
pub proof fn lemma_b64_alphabet(s: Seq<u8>)
    ensures
        forall|i: int| 0 <= i < base64url_of(s).len() ==> is_b64_char(#[trigger] base64url_of(s)[i]),
    decreases s.len(),
{
    assert forall|v: u8| is_b64_char(b64_digit(v)) by {}
    if s.len() >= 3 {
        lemma_b64_alphabet(s.skip(3));
        assert forall|i: int| 0 <= i < base64url_of(s).len() implies is_b64_char(
            #[trigger] base64url_of(s)[i],
        ) by {
            if i >= 4 {
                assert(base64url_of(s)[i] == base64url_of(s.skip(3))[i - 4]);
            }
        }
    }
}

proof fn lemma_b64_digit_inj(x: u8, y: u8)
    requires
        x < 64,
        y < 64,
        b64_digit(x) == b64_digit(y),
    ensures
        x == y,
{
}

proof fn lemma_digit_ranges(b: u8)
    ensures
        b >> 2 < 64,
        (b & 3) << 4 < 64,
        (b & 15) << 2 < 64,
        b & 63 < 64,
        b >> 4 < 64,
        b >> 6 < 64,
{
    assert(b >> 2 < 64 && (b & 3) << 4 < 64 && (b & 15) << 2 < 64 && b & 63 < 64 && b >> 4 < 64
        && b >> 6 < 64) by (bit_vector);
}

proof fn lemma_group_bounds(b0: u8, b1: u8, b2: u8)
    ensures
        b0 >> 2 < 64,
        (((b0 & 3) << 4) | (b1 >> 4)) < 64,
        (((b1 & 15) << 2) | (b2 >> 6)) < 64,
        b2 & 63 < 64,
        (b0 & 3) << 4 < 64,
        (b1 & 15) << 2 < 64,
{
    assert(b0 >> 2 < 64 && (((b0 & 3) << 4) | (b1 >> 4)) < 64 && (((b1 & 15) << 2) | (b2 >> 6))
        < 64 && b2 & 63 < 64 && (b0 & 3) << 4 < 64 && (b1 & 15) << 2 < 64) by (bit_vector);
}

proof fn lemma_groups_determine_bytes3(a0: u8, a1: u8, a2: u8, c0: u8, c1: u8, c2: u8)
    requires
        a0 >> 2 == c0 >> 2,
        ((a0 & 3) << 4) | (a1 >> 4) == ((c0 & 3) << 4) | (c1 >> 4),
        ((a1 & 15) << 2) | (a2 >> 6) == ((c1 & 15) << 2) | (c2 >> 6),
        a2 & 63 == c2 & 63,
    ensures
        a0 == c0 && a1 == c1 && a2 == c2,
{
    assert(a0 == c0 && a1 == c1 && a2 == c2) by (bit_vector)
        requires
            a0 >> 2 == c0 >> 2,
            ((a0 & 3) << 4) | (a1 >> 4) == ((c0 & 3) << 4) | (c1 >> 4),
            ((a1 & 15) << 2) | (a2 >> 6) == ((c1 & 15) << 2) | (c2 >> 6),
            a2 & 63 == c2 & 63,
    ;
}

proof fn lemma_groups_determine_bytes2(a0: u8, a1: u8, c0: u8, c1: u8)
    requires
        a0 >> 2 == c0 >> 2,
        ((a0 & 3) << 4) | (a1 >> 4) == ((c0 & 3) << 4) | (c1 >> 4),
        (a1 & 15) << 2 == (c1 & 15) << 2,
    ensures
        a0 == c0 && a1 == c1,
{
    assert(a0 == c0 && a1 == c1) by (bit_vector)
        requires
            a0 >> 2 == c0 >> 2,
            ((a0 & 3) << 4) | (a1 >> 4) == ((c0 & 3) << 4) | (c1 >> 4),
            (a1 & 15) << 2 == (c1 & 15) << 2,
    ;
}

proof fn lemma_groups_determine_bytes1(a0: u8, c0: u8)
    requires
        a0 >> 2 == c0 >> 2,
        (a0 & 3) << 4 == (c0 & 3) << 4,
    ensures
        a0 == c0,
{
    assert(a0 == c0) by (bit_vector)
        requires
            a0 >> 2 == c0 >> 2,
            (a0 & 3) << 4 == (c0 & 3) << 4,
    ;
}

/// Two byte sequences with the same encoding are the same sequence.
pub proof fn lemma_base64url_injective(a: Seq<u8>, b: Seq<u8>)
    requires
        base64url_of(a) == base64url_of(b),
    ensures
        a == b,
    decreases a.len(),
{
    lemma_b64_len(a);
    lemma_b64_len(b);
    if a.len() != b.len() {
        if a.len() < b.len() {
            lemma_b64_len_increasing(a.len() as int, b.len() as int);
        } else {
            lemma_b64_len_increasing(b.len() as int, a.len() as int);
        }
        assert(false);
    }
    if a.len() == 0 {
        assert(a =~= b);
    } else if a.len() == 1 {
        lemma_digit_ranges(a[0]);
        lemma_digit_ranges(b[0]);
        lemma_b64_digit_inj(a[0] >> 2, b[0] >> 2);
        lemma_b64_digit_inj((a[0] & 3) << 4, (b[0] & 3) << 4);
        lemma_groups_determine_bytes1(a[0], b[0]);
        assert(a =~= b);
    } else if a.len() == 2 {
        lemma_group_bounds(a[0], a[1], 0);
        lemma_group_bounds(b[0], b[1], 0);
        lemma_b64_digit_inj(a[0] >> 2, b[0] >> 2);
        lemma_b64_digit_inj(((a[0] & 3) << 4) | (a[1] >> 4), ((b[0] & 3) << 4) | (b[1] >> 4));
        lemma_b64_digit_inj((a[1] & 15) << 2, (b[1] & 15) << 2);
        lemma_groups_determine_bytes2(a[0], a[1], b[0], b[1]);
        assert(a =~= b);
    } else {
        let ea = base64url_of(a);
        let eb = base64url_of(b);
        assert(ea[0] == enc3(a[0], a[1], a[2])[0] && ea[1] == enc3(a[0], a[1], a[2])[1] && ea[2]
            == enc3(a[0], a[1], a[2])[2] && ea[3] == enc3(a[0], a[1], a[2])[3]);
        assert(eb[0] == enc3(b[0], b[1], b[2])[0] && eb[1] == enc3(b[0], b[1], b[2])[1] && eb[2]
            == enc3(b[0], b[1], b[2])[2] && eb[3] == enc3(b[0], b[1], b[2])[3]);
        lemma_group_bounds(a[0], a[1], a[2]);
        lemma_group_bounds(b[0], b[1], b[2]);
        lemma_b64_digit_inj(a[0] >> 2, b[0] >> 2);
        lemma_b64_digit_inj(((a[0] & 3) << 4) | (a[1] >> 4), ((b[0] & 3) << 4) | (b[1] >> 4));
        lemma_b64_digit_inj(((a[1] & 15) << 2) | (a[2] >> 6), ((b[1] & 15) << 2) | (b[2] >> 6));
        lemma_b64_digit_inj(a[2] & 63, b[2] & 63);
        lemma_groups_determine_bytes3(a[0], a[1], a[2], b[0], b[1], b[2]);
        assert(base64url_of(a.skip(3)) =~= ea.skip(4));
        assert(base64url_of(b.skip(3)) =~= eb.skip(4));
        lemma_base64url_injective(a.skip(3), b.skip(3));
        assert(a =~= b) by {
            assert(a.skip(3) =~= b.skip(3));
            assert(forall|i: int| 3 <= i < a.len() ==> a[i] == a.skip(3)[i - 3]);
            assert(forall|i: int| 3 <= i < b.len() ==> b[i] == b.skip(3)[i - 3]);
        }
    }
}

/// True when some byte sequence encodes to `s`.
pub open spec fn b64_decodable(s: Seq<u8>) -> bool {
    exists|v: Seq<u8>| base64url_of(v) == s
}

/// The unique byte sequence whose encoding is `s` (meaningful only when
/// `b64_decodable(s)`).
pub open spec fn b64_decoded(s: Seq<u8>) -> Seq<u8> {
    choose|v: Seq<u8>| base64url_of(v) == s
}

/// Relies on base64's `URL_SAFE_NO_PAD` engine: the encoding of the input in
/// the URL-safe alphabet, without padding.
#[verifier::external_body]
pub fn b64url_encode(b: &[u8]) -> (r: Vec<u8>)
    ensures
        r@ == base64url_of(b@),
{
    base64::Engine::encode(&base64::engine::general_purpose::URL_SAFE_NO_PAD, b).into_bytes()
}

/// Relies on base64's `URL_SAFE_NO_PAD` engine: it decodes exactly the
/// canonical unpadded URL-safe encodings (padding is refused and non-zero
/// trailing bits are refused), so it succeeds precisely on the range of
/// `base64url_of`.
#[verifier::external_body]
pub fn b64url_decode(s: &[u8]) -> (r: Option<Vec<u8>>)
    ensures
        match r {
            Some(v) => base64url_of(v@) == s@,
            None => !b64_decodable(s@),
        },
{
    base64::Engine::decode(&base64::engine::general_purpose::URL_SAFE_NO_PAD, s).ok()
}

/// A successful decode yields exactly `b64_decoded` of the input.
pub proof fn lemma_decode_unique(v: Seq<u8>, s: Seq<u8>)
    requires
        base64url_of(v) == s,
    ensures
        b64_decodable(s),
        b64_decoded(s) == v,
{
    assert(b64_decodable(s));
    lemma_base64url_injective(b64_decoded(s), v);
}

} // verus!
