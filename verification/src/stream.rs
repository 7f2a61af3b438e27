//! The client stream consumer's wire format: a server-push frame is the
//! marker `data:` followed by the message as a JSON object and trailing
//! newlines. Only frames bearing the marker are decoded; a malformed
//! frame yields nothing (the consumer skips it).
use crate::json::{
    append_dec_i64, append_json_escaped, dec_i64, expect_lit, json_escaped, parse_int_at,
    parse_int_at_spec, parse_str_content, parse_string_at,
};
use crate::models::Message;
use crate::strings::{string_from_utf8_opt, text_bytes};
use vstd::prelude::*;

verus! {

broadcast use vstd::utf8::encode_utf8_valid_utf8;

/// The byte-level content of a message, field by field.
pub struct MessageFields {
    pub id: Seq<u8>,
    pub content: Seq<u8>,
    pub sender_id: Seq<u8>,
    pub room_id: Seq<u8>,
    pub create_date: int,
    pub sender_name: Seq<u8>,
}

/// The byte-level content of a message value.
pub open spec fn message_fields_of(m: Message) -> MessageFields {
    MessageFields {
        id: text_bytes(m.id@),
        content: text_bytes(m.content@),
        sender_id: text_bytes(m.sender_id@),
        room_id: text_bytes(m.room_id@),
        create_date: m.create_date as int,
        sender_name: text_bytes(m.sender_name@),
    }
}

/// `{"id":"`
pub open spec fn m_pre() -> Seq<u8> {
    seq![123u8, 34u8, 105u8, 100u8, 34u8, 58u8, 34u8]
}

/// `","content":"`
pub open spec fn m_content() -> Seq<u8> {
    seq![34u8, 44u8, 34u8, 99u8, 111u8, 110u8, 116u8, 101u8, 110u8, 116u8, 34u8, 58u8, 34u8]
}

/// `","sender_id":"`
pub open spec fn m_sender_id() -> Seq<u8> {
    seq![
        34u8, 44u8, 34u8, 115u8, 101u8, 110u8, 100u8, 101u8, 114u8, 95u8, 105u8, 100u8, 34u8,
        58u8, 34u8,
    ]
}

/// `","room_id":"`
pub open spec fn m_room_id() -> Seq<u8> {
    seq![34u8, 44u8, 34u8, 114u8, 111u8, 111u8, 109u8, 95u8, 105u8, 100u8, 34u8, 58u8, 34u8]
}

/// `","create_date":`
pub open spec fn m_create_date() -> Seq<u8> {
    seq![
        34u8, 44u8, 34u8, 99u8, 114u8, 101u8, 97u8, 116u8, 101u8, 95u8, 100u8, 97u8, 116u8,
        101u8, 34u8, 58u8,
    ]
}

/// `,"sender_name":"`
pub open spec fn m_sender_name() -> Seq<u8> {
    seq![
        44u8, 34u8, 115u8, 101u8, 110u8, 100u8, 101u8, 114u8, 95u8, 110u8, 97u8, 109u8, 101u8,
        34u8, 58u8, 34u8,
    ]
}

/// The JSON text of a message.
pub open spec fn message_json_bytes(f: MessageFields) -> Seq<u8> {
    m_pre() + json_escaped(f.id) + m_content() + json_escaped(f.content) + m_sender_id()
        + json_escaped(f.sender_id) + m_room_id() + json_escaped(f.room_id) + m_create_date()
        + dec_i64(f.create_date) + m_sender_name() + json_escaped(f.sender_name) + seq![
        34u8,
        125u8,
    ]
}

/// `data:`
pub open spec fn data_marker() -> Seq<u8> {
    seq![100u8, 97u8, 116u8, 97u8, 58u8]
}

/// The whole frame: marker, JSON, a blank line.
pub open spec fn frame_bytes(f: MessageFields) -> Seq<u8> {
    data_marker() + message_json_bytes(f) + seq![10u8, 10u8]
}

/// Parse a message object in the canonical key order.
pub open spec fn parse_message_json(s: Seq<u8>) -> Option<MessageFields> {
    if s.len() >= 7 && s.subrange(0, 7) == m_pre() {
        match parse_str_content(s, 7) {
            None => None,
            Some(p1) => {
                if p1.1 + 12 <= s.len() && s.subrange(p1.1, p1.1 + 12) == m_content().skip(1) {
                    match parse_str_content(s, p1.1 + 12) {
                        None => None,
                        Some(p2) => {
                            if p2.1 + 14 <= s.len() && s.subrange(p2.1, p2.1 + 14)
                                == m_sender_id().skip(1) {
                                match parse_str_content(s, p2.1 + 14) {
                                    None => None,
                                    Some(p3) => {
                                        if p3.1 + 12 <= s.len() && s.subrange(p3.1, p3.1 + 12)
                                            == m_room_id().skip(1) {
                                            match parse_str_content(s, p3.1 + 12) {
                                                None => None,
                                                Some(p4) => parse_message_tail(s, p1, p2, p3, p4),
                                            }
                                        } else {
                                            None
                                        }
                                    },
                                }
                            } else {
                                None
                            }
                        },
                    }
                } else {
                    None
                }
            },
        }
    } else {
        None
    }
}

/// The tail of the object: the timestamp, the sender name, and the brace.
pub open spec fn parse_message_tail(
    s: Seq<u8>,
    p1: (Seq<u8>, int),
    p2: (Seq<u8>, int),
    p3: (Seq<u8>, int),
    p4: (Seq<u8>, int),
) -> Option<MessageFields> {
    if p4.1 + 15 <= s.len() && s.subrange(p4.1, p4.1 + 15) == m_create_date().skip(1) {
        match parse_int_at_spec(s, p4.1 + 15) {
            None => None,
            Some(q) => {
                if q.1 + 16 <= s.len() && s.subrange(q.1, q.1 + 16) == m_sender_name() {
                    match parse_str_content(s, q.1 + 16) {
                        None => None,
                        Some(p5) => {
                            if p5.1 + 1 == s.len() && s[p5.1] == 125 {
                                Some(
                                    MessageFields {
                                        id: p1.0,
                                        content: p2.0,
                                        sender_id: p3.0,
                                        room_id: p4.0,
                                        create_date: q.0,
                                        sender_name: p5.0,
                                    },
                                )
                            } else {
                                None
                            }
                        },
                    }
                } else {
                    None
                }
            },
        }
    } else {
        None
    }
}

pub open spec fn is_ws(b: u8) -> bool {
    b == 32 || b == 9 || b == 10 || b == 13
}

/// The text with its trailing whitespace removed.
pub open spec fn trim_ws(s: Seq<u8>) -> Seq<u8>
    decreases s.len(),
{
    if s.len() > 0 && is_ws(s.last()) {
        trim_ws(s.drop_last())
    } else {
        s
    }
}

/// Whether the fields can stand in a `Message` (each text is valid
/// UTF-8 and the timestamp fits its type).
pub open spec fn fields_representable(f: MessageFields) -> bool {
    &&& vstd::utf8::valid_utf8(f.id)
    &&& vstd::utf8::valid_utf8(f.content)
    &&& vstd::utf8::valid_utf8(f.sender_id)
    &&& vstd::utf8::valid_utf8(f.room_id)
    &&& vstd::utf8::valid_utf8(f.sender_name)
}

/// The complete meaning of decoding one pushed chunk: only `data:`
/// frames whose payload is a canonical message object with representable
/// fields yield a message.
pub open spec fn frame_decode(s: Seq<u8>) -> Option<MessageFields> {
    if s.len() >= 5 && s.subrange(0, 5) == data_marker() {
        match parse_message_json(trim_ws(s.skip(5))) {
            None => None,
            Some(f) => {
                if fields_representable(f) {
                    Some(f)
                } else {
                    None
                }
            },
        }
    } else {
        None
    }
}

// ------------------------------------------------------------------
// Exec encode
// ------------------------------------------------------------------
/// Build the frame for a message, exactly as the stream endpoint pushes
/// it.
pub fn encode_frame(m: &Message) -> (r: Vec<u8>)
    ensures
        r@ == frame_bytes(message_fields_of(*m)),
{
    let mut out: Vec<u8> = vec![100u8, 97, 116, 97, 58];
    assert(out@ =~= data_marker());
    let mut pre: Vec<u8> = vec![123u8, 34, 105, 100, 34, 58, 34];
    assert(pre@ =~= m_pre());
    out.append(&mut pre);
    append_json_escaped(&mut out, m.id.as_str().as_bytes());
    let mut s1: Vec<u8> = vec![34u8, 44, 34, 99, 111, 110, 116, 101, 110, 116, 34, 58, 34];
    assert(s1@ =~= m_content());
    out.append(&mut s1);
    append_json_escaped(&mut out, m.content.as_str().as_bytes());
    let mut s2: Vec<u8> = vec![
        34u8, 44, 34, 115, 101, 110, 100, 101, 114, 95, 105, 100, 34, 58, 34,
    ];
    assert(s2@ =~= m_sender_id());
    out.append(&mut s2);
    append_json_escaped(&mut out, m.sender_id.as_str().as_bytes());
    let mut s3: Vec<u8> = vec![34u8, 44, 34, 114, 111, 111, 109, 95, 105, 100, 34, 58, 34];
    assert(s3@ =~= m_room_id());
    out.append(&mut s3);
    append_json_escaped(&mut out, m.room_id.as_str().as_bytes());
    let mut s4: Vec<u8> = vec![
        34u8, 44, 34, 99, 114, 101, 97, 116, 101, 95, 100, 97, 116, 101, 34, 58,
    ];
    assert(s4@ =~= m_create_date());
    out.append(&mut s4);
    append_dec_i64(&mut out, m.create_date);
    let mut s5: Vec<u8> = vec![
        44u8, 34, 115, 101, 110, 100, 101, 114, 95, 110, 97, 109, 101, 34, 58, 34,
    ];
    assert(s5@ =~= m_sender_name());
    out.append(&mut s5);
    append_json_escaped(&mut out, m.sender_name.as_str().as_bytes());
    out.push(34);
    out.push(125);
    out.push(10);
    out.push(10);
    proof {
        assert(out@ =~= frame_bytes(message_fields_of(*m)));
    }
    out
}

// ------------------------------------------------------------------
// Exec decode
// ------------------------------------------------------------------
/// Parse the payload (after the marker, already trimmed) as a message
/// object.
fn parse_message_bytes(s: &[u8]) -> (r: Option<(Vec<u8>, Vec<u8>, Vec<u8>, Vec<u8>, i64, Vec<u8>)>)
    ensures
        match r {
            Some(t) => parse_message_json(s@) == Some(
                MessageFields {
                    id: t.0@,
                    content: t.1@,
                    sender_id: t.2@,
                    room_id: t.3@,
                    create_date: t.4 as int,
                    sender_name: t.5@,
                },
            ),
            None => parse_message_json(s@) is None,
        },
{
    let n: usize = s.len();
    let pre: Vec<u8> = vec![123u8, 34, 105, 100, 34, 58, 34];
    assert(pre@ =~= m_pre());
    if !expect_lit(s, 0, pre.as_slice()) {
        return None;
    }
    let p1 = match parse_string_at(s, 7) {
        Some(p) => p,
        None => {
            return None;
        },
    };
    let s1: Vec<u8> = vec![44u8, 34, 99, 111, 110, 116, 101, 110, 116, 34, 58, 34];
    assert(s1@ =~= m_content().skip(1));
    if !expect_lit(s, p1.1, s1.as_slice()) {
        return None;
    }
    let p2 = match parse_string_at(s, p1.1 + 12) {
        Some(p) => p,
        None => {
            return None;
        },
    };
    let s2: Vec<u8> = vec![44u8, 34, 115, 101, 110, 100, 101, 114, 95, 105, 100, 34, 58, 34];
    assert(s2@ =~= m_sender_id().skip(1));
    if !expect_lit(s, p2.1, s2.as_slice()) {
        return None;
    }
    let p3 = match parse_string_at(s, p2.1 + 14) {
        Some(p) => p,
        None => {
            return None;
        },
    };
    let s3: Vec<u8> = vec![44u8, 34, 114, 111, 111, 109, 95, 105, 100, 34, 58, 34];
    assert(s3@ =~= m_room_id().skip(1));
    if !expect_lit(s, p3.1, s3.as_slice()) {
        return None;
    }
    let p4 = match parse_string_at(s, p3.1 + 12) {
        Some(p) => p,
        None => {
            return None;
        },
    };
    let s4: Vec<u8> = vec![44u8, 34, 99, 114, 101, 97, 116, 101, 95, 100, 97, 116, 101, 34, 58];
    assert(s4@ =~= m_create_date().skip(1));
    if !expect_lit(s, p4.1, s4.as_slice()) {
        return None;
    }
    let q = match parse_int_at(s, p4.1 + 15) {
        Some(p) => p,
        None => {
            return None;
        },
    };
    let s5: Vec<u8> = vec![
        44u8, 34, 115, 101, 110, 100, 101, 114, 95, 110, 97, 109, 101, 34, 58, 34,
    ];
    assert(s5@ =~= m_sender_name());
    if !expect_lit(s, q.1, s5.as_slice()) {
        return None;
    }
    let p5 = match parse_string_at(s, q.1 + 16) {
        Some(p) => p,
        None => {
            return None;
        },
    };
    let j: usize = p5.1;
    if j < n && n - j == 1 && s[j] == 125 {
        Some((p1.0, p2.0, p3.0, p4.0, q.0, p5.0))
    } else {
        None
    }
}

/// Decode one pushed chunk: `None` both for frames without the marker
/// and for malformed payloads; the caller skips those.
pub fn decode_frame(chunk: &[u8]) -> (r: Option<Message>)
    ensures
        match r {
            Some(m) => frame_decode(chunk@) == Some(message_fields_of(m)),
            None => frame_decode(chunk@) is None,
        },
{
    let n: usize = chunk.len();
    let marker: Vec<u8> = vec![100u8, 97, 116, 97, 58];
    assert(marker@ =~= data_marker());
    if !expect_lit(chunk, 0, marker.as_slice()) {
        return None;
    }
    // trim trailing whitespace from the payload
    let mut end: usize = n;
    proof {
        assert(chunk@.subrange(5, n as int) =~= chunk@.skip(5));
    }
    while end > 5 && ws_at(chunk, end - 1)
        invariant
            5 <= end <= n,
            n == chunk@.len(),
            trim_ws(chunk@.skip(5)) == trim_ws(chunk@.subrange(5, end as int)),
        decreases end,
    {
        proof {
            let cur = chunk@.subrange(5, end as int);
            assert(cur.last() == chunk@[end - 1]);
            assert(cur.drop_last() =~= chunk@.subrange(5, end - 1));
        }
        end = end - 1;
    }
    proof {
        let cur = chunk@.subrange(5, end as int);
        if end > 5 {
            assert(cur.last() == chunk@[end - 1]);
            assert(!is_ws(cur.last()));
        }
        assert(trim_ws(cur) == cur);
    }
    let payload = vstd::slice::slice_subrange(chunk, 5, end);
    let parsed = match parse_message_bytes(payload) {
        Some(t) => t,
        None => {
            return None;
        },
    };
    let (idb, contentb, senderb, roomb, cd, nameb) = parsed;
    let id = match string_from_utf8_opt(idb) {
        Some(x) => x,
        None => {
            return None;
        },
    };
    let content = match string_from_utf8_opt(contentb) {
        Some(x) => x,
        None => {
            return None;
        },
    };
    let sender_id = match string_from_utf8_opt(senderb) {
        Some(x) => x,
        None => {
            return None;
        },
    };
    let room_id = match string_from_utf8_opt(roomb) {
        Some(x) => x,
        None => {
            return None;
        },
    };
    let sender_name = match string_from_utf8_opt(nameb) {
        Some(x) => x,
        None => {
            return None;
        },
    };
    Some(Message { id, content, sender_id, room_id, create_date: cd, sender_name })
}

/// Whether the byte at `j` is whitespace.
fn ws_at(s: &[u8], j: usize) -> (r: bool)
    requires
        j < s@.len(),
    ensures
        r == is_ws(s@[j as int]),
{
    let b: u8 = s[j];
    b == 32 || b == 9 || b == 10 || b == 13
}

// ------------------------------------------------------------------
// The wire format inverts itself
// ------------------------------------------------------------------
/// Decoding a frame built from any representable fields yields exactly
/// those fields: the stream's wire format loses nothing.
pub proof fn lemma_frame_roundtrip(f: MessageFields)
    requires
        -0x8000000000000000 <= f.create_date <= 0x7fffffffffffffff,
        fields_representable(f),
    ensures
        frame_decode(frame_bytes(f)) == Some(f),
{
    let t = frame_bytes(f);
    let j = message_json_bytes(f);
    let a2 = j + seq![10u8, 10u8];
    let a1 = j + seq![10u8];
    assert(t.subrange(0, 5) =~= data_marker());
    // the payload after the marker, with its blank line trimmed
    assert(t.skip(5) =~= a2);
    assert(a2.last() == 10);
    assert(a2.drop_last() =~= a1);
    assert(trim_ws(a2) == trim_ws(a1));
    assert(a1.last() == 10);
    assert(a1.drop_last() =~= j);
    assert(trim_ws(a1) == trim_ws(j));
    assert(j.len() > 0 && j.last() == 125) by {
        assert(j[j.len() - 1] == 125);
    }
    assert(trim_ws(j) == j);
    assert(trim_ws(t.skip(5)) == j);
    lemma_message_roundtrip(f);
}

/// The message object parses back to exactly the fields it was built
/// from.
#[verifier::rlimit(100)]
#[verifier::spinoff_prover]
pub proof fn lemma_message_roundtrip(f: MessageFields)
    requires
        -0x8000000000000000 <= f.create_date <= 0x7fffffffffffffff,
    ensures
        parse_message_json(message_json_bytes(f)) == Some(f),
{
    let s = message_json_bytes(f);
    let e1 = json_escaped(f.id);
    let e2 = json_escaped(f.content);
    let e3 = json_escaped(f.sender_id);
    let e4 = json_escaped(f.room_id);
    let d = dec_i64(f.create_date);
    let e5 = json_escaped(f.sender_name);
    let i1: int = 7 + e1.len() as int + 1;
    let i2: int = i1 + 12 + e2.len() as int + 1;
    let i3: int = i2 + 14 + e3.len() as int + 1;
    let i4: int = i3 + 12 + e4.len() as int + 1;
    let i5: int = i4 + 15 + d.len() as int;
    let i6: int = i5 + 16 + e5.len() as int + 1;
    assert(s.len() == i6 + 1);
    assert(s.subrange(0, 7) =~= m_pre());
    assert(s.subrange(7, i1) =~= e1 + seq![34u8]);
    lemma_escape_then_parse_wrap(f.id, s, 7);
    assert(s.subrange(i1, i1 + 12) =~= m_content().skip(1));
    assert(s.subrange(i1 + 12, i2) =~= e2 + seq![34u8]);
    lemma_escape_then_parse_wrap(f.content, s, i1 + 12);
    assert(s.subrange(i2, i2 + 14) =~= m_sender_id().skip(1));
    assert(s.subrange(i2 + 14, i3) =~= e3 + seq![34u8]);
    lemma_escape_then_parse_wrap(f.sender_id, s, i2 + 14);
    assert(s.subrange(i3, i3 + 12) =~= m_room_id().skip(1));
    assert(s.subrange(i3 + 12, i4) =~= e4 + seq![34u8]);
    lemma_escape_then_parse_wrap(f.room_id, s, i3 + 12);
    assert(s.subrange(i4, i4 + 15) =~= m_create_date().skip(1));
    assert(s.subrange(i4 + 15, i5) =~= d);
    assert(!crate::json::is_digit(s[i5]));
    crate::json::lemma_dec_then_parse(f.create_date, s, i4 + 15);
    assert(s.subrange(i5, i5 + 16) =~= m_sender_name());
    assert(s.subrange(i5 + 16, i6) =~= e5 + seq![34u8]);
    lemma_escape_then_parse_wrap(f.sender_name, s, i5 + 16);
    assert(s[i6] == 125);
}

/// A convenience wrapper fixing the argument order of the escape/parse
/// lemma.
proof fn lemma_escape_then_parse_wrap(u: Seq<u8>, s: Seq<u8>, i: int)
    requires
        0 <= i,
        i + json_escaped(u).len() + 1 <= s.len(),
        s.subrange(i, i + json_escaped(u).len() as int + 1) == json_escaped(u) + seq![34u8],
    ensures
        parse_str_content(s, i) == Some((u, i + json_escaped(u).len() + 1)),
{
    crate::json::lemma_escape_then_parse(u, s, i);
}

} // verus!
