//! Wire codec for the message protocol.
//!
//! A message travels as one line: its encoded record followed by a newline.
//! The record never contains a newline byte, so a buffered line-oriented
//! reader recovers exactly the frames the writer produced. Payload bytes
//! that would break framing are escaped with a backslash.

use vstd::prelude::*;

use crate::msg::Message;
use crate::msg::MessageModel;

verus! {

/// The frame delimiter: one record per newline-terminated line.
pub const LF: u8 = 0x0A;

/// The escape lead-in byte (backslash).
pub const BSL: u8 = 0x5C;

/// The byte `n`; `\n` on the wire stands for a newline in the payload.
pub const ESC_N: u8 = 0x6E;

/// How one payload byte appears inside an encoded record.
pub open spec fn escape_byte(b: u8) -> Seq<u8> {
    if b == BSL {
        seq![BSL, BSL]
    } else if b == LF {
        seq![BSL, ESC_N]
    } else {
        seq![b]
    }
}

/// Payload escaping: backslashes and newlines are written as two-byte
/// escapes; every other byte passes through unchanged.
pub open spec fn escape(s: Seq<u8>) -> Seq<u8>
    decreases s.len(),
{
    if s.len() == 0 {
        Seq::empty()
    } else {
        escape_byte(s[0]) + escape(s.skip(1))
    }
}

/// Partial inverse of [`escape`]: `None` exactly on byte sequences that
/// `escape` cannot produce (a bare newline, a dangling or unknown escape).
pub open spec fn unescape(s: Seq<u8>) -> Option<Seq<u8>>
    decreases s.len(),
{
    if s.len() == 0 {
        Some(Seq::empty())
    } else if s[0] == BSL {
        if s.len() < 2 {
            None
        } else {
            let head = if s[1] == BSL {
                Some(BSL)
            } else if s[1] == ESC_N {
                Some(LF)
            } else {
                None
            };
            match (head, unescape(s.skip(2))) {
                (Some(b), Some(rest)) => Some(seq![b] + rest),
                _ => None,
            }
        }
    } else if s[0] == LF {
        None
    } else {
        match unescape(s.skip(1)) {
            Some(rest) => Some(seq![s[0]] + rest),
            None => None,
        }
    }
}

/// The record tag of [`Message::IncrementCounter`]: the bytes `IncrementCounter`.
pub open spec fn inc_tag() -> Seq<u8> {
    seq![0x49u8, 0x6E, 0x63, 0x72, 0x65, 0x6D, 0x65, 0x6E, 0x74, 0x43, 0x6F, 0x75, 0x6E, 0x74, 0x65, 0x72]
}

/// The record prefix of [`Message::NewValue`]: the bytes `NewValue` and a space.
pub open spec fn nv_prefix() -> Seq<u8> {
    seq![0x4Eu8, 0x65, 0x77, 0x56, 0x61, 0x6C, 0x75, 0x65, 0x20]
}

/// The wire record of a message (the line without its newline delimiter).
pub open spec fn encoded(m: MessageModel) -> Seq<u8> {
    match m {
        MessageModel::IncrementCounter => inc_tag(),
        MessageModel::NewValue(v) => nv_prefix() + escape(v),
    }
}

/// The reference decoder: which message, if any, a wire record stands for.
pub open spec fn decode_spec(l: Seq<u8>) -> Option<MessageModel> {
    if l == inc_tag() {
        Some(MessageModel::IncrementCounter)
    } else if l.len() >= 9 && l.subrange(0, 9) == nv_prefix() {
        match unescape(l.skip(9)) {
            Some(v) => Some(MessageModel::NewValue(v)),
            None => None,
        }
    } else {
        None
    }
}

/// A line with its trailing newline (if any) removed, as a line-oriented
/// reader would hand the record over.
pub open spec fn framed_strip(l: Seq<u8>) -> Seq<u8> {
    if l.len() > 0 && l[l.len() - 1] == LF {
        l.drop_last()
    } else {
        l
    }
}

/// Escaping a payload never produces a bare newline, so the frame
/// delimiter cannot occur inside a record's payload part.
pub proof fn lemma_escape_no_lf(s: Seq<u8>)
    ensures
        forall|i: int| 0 <= i < escape(s).len() ==> escape(s)[i] != LF,
    decreases s.len(),
{
    if s.len() > 0 {
        lemma_escape_no_lf(s.skip(1));
        assert forall|i: int| 0 <= i < escape(s).len() implies escape(s)[i] != LF by {
            let head = escape_byte(s[0]);
            if i < head.len() {
                assert(escape(s)[i] == head[i]);
            } else {
                assert(escape(s)[i] == escape(s.skip(1))[i - head.len()]);
            }
        }
    }
}

/// Unescaping undoes escaping: every payload round-trips through the wire.
pub proof fn lemma_unescape_escape(s: Seq<u8>)
    ensures
        unescape(escape(s)) == Some(s),
    decreases s.len(),
{
    if s.len() == 0 {
        assert(unescape(escape(s)) == Some(s));
    } else {
        let rest = s.skip(1);
        lemma_unescape_escape(rest);
        let e = escape(s);
        let head = escape_byte(s[0]);
        if s[0] == BSL || s[0] == LF {
            assert(e.len() >= 2);
            assert(e[0] == BSL);
            assert(e[1] == head[1]);
            assert(e.skip(2) =~= escape(rest));
            assert(unescape(e) == Some(seq![s[0]] + rest));
            assert(seq![s[0]] + rest =~= s);
        } else {
            assert(e[0] == s[0]);
            assert(e.skip(1) =~= escape(rest));
            assert(unescape(e) == Some(seq![s[0]] + rest));
            assert(seq![s[0]] + rest =~= s);
        }
    }
}

/// Escaping is canonical: any byte sequence that unescapes successfully is
/// exactly the escaping of its payload.
pub proof fn lemma_escape_unescape(e: Seq<u8>)
    requires
        unescape(e) is Some,
    ensures
        escape(unescape(e)->Some_0) == e,
    decreases e.len(),
{
    if e.len() == 0 {
        assert(escape(unescape(e)->Some_0) =~= e);
    } else if e[0] == BSL {
        let tail = e.skip(2);
        lemma_escape_unescape(tail);
        let b = if e[1] == BSL { BSL } else { LF };
        let v = unescape(e)->Some_0;
        assert(v == seq![b] + (unescape(tail)->Some_0));
        assert(v[0] == b);
        assert(v.skip(1) =~= unescape(tail)->Some_0);
        assert(escape(v) == escape_byte(b) + escape(v.skip(1)));
        assert(escape_byte(b) =~= seq![e[0], e[1]]);
        assert(escape(v) =~= e);
    } else {
        let tail = e.skip(1);
        lemma_escape_unescape(tail);
        let v = unescape(e)->Some_0;
        assert(v == seq![e[0]] + (unescape(tail)->Some_0));
        assert(v[0] == e[0]);
        assert(v.skip(1) =~= unescape(tail)->Some_0);
        assert(escape(v) == escape_byte(e[0]) + escape(v.skip(1)));
        assert(escape_byte(e[0]) =~= seq![e[0]]);
        assert(escape(v) =~= e);
    }
}

/// Escaping distributes over appending one byte; the exec encoder walks the
/// payload left to right on the strength of this.
pub proof fn lemma_escape_push(s: Seq<u8>, b: u8)
    ensures
        escape(s.push(b)) == escape(s) + escape_byte(b),
    decreases s.len(),
{
    if s.len() == 0 {
        assert(s.push(b)[0] == b);
        assert(s.push(b).skip(1) =~= Seq::<u8>::empty());
        assert(escape(s.push(b)) == escape_byte(b) + escape(Seq::<u8>::empty()));
        assert(escape(s.push(b)) =~= escape(s) + escape_byte(b));
    } else {
        lemma_escape_push(s.skip(1), b);
        assert(s.push(b).skip(1) =~= s.skip(1).push(b));
        assert(s.push(b)[0] == s[0]);
        assert(escape(s.push(b)) == escape_byte(s[0]) + escape(s.skip(1).push(b)));
        assert(escape(s.skip(1).push(b)) == escape(s.skip(1)) + escape_byte(b));
        assert(escape_byte(s[0]) + (escape(s.skip(1)) + escape_byte(b)) =~= (escape_byte(s[0])
            + escape(s.skip(1))) + escape_byte(b));
        assert(escape(s.push(b)) =~= escape(s) + escape_byte(b));
    }
}

/// An encoded record never contains the frame delimiter, so writing the
/// record and then one newline always produces a well-formed frame.
pub proof fn lemma_encoded_no_lf(m: MessageModel)
    ensures
        forall|i: int| 0 <= i < encoded(m).len() ==> encoded(m)[i] != LF,
{
    match m {
        MessageModel::IncrementCounter => {
            assert forall|i: int| 0 <= i < encoded(m).len() implies encoded(m)[i] != LF by {
                assert(encoded(m) == inc_tag());
            }
        },
        MessageModel::NewValue(v) => {
            lemma_escape_no_lf(v);
            assert forall|i: int| 0 <= i < encoded(m).len() implies encoded(m)[i] != LF by {
                if i < 9 {
                    assert(encoded(m)[i] == nv_prefix()[i]);
                } else {
                    assert(encoded(m)[i] == escape(v)[i - 9]);
                }
            }
        },
    }
}

/// Round trip law: encoding a message to its wire record and decoding it
/// back yields the same message, for both variants and every payload.
pub proof fn lemma_wire_round_trip(m: MessageModel)
    ensures
        decode_spec(encoded(m)) == Some(m),
{
    match m {
        MessageModel::IncrementCounter => {},
        MessageModel::NewValue(v) => {
            let l = encoded(m);
            assert(l[0] == nv_prefix()[0]);
            assert(inc_tag()[0] == 0x49);
            assert(l != inc_tag());
            assert(l.subrange(0, 9) =~= nv_prefix());
            assert(l.skip(9) =~= escape(v));
            lemma_unescape_escape(v);
        },
    }
}

/// The codec is canonical: a record that decodes at all is exactly the
/// encoding of the message it decodes to, so distinct messages never share
/// a wire record.
pub proof fn lemma_wire_canonical(l: Seq<u8>)
    requires
        decode_spec(l) is Some,
    ensures
        encoded(decode_spec(l)->Some_0) == l,
{
    if l == inc_tag() {
    } else {
        let v = unescape(l.skip(9))->Some_0;
        lemma_escape_unescape(l.skip(9));
        assert(encoded(MessageModel::NewValue(v)) == nv_prefix() + escape(v));
        assert(nv_prefix() + l.skip(9) =~= l);
    }
}

/// A record that does not follow the wire grammar. A connection that
/// produced one is treated as fatally broken; no resynchronization is
/// attempted.
#[derive(Clone, Copy, Debug, PartialEq, Eq, Structural)]
pub struct DecodeError;

pub(crate) fn push_all(out: &mut Vec<u8>, src: &[u8])
    ensures
        final(out)@ == old(out)@ + src@,
{
    let mut i: usize = 0;
    while i < src.len()
        invariant
            i <= src@.len(),
            out@ == old(out)@ + src@.take(i as int),
        decreases src@.len() - i,
    {
        out.push(src[i]);
        proof {
            assert(src@.take(i + 1) =~= src@.take(i as int).push(src@[i as int]));
            assert(old(out)@ + src@.take(i + 1) =~= (old(out)@ + src@.take(i as int)).push(
                src@[i as int],
            ));
        }
        i = i + 1;
    }
    proof {
        assert(src@.take(src@.len() as int) =~= src@);
    }
}

/// The tag bytes of [`Message::IncrementCounter`].
fn inc_tag_vec() -> (r: Vec<u8>)
    ensures
        r@ == inc_tag(),
{
    let mut v: Vec<u8> = Vec::new();
    v.push(0x49);
    v.push(0x6E);
    v.push(0x63);
    v.push(0x72);
    v.push(0x65);
    v.push(0x6D);
    v.push(0x65);
    v.push(0x6E);
    v.push(0x74);
    v.push(0x43);
    v.push(0x6F);
    v.push(0x75);
    v.push(0x6E);
    v.push(0x74);
    v.push(0x65);
    v.push(0x72);
    proof {
        assert(v@ =~= inc_tag());
    }
    v
}

/// The prefix bytes of [`Message::NewValue`].
fn nv_prefix_vec() -> (r: Vec<u8>)
    ensures
        r@ == nv_prefix(),
{
    let mut v: Vec<u8> = Vec::new();
    v.push(0x4E);
    v.push(0x65);
    v.push(0x77);
    v.push(0x56);
    v.push(0x61);
    v.push(0x6C);
    v.push(0x75);
    v.push(0x65);
    v.push(0x20);
    proof {
        assert(v@ =~= nv_prefix());
    }
    v
}

pub(crate) fn bytes_eq(a: &[u8], b: &[u8]) -> (r: bool)
    ensures
        r == (a@ == b@),
{
    if a.len() != b.len() {
        proof {
            assert(a@ != b@);
        }
        return false;
    }
    let mut i: usize = 0;
    while i < a.len()
        invariant
            i <= a@.len(),
            a@.len() == b@.len(),
            forall|j: int| 0 <= j < i ==> a@[j] == b@[j],
        decreases a@.len() - i,
    {
        if a[i] != b[i] {
            proof {
                assert(a@[i as int] != b@[i as int]);
            }
            return false;
        }
        i = i + 1;
    }
    proof {
        assert(a@ =~= b@);
    }
    true
}

/// Encode a message as its wire record (without the newline delimiter).
pub fn encode_line(m: &Message) -> (r: Vec<u8>)
    ensures
        r@ == encoded(m@),
        forall|i: int| 0 <= i < r@.len() ==> r@[i] != LF,
{
    proof {
        lemma_encoded_no_lf(m@);
    }
    match m {
        Message::IncrementCounter => {
            let r = inc_tag_vec();
            proof {
                assert(encoded(m@) == inc_tag());
                assert forall|i: int| 0 <= i < r@.len() implies r@[i] != LF by {
                    assert(r@[i] == encoded(m@)[i]);
                }
            }
            r
        },
        Message::NewValue(v) => {
            let mut out = nv_prefix_vec();
            let mut i: usize = 0;
            while i < v.len()
                invariant
                    i <= v@.len(),
                    out@ == nv_prefix() + escape(v@.take(i as int)),
                decreases v@.len() - i,
            {
                let b = v[i];
                if b == BSL {
                    out.push(BSL);
                    out.push(BSL);
                } else if b == LF {
                    out.push(BSL);
                    out.push(ESC_N);
                } else {
                    out.push(b);
                }
                proof {
                    lemma_escape_push(v@.take(i as int), b);
                    assert(v@.take(i + 1) =~= v@.take(i as int).push(b));
                    assert(out@ =~= nv_prefix() + escape(v@.take(i + 1)));
                }
                i = i + 1;
            }
            proof {
                assert(v@.take(v@.len() as int) =~= v@);
                assert(out@ == encoded(m@));
                assert forall|i: int| 0 <= i < out@.len() implies out@[i] != LF by {
                    assert(out@[i] == encoded(m@)[i]);
                }
            }
            out
        },
    }
}

/// Encode a message as one complete frame: its record followed by the
/// newline delimiter, ready for a single atomic write.
pub fn frame_line(m: &Message) -> (r: Vec<u8>)
    ensures
        r@ == encoded(m@).push(LF),
        forall|i: int| 0 <= i < r@.len() - 1 ==> r@[i] != LF,
        r@[r@.len() - 1] == LF,
{
    let mut out = encode_line(m);
    out.push(LF);
    out
}

fn unescape_bytes(s: &[u8]) -> (r: Result<Vec<u8>, DecodeError>)
    ensures
        match r {
            Ok(v) => unescape(s@) == Some(v@),
            Err(_) => unescape(s@) is None,
        },
{
    let mut out: Vec<u8> = Vec::new();
    let mut i: usize = 0;
    proof {
        assert(s@.skip(0) =~= s@);
        if unescape(s@) is Some {
            assert(Seq::<u8>::empty() + (unescape(s@)->Some_0) =~= unescape(s@)->Some_0);
        }
    }
    while i < s.len()
        invariant
            i <= s@.len(),
            unescape(s@) == match unescape(s@.skip(i as int)) {
                Some(rest) => Some(out@ + rest),
                None => None::<Seq<u8>>,
            },
        decreases s@.len() - i,
    {
        let ghost pending = s@.skip(i as int);
        proof {
            assert(pending[0] == s@[i as int]);
        }
        let b = s[i];
        if b == BSL {
            if i + 1 == s.len() {
                proof {
                    assert(pending.len() == 1);
                    assert(unescape(pending) is None);
                }
                return Err(DecodeError);
            }
            let ghost rest2 = s@.skip(i + 2);
            proof {
                assert(pending[1] == s@[i + 1]);
                assert(pending.skip(2) =~= rest2);
            }
            let e = s[i + 1];
            if e == BSL {
                out.push(BSL);
            } else if e == ESC_N {
                out.push(LF);
            } else {
                proof {
                    assert(unescape(pending) is None);
                }
                return Err(DecodeError);
            }
            proof {
                let c = if e == BSL {
                    BSL
                } else {
                    LF
                };
                assert(unescape(pending) == match unescape(rest2) {
                    Some(rest) => Some(seq![c] + rest),
                    None => None::<Seq<u8>>,
                });
                if unescape(rest2) is Some {
                    assert(out@ + (unescape(rest2)->Some_0) =~= (out@.drop_last() + (seq![c]
                        + (unescape(rest2)->Some_0))));
                }
            }
            i = i + 2;
        } else if b == LF {
            proof {
                assert(unescape(pending) is None);
            }
            return Err(DecodeError);
        } else {
            let ghost rest1 = s@.skip(i + 1);
            proof {
                assert(pending.skip(1) =~= rest1);
            }
            out.push(b);
            proof {
                assert(unescape(pending) == match unescape(rest1) {
                    Some(rest) => Some(seq![b] + rest),
                    None => None::<Seq<u8>>,
                });
                if unescape(rest1) is Some {
                    assert(out@ + (unescape(rest1)->Some_0) =~= (out@.drop_last() + (seq![b]
                        + (unescape(rest1)->Some_0))));
                }
            }
            i = i + 1;
        }
    }
    proof {
        assert(s@.skip(s@.len() as int) =~= Seq::<u8>::empty());
        assert(out@ + Seq::<u8>::empty() =~= out@);
    }
    Ok(out)
}

/// Decode one wire record (a line without its newline delimiter).
///
/// Returns `Ok` exactly on the records the reference decoder accepts, and
/// then returns the message that record stands for; every other input is a
/// protocol violation and returns `Err`.
pub fn decode_line(l: &[u8]) -> (r: Result<Message, DecodeError>)
    ensures
        match r {
            Ok(m) => decode_spec(l@) == Some(m@),
            Err(_) => decode_spec(l@) is None,
        },
{
    let inc = inc_tag_vec();
    if bytes_eq(l, inc.as_slice()) {
        return Ok(Message::IncrementCounter);
    }
    if l.len() < 9 {
        return Err(DecodeError);
    }
    let prefix = vstd::slice::slice_subrange(l, 0, 9);
    let nv = nv_prefix_vec();
    if !bytes_eq(prefix, nv.as_slice()) {
        return Err(DecodeError);
    }
    let payload = vstd::slice::slice_subrange(l, 9, l.len());
    proof {
        assert(payload@ =~= l@.skip(9));
    }
    match unescape_bytes(payload) {
        Ok(v) => Ok(Message::NewValue(v)),
        Err(e) => Err(e),
    }
}

/// Decode one line as a line-oriented reader hands it over, with its
/// trailing newline still attached if the stream supplied one.
pub fn decode_framed(l: &[u8]) -> (r: Result<Message, DecodeError>)
    ensures
        match r {
            Ok(m) => decode_spec(framed_strip(l@)) == Some(m@),
            Err(_) => decode_spec(framed_strip(l@)) is None,
        },
{
    if l.len() > 0 && l[l.len() - 1] == LF {
        let bare = vstd::slice::slice_subrange(l, 0, l.len() - 1);
        proof {
            assert(bare@ =~= framed_strip(l@));
        }
        decode_line(bare)
    } else {
        decode_line(l)
    }
}

} // verus!
