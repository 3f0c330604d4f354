//! Line framing of the header exchange.
//!
//! Every header travels as its bytes followed by a newline. The receiver
//! reads up to the first newline, drops the last byte it read, answers with
//! the same bytes framed again, and the sender compares that answer with
//! what it sent.

use vstd::prelude::*;
use vstd::utf8::*;

verus! {

broadcast use {vstd::utf8::encode_utf8_decode_utf8, vstd::utf8::decode_utf8_encode_utf8};

/// The byte that ends every header line.
pub const NEWLINE: u8 = 10u8;

/// The line that carries `payload`.
pub open spec fn framed(payload: Seq<u8>) -> Seq<u8> {
    payload.push(NEWLINE)
}

/// What is left of a received line once its last byte is dropped.
pub open spec fn unframed(line: Seq<u8>) -> Seq<u8> {
    if line.len() == 0 {
        line
    } else {
        line.drop_last()
    }
}

pub open spec fn has_newline(s: Seq<u8>) -> bool {
    exists|i: int| 0 <= i < s.len() && s[i] == NEWLINE
}

/// What reading up to a newline takes from the front of `stream`: every byte
/// up to and including the first newline, or the whole stream if it has none.
pub open spec fn first_line(stream: Seq<u8>) -> Seq<u8>
    decreases stream.len(),
{
    if stream.len() == 0 {
        stream
    } else if stream[0] == NEWLINE {
        seq![NEWLINE]
    } else {
        seq![stream[0]] + first_line(stream.drop_first())
    }
}

/// The answer the receiver sends for a received payload: the payload framed again.
pub open spec fn answer_line(payload: Seq<u8>) -> Seq<u8> {
    framed(payload)
}

/// `String::from_utf8`: it succeeds exactly when the bytes are valid UTF-8,
/// and then the string's UTF-8 encoding is the input. Nothing else is claimed.
#[verifier::external_body]
fn string_from_utf8(bytes: Vec<u8>) -> (res: Option<String>)
    ensures
        res is Some <==> valid_utf8(bytes@),
        res matches Some(s) ==> encode_utf8(s@) == bytes@,
{
    String::from_utf8(bytes).ok()
}

/// Frames a payload for sending.
pub fn frame(payload: &[u8]) -> (line: Vec<u8>)
    ensures
        line@ == framed(payload@),
{
    let mut line: Vec<u8> = Vec::new();
    let mut i: usize = 0;
    while i < payload.len()
        invariant
            i <= payload.len(),
            line@ == payload@.take(i as int),
        decreases payload.len() - i,
    {
        line.push(payload[i]);
        i = i + 1;
        assert(line@ =~= payload@.take(i as int));
    }
    assert(payload@.take(payload.len() as int) =~= payload@);
    line.push(NEWLINE);
    line
}

/// Drops the last byte of a received line (its newline, when it had one).
pub fn unframe(line: Vec<u8>) -> (payload: Vec<u8>)
    ensures
        payload@ == unframed(line@),
{
    let mut payload = line;
    if payload.len() > 0 {
        let _ = payload.pop();
    }
    payload
}

/// Whether the answer to a header, already unframed, repeats the header.
pub fn echo_confirms(sent: &[u8], reply: &[u8]) -> (ok: bool)
    ensures
        ok == (reply@ == sent@),
{
    if sent.len() != reply.len() {
        return false;
    }
    let mut i: usize = 0;
    while i < sent.len()
        invariant
            i <= sent.len(),
            sent.len() == reply.len(),
            forall|j: int| 0 <= j < i ==> sent@[j] == reply@[j],
        decreases sent.len() - i,
    {
        if sent[i] != reply[i] {
            return false;
        }
        i = i + 1;
    }
    assert(reply@ =~= sent@);
    true
}

/// A header as the receiver takes it: its text, and the line that answers it.
pub struct Received {
    pub text: String,
    pub answer: Vec<u8>,
}

/// Takes a received payload: `None` when it is not UTF-8, else its text and
/// the answer line to send back.
pub fn receive_payload(payload: Vec<u8>) -> (res: Option<Received>)
    ensures
        res is Some <==> valid_utf8(payload@),
        res matches Some(r) ==> {
            &&& r.text@ == decode_utf8(payload@)
            &&& r.answer@ == answer_line(payload@)
        },
{
    let answer = frame(payload.as_slice());
    match string_from_utf8(payload) {
        Some(text) => Some(Received { text, answer }),
        None => None,
    }
}

/// Dropping the last byte of a frame gives back its payload.
pub proof fn lemma_unframe_frame(payload: Seq<u8>)
    ensures
        unframed(framed(payload)) == payload,
{
    assert(framed(payload).drop_last() =~= payload);
}

/// A payload without a newline is read back whole: the first line of a stream
/// that starts with its frame is that frame, whatever follows.
pub proof fn lemma_frame_delimits(payload: Seq<u8>, rest: Seq<u8>)
    requires
        !has_newline(payload),
    ensures
        first_line(framed(payload) + rest) == framed(payload),
    decreases payload.len(),
{
    let s = framed(payload) + rest;
    if payload.len() == 0 {
        assert(s[0] == NEWLINE);
        assert(seq![NEWLINE] =~= framed(payload));
    } else {
        let tail = payload.drop_first();
        assert(!has_newline(tail)) by {
            if has_newline(tail) {
                let i: int = choose|i: int| 0 <= i < tail.len() && tail[i] == NEWLINE;
                assert(payload[i + 1] == NEWLINE);
            }
        }
        assert(payload[0] != NEWLINE);
        lemma_frame_delimits(tail, rest);
        assert(s.drop_first() =~= framed(tail) + rest);
        assert(seq![payload[0]] + framed(tail) =~= framed(payload));
    }
}

/// A header exchange: the sender frames the UTF-8 bytes of `text`, the receiver
/// reads the first line of what arrives, drops its last byte, decodes it and
/// answers; the sender reads the first line of the answer and drops its last
/// byte. When `text` holds no newline, the receiver decodes exactly `text` and
/// the sender's comparison succeeds, whatever follows either line on the wire.
pub proof fn lemma_header_exchange(text: Seq<char>, after_header: Seq<u8>, after_answer: Seq<u8>)
    requires
        !has_newline(encode_utf8(text)),
    ensures
        ({
            let sent = encode_utf8(text);
            let got = unframed(first_line(framed(sent) + after_header));
            let back = unframed(first_line(answer_line(got) + after_answer));
            &&& valid_utf8(got)
            &&& decode_utf8(got) == text
            &&& back == sent
        }),
{
    let sent = encode_utf8(text);
    lemma_frame_delimits(sent, after_header);
    lemma_unframe_frame(sent);
    lemma_frame_delimits(sent, after_answer);
    vstd::utf8::encode_utf8_valid_utf8(text);
}


/// A frame is its payload followed by one newline byte (ASCII 10).
pub proof fn lemma_frame_bytes(payload: Seq<u8>)
    ensures
        framed(payload).len() == payload.len() + 1,
        framed(payload)[payload.len() as int] == 10u8,
        framed(payload).take(payload.len() as int) == payload,
{
    assert(framed(payload).take(payload.len() as int) =~= payload);
}

/// Reading up to a newline takes a prefix of the stream that holds no newline
/// but possibly its last byte, and stops early only right after a newline.
pub proof fn lemma_first_line(stream: Seq<u8>)
    ensures
        first_line(stream).len() <= stream.len(),
        first_line(stream) == stream.take(first_line(stream).len() as int),
        forall|i: int| 0 <= i < first_line(stream).len() - 1 ==> #[trigger] first_line(stream)[i] != 10u8,
        first_line(stream).len() < stream.len() ==> first_line(stream).len() > 0
            && first_line(stream).last() == 10u8,
        !has_newline(stream) ==> first_line(stream) == stream,
    decreases stream.len(),
{
    if stream.len() == 0 {
    } else if stream[0] == NEWLINE {
        assert(stream.take(1) =~= seq![NEWLINE]);
        assert(has_newline(stream));
    } else {
        let rest = stream.drop_first();
        lemma_first_line(rest);
        let l = first_line(stream);
        let lr = first_line(rest);
        assert(l == seq![stream[0]] + lr);
        assert(l =~= stream.take(l.len() as int));
        assert forall|i: int| 0 <= i < l.len() - 1 implies #[trigger] l[i] != 10u8 by {
            if i > 0 {
                assert(l[i] == lr[i - 1]);
            }
        }
        if !has_newline(stream) {
            assert(!has_newline(rest)) by {
                if has_newline(rest) {
                    let i: int = choose|i: int| 0 <= i < rest.len() && rest[i] == NEWLINE;
                    assert(stream[i + 1] == NEWLINE);
                }
            }
            assert(l =~= stream);
        }
    }
}

} // verus!
