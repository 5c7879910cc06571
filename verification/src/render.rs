//! The messages between the server and the login screen: frames one way, input
//! the other, each as a tag, the payload's length and the payload.

use vstd::prelude::*;

use crate::numbers::{decimal, push_decimal};

verus! {

pub const TAG_FRAME: u8 = 1;

pub const TAG_INPUT: u8 = 2;

/// A message off the wire. A frame that was read has four bytes for each pixel;
/// the payload of an input event is JSON, which is carried as it is.
#[derive(Debug)]
pub enum Message {
    Frame { width: u32, height: u32, rgba: Vec<u8> },
    Input(Vec<u8>),
}

/// What a [`Message`] says.
pub enum MessageView {
    Frame { width: u32, height: u32, rgba: Seq<u8> },
    Input(Seq<u8>),
}

impl View for Message {
    type V = MessageView;

    open spec fn view(&self) -> MessageView {
        match *self {
            Message::Frame { width, height, rgba } => MessageView::Frame {
                width,
                height,
                rgba: rgba@,
            },
            Message::Input(json) => MessageView::Input(json@),
        }
    }
}

/// Why a message could not be read.
#[derive(Debug)]
pub enum ReadError {
    /// The input ended inside a message.
    UnexpectedEof,
    /// The message is not one of this protocol's.
    InvalidData(String),
}

/// A number as four bytes, the lowest first.
#[verifier::opaque]
pub open spec fn le32(n: nat) -> Seq<u8> {
    seq![
        (n % 256) as u8,
        (n / 256 % 256) as u8,
        (n / 65536 % 256) as u8,
        (n / 16777216 % 256) as u8,
    ]
}

/// The number that four bytes stand for, the lowest first.
pub open spec fn le32_value(b: Seq<u8>) -> nat {
    (b[0] + 256 * b[1] + 65536 * b[2] + 16777216 * b[3]) as nat
}

/// Four bytes read as a number are the number written as those four bytes.
pub proof fn law_le32_reads_back(n: nat)
    requires
        n <= u32::MAX,
    ensures
        le32(n).len() == 4,
        le32_value(le32(n)) == n,
{
    reveal(le32);
}

proof fn lemma_le32_keeps_the_low_bytes(n: nat)
    ensures
        le32(n % 0x1_0000_0000) == le32(n),
        le32(n).len() == 4,
{
    let m = n % 0x1_0000_0000;
    let k = n / 0x1_0000_0000;
    assert(n == m + k * 0x1_0000_0000);
    assert(n / 256 == m / 256 + k * 0x100_0000);
    assert(n / 65536 == m / 65536 + k * 0x1_0000);
    assert(n / 16777216 == m / 16777216 + k * 0x100);
    lemma_low_byte(m, k * 0x100_0000);
    lemma_low_byte(m / 256, k * 0x1_0000);
    lemma_low_byte(m / 65536, k * 0x100);
    lemma_low_byte(m / 16777216, k);
    reveal(le32);
}

proof fn lemma_low_byte(low: nat, high: nat)
    ensures
        (low + high * 256) % 256 == low % 256,
{
}

/// A message on the wire: its tag, the length of its payload in four bytes, and
/// the payload. A length that does not fit four bytes loses what is above them.
pub open spec fn framed(tag: u8, payload: Seq<u8>) -> Seq<u8> {
    seq![tag] + le32(payload.len()) + payload
}

/// The payload of a frame: its size, and four bytes for each pixel.
pub open spec fn frame_payload(width: u32, height: u32, rgba: Seq<u8>) -> Seq<u8> {
    le32(width as nat) + le32(height as nat) + rgba
}

impl MessageView {
    pub open spec fn tag(self) -> u8 {
        match self {
            MessageView::Frame { .. } => TAG_FRAME,
            MessageView::Input(_) => TAG_INPUT,
        }
    }

    pub open spec fn payload(self) -> Seq<u8> {
        match self {
            MessageView::Frame { width, height, rgba } => frame_payload(width, height, rgba),
            MessageView::Input(json) => json,
        }
    }

    /// A frame has four bytes for each of its pixels.
    pub open spec fn well_sized(self) -> bool {
        match self {
            MessageView::Frame { width, height, rgba } => rgba.len() == width * height * 4,
            MessageView::Input(_) => true,
        }
    }

    /// The message on the wire.
    pub open spec fn encoded(self) -> Seq<u8> {
        framed(self.tag(), self.payload())
    }
}

fn push_le32(w: &mut Vec<u8>, n: u32)
    ensures
        final(w)@ == old(w)@ + le32(n as nat),
{
    w.push((n % 256) as u8);
    w.push((n / 256 % 256) as u8);
    w.push((n / 65536 % 256) as u8);
    w.push((n / 16777216 % 256) as u8);
    proof {
        reveal(le32);
    }
    assert(w@ =~= old(w)@ + le32(n as nat));
}

/// Appends a message.
pub fn write_message(w: &mut Vec<u8>, tag: u8, payload: &[u8])
    ensures
        final(w)@ == old(w)@ + framed(tag, payload@),
{
    w.push(tag);
    let len: usize = payload.len();
    let low: u32 = (len as u64 % 0x1_0000_0000) as u32;
    push_le32(w, low);
    proof {
        lemma_le32_keeps_the_low_bytes(len as nat);
    }
    w.extend_from_slice(payload);
    assert(w@ =~= old(w)@ + framed(tag, payload@));
}

/// Appends a frame. One that has not four bytes for each pixel is refused where
/// it is read.
pub fn write_frame(w: &mut Vec<u8>, width: u32, height: u32, rgba: &[u8])
    ensures
        final(w)@ == old(w)@ + (MessageView::Frame { width, height, rgba: rgba@ }).encoded(),
{
    let mut payload: Vec<u8> = Vec::new();
    push_le32(&mut payload, width);
    push_le32(&mut payload, height);
    payload.extend_from_slice(rgba);
    assert(payload@ =~= frame_payload(width, height, rgba@));
    write_message(w, TAG_FRAME, payload.as_slice());
}

/// Appends an input event, given as JSON.
pub fn write_input(w: &mut Vec<u8>, json: &[u8])
    ensures
        final(w)@ == old(w)@ + MessageView::Input(json@).encoded(),
{
    write_message(w, TAG_INPUT, json);
}

/// What a payload holds, or what is wrong with it.
pub open spec fn decoded(tag: u8, payload: Seq<u8>) -> Result<MessageView, Seq<char>> {
    if tag == TAG_FRAME {
        if payload.len() < 8 {
            Err("frame payload too short"@)
        } else if payload.len() - 8 != le32_value(payload.take(4)) * le32_value(
            payload.subrange(4, 8),
        ) * 4 {
            Err("frame payload does not fit its size"@)
        } else {
            Ok(
                MessageView::Frame {
                    width: le32_value(payload.take(4)) as u32,
                    height: le32_value(payload.subrange(4, 8)) as u32,
                    rgba: payload.skip(8),
                },
            )
        }
    } else if tag == TAG_INPUT {
        Ok(MessageView::Input(payload))
    } else {
        Err("unknown login-render message tag "@ + decimal(tag as nat))
    }
}

/// Whether a decoded message, or the error in its place, is the expected one.
pub open spec fn decodes_to(
    r: Result<Message, String>,
    expected: Result<MessageView, Seq<char>>,
) -> bool {
    match (r, expected) {
        (Ok(m), Ok(v)) => m@ == v,
        (Err(e), Err(t)) => e@ == t,
        _ => false,
    }
}

fn read_le32(bytes: &Vec<u8>, at: usize) -> (n: u32)
    requires
        at + 4 <= bytes.len(),
    ensures
        n == le32_value(bytes@.subrange(at as int, at + 4)),
{
    let b0: u32 = bytes[at] as u32;
    let b1: u32 = bytes[at + 1] as u32;
    let b2: u32 = bytes[at + 2] as u32;
    let b3: u32 = bytes[at + 3] as u32;
    b0 + 256 * b1 + 65536 * b2 + 16777216 * b3
}

fn copy_range(bytes: &Vec<u8>, from: usize, to: usize) -> (out: Vec<u8>)
    requires
        from <= to <= bytes@.len(),
    ensures
        out@ == bytes@.subrange(from as int, to as int),
{
    let mut out: Vec<u8> = Vec::new();
    let mut i: usize = from;
    while i < to
        invariant
            from <= i <= to <= bytes@.len(),
            out@ == bytes@.subrange(from as int, i as int),
        decreases to - i,
    {
        out.push(bytes[i]);
        assert(bytes@.subrange(from as int, i + 1) =~= bytes@.subrange(from as int, i as int).push(
            bytes@[i as int],
        ));
        i += 1;
    }
    out
}

/// The message in a payload that came under a tag.
pub fn decode(tag: u8, payload: Vec<u8>) -> (r: Result<Message, String>)
    ensures
        decodes_to(r, decoded(tag, payload@)),
        r matches Ok(m) ==> m@.well_sized(),
{
    if tag == TAG_FRAME {
        if payload.len() < 8 {
            return Err("frame payload too short".to_string());
        }
        let width: u32 = read_le32(&payload, 0);
        let height: u32 = read_le32(&payload, 4);
        assert(payload@.subrange(0, 4) =~= payload@.take(4));
        assert(0 <= width * height <= u32::MAX * u32::MAX) by (nonlinear_arith)
            requires
                0 <= width <= u32::MAX,
                0 <= height <= u32::MAX,
        ;
        let pixels: u64 = width as u64 * height as u64;
        if (payload.len() - 8) as u128 != pixels as u128 * 4 {
            return Err("frame payload does not fit its size".to_string());
        }
        let rgba = copy_range(&payload, 8, payload.len());
        assert(payload@.subrange(8, payload@.len() as int) =~= payload@.skip(8));
        Ok(Message::Frame { width, height, rgba })
    } else if tag == TAG_INPUT {
        Ok(Message::Input(payload))
    } else {
        let mut m = "unknown login-render message tag ".to_string();
        push_decimal(&mut m, tag as u64);
        Err(m)
    }
}

/// Bytes that are read from the front.
pub struct Reader {
    bytes: Vec<u8>,
    pos: usize,
}

/// What reading one message off the front of some bytes comes to.
pub enum Outcome {
    /// There is nothing left.
    End,
    /// The bytes end inside a message.
    Eof,
    Invalid(Seq<char>),
    Got(MessageView),
}

/// The length of the payload of the message that stands at the front.
pub open spec fn payload_len(s: Seq<u8>) -> nat {
    le32_value(s.subrange(1, 5))
}

/// Whether a whole message stands at the front.
pub open spec fn holds_message(s: Seq<u8>) -> bool {
    s.len() >= 5 && s.len() >= 5 + payload_len(s)
}

/// What reading one message off the front of `s` comes to.
pub open spec fn outcome(s: Seq<u8>) -> Outcome {
    if s.len() == 0 {
        Outcome::End
    } else if !holds_message(s) {
        Outcome::Eof
    } else {
        match decoded(s[0], s.subrange(5, 5 + payload_len(s) as int)) {
            Ok(m) => Outcome::Got(m),
            Err(e) => Outcome::Invalid(e),
        }
    }
}

/// What is left of `s` once one message was read off its front.
pub open spec fn left(s: Seq<u8>) -> Seq<u8> {
    if holds_message(s) {
        s.skip(5 + payload_len(s) as int)
    } else {
        seq![]
    }
}

impl Reader {
    /// The bytes that have not been read.
    pub closed spec fn rest(self) -> Seq<u8> {
        self.bytes@.skip(self.pos as int)
    }

    pub closed spec fn wf(self) -> bool {
        self.pos <= self.bytes@.len()
    }

    pub fn new(bytes: Vec<u8>) -> (r: Reader)
        ensures
            r.wf(),
            r.rest() == bytes@,
    {
        let r = Reader { bytes, pos: 0 };
        assert(r.rest() =~= bytes@);
        r
    }
}

/// How many more bytes it takes until the message at the front of `bytes` is
/// whole: first those that tell its length, then its payload.
pub fn bytes_missing(bytes: &Vec<u8>) -> (n: u64)
    ensures
        n == if bytes@.len() < 5 {
            5 - bytes@.len()
        } else if !holds_message(bytes@) {
            5 + payload_len(bytes@) - bytes@.len()
        } else {
            0
        },
        n == 0 <==> holds_message(bytes@),
{
    let have: usize = bytes.len();
    if have < 5 {
        return 5 - have as u64;
    }
    let whole: u64 = 5 + read_le32(bytes, 1) as u64;
    if whole > have as u64 {
        whole - have as u64
    } else {
        0
    }
}

/// Reads one message. The end of the input is no error where a message could
/// start, and is one anywhere else.
pub fn read_message(r: &mut Reader) -> (m: Result<Option<Message>, ReadError>)
    requires
        old(r).wf(),
    ensures
        final(r).wf(),
        final(r).rest() == left(old(r).rest()),
        match m {
            Ok(None) => outcome(old(r).rest()) is End,
            Ok(Some(got)) => outcome(old(r).rest()) == Outcome::Got(got@),
            Err(ReadError::UnexpectedEof) => outcome(old(r).rest()) is Eof,
            Err(ReadError::InvalidData(e)) => outcome(old(r).rest()) == Outcome::Invalid(e@),
        },
        m matches Ok(Some(got)) ==> got@.well_sized(),
{
    let ghost s = r.rest();
    let have: usize = r.bytes.len() - r.pos;
    if have == 0 {
        assert(r.rest() =~= left(s));
        return Ok(None);
    }
    if have < 5 {
        r.pos = r.bytes.len();
        assert(r.rest() =~= left(s));
        return Err(ReadError::UnexpectedEof);
    }
    let at: usize = r.pos;
    let len: usize = read_le32(&r.bytes, at + 1) as usize;
    assert(r.bytes@.subrange(at + 1, at + 5) =~= s.subrange(1, 5));
    if have - 5 < len {
        r.pos = r.bytes.len();
        assert(r.rest() =~= left(s));
        return Err(ReadError::UnexpectedEof);
    }
    let tag: u8 = r.bytes[at];
    let payload = copy_range(&r.bytes, at + 5, at + 5 + len);
    assert(payload@ =~= s.subrange(5, 5 + payload_len(s) as int));
    r.pos = at + 5 + len;
    assert(r.rest() =~= left(s));
    match decode(tag, payload) {
        Ok(m) => Ok(Some(m)),
        Err(e) => Err(ReadError::InvalidData(e)),
    }
}

/// What was written is what is read, whatever stands behind it, as long as a
/// frame has four bytes for each pixel and the payload's length fits the four
/// bytes it has.
pub proof fn law_message_round_trips(m: MessageView, rest: Seq<u8>)
    requires
        m.well_sized(),
        m.payload().len() <= u32::MAX,
    ensures
        outcome(m.encoded() + rest) == Outcome::Got(m),
        left(m.encoded() + rest) == rest,
{
    let s = m.encoded() + rest;
    let p = m.payload();
    law_le32_reads_back(p.len());
    assert(s.subrange(1, 5) =~= le32(p.len()));
    assert(s.subrange(5, 5 + p.len() as int) =~= p);
    assert(s.skip(5 + p.len() as int) =~= rest);
    match m {
        MessageView::Frame { width, height, rgba } => {
            law_le32_reads_back(width as nat);
            law_le32_reads_back(height as nat);
            assert(p.take(4) =~= le32(width as nat));
            assert(p.subrange(4, 8) =~= le32(height as nat));
            assert(p.skip(8) =~= rgba);
        },
        _ => {},
    }
}

/// Messages written one behind the other.
pub open spec fn encoded_all(messages: Seq<MessageView>) -> Seq<u8>
    decreases messages.len(),
{
    if messages.len() == 0 {
        seq![]
    } else {
        messages[0].encoded() + encoded_all(messages.drop_first())
    }
}

/// The messages that reading to the end of `s` gives, and what it stops at.
pub open spec fn read_all(s: Seq<u8>) -> (Seq<MessageView>, Outcome)
    decreases s.len(),
{
    match outcome(s) {
        Outcome::Got(m) => if left(s).len() < s.len() {
            let (more, end) = read_all(left(s));
            (seq![m] + more, end)
        } else {
            (seq![], Outcome::Eof)
        },
        stop => (seq![], stop),
    }
}

/// Reading a stream gives the messages that were written to it, in order, and
/// then its end.
pub proof fn law_messages_are_read_in_order(messages: Seq<MessageView>)
    requires
        forall|i: int|
            0 <= i < messages.len() ==> (#[trigger] messages[i]).well_sized()
                && messages[i].payload().len() <= u32::MAX,
    ensures
        read_all(encoded_all(messages)) == (messages, Outcome::End),
    decreases messages.len(),
{
    if messages.len() > 0 {
        let rest = messages.drop_first();
        assert forall|i: int| 0 <= i < rest.len() implies (#[trigger] rest[i]).well_sized()
            && rest[i].payload().len() <= u32::MAX by {
            assert(rest[i] == messages[i + 1]);
        }
        law_messages_are_read_in_order(rest);
        law_message_round_trips(messages[0], encoded_all(rest));
        let s = encoded_all(messages);
        assert(s == messages[0].encoded() + encoded_all(rest));
        assert(left(s) == encoded_all(rest));
        assert(left(s).len() < s.len());
        assert(read_all(s).0 == seq![messages[0]] + rest);
        assert(seq![messages[0]] + rest =~= messages);
    } else {
        assert(messages =~= seq![]);
    }
}

/// On the wire a frame starts with the byte 1 and an input event with the byte 2;
/// then come four bytes with the payload's length and the payload itself. A frame's
/// payload is four bytes with its width, four with its height, and its pixels; an
/// input event's is its JSON. All numbers have their lowest byte first.
pub proof fn law_messages_on_the_wire(m: MessageView)
    requires
        m.payload().len() <= u32::MAX,
    ensures
        ({
            let e = m.encoded();
            let length = e[1] + 256 * e[2] + 65536 * e[3] + 16777216 * e[4];
            &&& e.len() == 5 + length
            &&& e[0] == if m is Frame {
                1u8
            } else {
                2u8
            }
            &&& m matches MessageView::Input(json) ==> e.skip(5) == json
            &&& (m matches MessageView::Frame { width, height, rgba } ==> e.len() == 13 + rgba.len()
                && e[5] + 256 * e[6] + 65536 * e[7] + 16777216 * e[8] == width && e[9] + 256 * e[10]
                + 65536 * e[11] + 16777216 * e[12] == height && e.skip(13) == rgba)
        }),
{
    let e = m.encoded();
    let p = m.payload();
    law_le32_reads_back(p.len());
    let n = le32(p.len());
    assert(e[1] == n[0] && e[2] == n[1] && e[3] == n[2] && e[4] == n[3]);
    assert(e.skip(5) =~= p);
    match m {
        MessageView::Frame { width, height, rgba } => {
            law_le32_reads_back(width as nat);
            law_le32_reads_back(height as nat);
            let w = le32(width as nat);
            let h = le32(height as nat);
            assert(e[5] == w[0] && e[6] == w[1] && e[7] == w[2] && e[8] == w[3]);
            assert(e[9] == h[0] && e[10] == h[1] && e[11] == h[2] && e[12] == h[3]);
            assert(e.skip(13) =~= rgba);
        },
        MessageView::Input(json) => {},
    }
}

/// A message that is cut short anywhere behind its first byte is an input that ends
/// too early, and never another message.
pub proof fn law_cut_messages_are_no_messages(m: MessageView, n: int)
    requires
        m.payload().len() <= u32::MAX,
        0 < n < m.encoded().len(),
    ensures
        outcome(m.encoded().take(n)) is Eof,
        outcome(seq![]) is End,
{
    let s = m.encoded().take(n);
    let p = m.payload();
    law_le32_reads_back(p.len());
    if n >= 5 {
        assert(s.subrange(1, 5) =~= le32(p.len()));
    }
}

/// A frame that has not four bytes for each of its pixels is refused, and so is a
/// message that starts with any byte but 1 and 2; what stands behind either can
/// still be read.
pub proof fn law_misfits_are_refused(
    width: u32,
    height: u32,
    rgba: Seq<u8>,
    tag: u8,
    payload: Seq<u8>,
    rest: Seq<u8>,
)
    requires
        rgba.len() + 8 <= u32::MAX,
        payload.len() <= u32::MAX,
    ensures
        rgba.len() != width * height * 4 ==> ({
            let e = (MessageView::Frame { width, height, rgba }).encoded();
            outcome(e + rest) is Invalid && left(e + rest) == rest
        }),
        tag != 1 && tag != 2 ==> outcome(framed(tag, payload) + rest) is Invalid && left(
            framed(tag, payload) + rest,
        ) == rest,
{
    let p = frame_payload(width, height, rgba);
    law_le32_reads_back(width as nat);
    law_le32_reads_back(height as nat);
    assert(p.take(4) =~= le32(width as nat));
    assert(p.subrange(4, 8) =~= le32(height as nat));
    lemma_framed(1, p, rest);
    lemma_framed(tag, payload, rest);
}

proof fn lemma_framed(tag: u8, payload: Seq<u8>, rest: Seq<u8>)
    requires
        payload.len() <= u32::MAX,
    ensures
        ({
            let s = framed(tag, payload) + rest;
            &&& holds_message(s)
            &&& s[0] == tag
            &&& payload_len(s) == payload.len()
            &&& s.subrange(5, 5 + payload_len(s) as int) == payload
            &&& left(s) == rest
        }),
{
    let s = framed(tag, payload) + rest;
    law_le32_reads_back(payload.len());
    assert(s.subrange(1, 5) =~= le32(payload.len()));
    assert(s.subrange(5, 5 + payload.len() as int) =~= payload);
    assert(s.skip(5 + payload.len() as int) =~= rest);
}

/// A message is decoded to what is expected, or refused as is expected, and for the same
/// reason; it says exactly what it holds.
pub proof fn law_messages_say_what_they_hold(
    r: Result<Message, String>,
    expected: Result<MessageView, Seq<char>>,
    m: Message,
)
    ensures
        decodes_to(r, expected) ==> (r is Ok <==> expected is Ok),
        decodes_to(r, expected) && r is Ok ==> r->Ok_0@ == expected->Ok_0,
        decodes_to(r, expected) && r is Err ==> r->Err_0@ == expected->Err_0,
        match m {
            Message::Frame { width, height, rgba } => m@ is Frame && m@->width == width
                && m@->height == height && m@->rgba == rgba@,
            Message::Input(json) => m@ is Input && m@->Input_0 == json@,
        },
{
}

} // verus!
