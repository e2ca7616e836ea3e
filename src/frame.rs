//! Length-prefixed text frames: a 32-bit big-endian byte count followed by
//! that many bytes of UTF-8.
use vstd::prelude::*;
use vstd::utf8::{decode_utf8, encode_utf8, valid_utf8};


verus! {

/// What can go wrong while reading a frame.
#[derive(Debug, PartialEq, Eq, Structural)]
pub enum FrameError {
    /// The bytes at hand end before the frame does.
    Incomplete,
    /// The payload is not valid UTF-8.
    InvalidUtf8,
}

/// The big-endian value of the first four bytes of `b`.
pub open spec fn be_u32(b: Seq<u8>) -> int
    recommends
        b.len() >= 4,
{
    b[0] as int * 16777216 + b[1] as int * 65536 + b[2] as int * 256 + b[3] as int
}

/// The four big-endian bytes of `n`.
pub open spec fn be_bytes(n: u32) -> Seq<u8> {
    seq![
        (n / 16777216) as u8,
        ((n / 65536) % 256) as u8,
        ((n / 256) % 256) as u8,
        (n % 256) as u8,
    ]
}

/// Reading back the bytes written for `n` gives `n`.
pub proof fn lemma_be_round_trip(n: u32)
    ensures
        be_bytes(n).len() == 4,
        be_u32(be_bytes(n)) == n,
{
    let b = be_bytes(n);
    assert(b[0] as int == n / 16777216);
    assert(b[1] as int == (n / 65536) % 256);
    assert(b[2] as int == (n / 256) % 256);
    assert(b[3] as int == n % 256);
    assert(be_u32(b) == n) by (nonlinear_arith)
        requires
            b[0] as int == n / 16777216,
            b[1] as int == (n / 65536) % 256,
            b[2] as int == (n / 256) % 256,
            b[3] as int == n % 256,
            be_u32(b) == b[0] as int * 16777216 + b[1] as int * 65536 + b[2] as int * 256 + b[3] as int,
            0 <= n < 0x1_0000_0000,
    {
    }
}

/// Writes the four big-endian bytes of `n` at the end of `out`.
pub fn put_u32(out: &mut Vec<u8>, n: u32)
    ensures
        final(out)@ == old(out)@ + be_bytes(n),
{
    out.push((n / 16777216) as u8);
    out.push(((n / 65536) % 256) as u8);
    out.push(((n / 256) % 256) as u8);
    out.push((n % 256) as u8);
    assert(final(out)@ =~= old(out)@ + be_bytes(n));
}

/// A read position over a borrowed byte slice.
pub struct Cursor<'a> {
    inner: &'a [u8],
    pos: usize,
}

impl<'a> Cursor<'a> {
    #[verifier::type_invariant]
    spec fn inv(&self) -> bool {
        self.pos <= self.inner@.len()
    }

    /// The bytes under the cursor, read or not.
    pub closed spec fn bytes(&self) -> Seq<u8> {
        self.inner@
    }

    /// How many bytes have been read.
    pub closed spec fn pos(&self) -> nat {
        self.pos as nat
    }

    /// A cursor at the start of `inner`.
    pub fn new(inner: &'a [u8]) -> (c: Cursor<'a>)
        ensures
            c.bytes() == inner@,
            c.pos() == 0,
    {
        Cursor { inner, pos: 0 }
    }

    /// The number of bytes read so far.
    pub fn position(&self) -> (r: usize)
        ensures
            r == self.pos(),
            r <= self.bytes().len(),
    {
        proof {
            use_type_invariant(self);
        }
        self.pos
    }
}

/// Whether the four bytes of a length header stand at `p` in `b`.
pub open spec fn header_complete(b: Seq<u8>, p: int) -> bool {
    0 <= p && p + 4 <= b.len()
}

/// The payload length that the header at `p` announces.
pub open spec fn payload_len(b: Seq<u8>, p: int) -> int {
    be_u32(b.subrange(p, p + 4))
}

/// Whether a whole frame, header and payload, stands at `p` in `b`.
pub open spec fn frame_complete(b: Seq<u8>, p: int) -> bool {
    header_complete(b, p) && p + 4 + payload_len(b, p) <= b.len()
}

/// The payload bytes of the frame at `p`.
pub open spec fn payload(b: Seq<u8>, p: int) -> Seq<u8> {
    b.subrange(p + 4, p + 4 + payload_len(b, p))
}

/// The number of bytes that the frame at `p` occupies.
pub open spec fn frame_size(b: Seq<u8>, p: int) -> int {
    4 + payload_len(b, p)
}

/// The bytes of a frame that carries the text `s`.
pub open spec fn frame_bytes(s: Seq<char>) -> Seq<u8> {
    be_bytes(encode_utf8(s).len() as u32) + encode_utf8(s)
}

/// Reads a big-endian `u32`; where fewer than four bytes are left the
/// cursor stays where it was and `Incomplete` comes back.
pub fn read_u32(src: &mut Cursor) -> (r: Result<u32, FrameError>)
    ensures
        r is Ok <==> header_complete(old(src).bytes(), old(src).pos() as int),
        r matches Ok(n) ==> n == payload_len(old(src).bytes(), old(src).pos() as int)
            && final(src).bytes() == old(src).bytes()
            && final(src).pos() == old(src).pos() + 4,
        r matches Err(e) ==> e == FrameError::Incomplete && *final(src) == *old(src),
{
    proof {
        use_type_invariant(&*src);
    }
    let len = src.inner.len();
    if len - src.pos < 4 {
        return Err(FrameError::Incomplete);
    }
    let p = src.pos;
    let b0 = src.inner[p];
    let b1 = src.inner[p + 1];
    let b2 = src.inner[p + 2];
    let b3 = src.inner[p + 3];
    assert(b0 as int * 16777216 + b1 as int * 65536 + b2 as int * 256 + b3 as int <= 0xffff_ffff)
        by (nonlinear_arith)
        requires
            b0 <= 255,
            b1 <= 255,
            b2 <= 255,
            b3 <= 255,
    ;
    let n: u32 = (b0 as u32) * 16777216 + (b1 as u32) * 65536 + (b2 as u32) * 256 + (b3 as u32);
    src.pos = p + 4;
    Ok(n)
}

/// Relies on `String::from_utf8`: it accepts exactly the valid UTF-8 byte
/// sequences and keeps their characters.
#[verifier::external_body]
fn string_from_utf8(bytes: Vec<u8>) -> (r: Option<String>)
    ensures
        r is Some <==> valid_utf8(bytes@),
        r matches Some(s) ==> s@ == decode_utf8(bytes@),
{
    String::from_utf8(bytes).ok()
}

/// One application message: a UTF-8 string.
#[derive(Debug, PartialEq, Eq)]
pub struct Frame {
    raw: String,
}

impl View for Frame {
    type V = Seq<char>;

    closed spec fn view(&self) -> Seq<char> {
        self.raw@
    }
}

impl Frame {
    /// A frame that carries `raw`.
    pub fn new(raw: String) -> (f: Frame)
        ensures
            f@ == raw@,
    {
        Frame { raw }
    }

    /// Reads one whole frame at the cursor. On success the cursor moves past
    /// it; on failure it stays where it was.
    pub fn parse(src: &mut Cursor) -> (r: Result<Frame, FrameError>)
        ensures
            ({
                let b = old(src).bytes();
                let p = old(src).pos() as int;
                &&& r is Ok <==> frame_complete(b, p) && valid_utf8(payload(b, p))
                &&& r == Err::<Frame, FrameError>(FrameError::Incomplete) <==> !frame_complete(b, p)
                &&& r == Err::<Frame, FrameError>(FrameError::InvalidUtf8) <==> frame_complete(b, p)
                    && !valid_utf8(payload(b, p))
                &&& r matches Ok(f) ==> f@ == decode_utf8(payload(b, p))
                    && final(src).bytes() == b
                    && final(src).pos() == p + frame_size(b, p)
                &&& r is Err ==> final(src).bytes() == b && final(src).pos() == p
            }),
    {
        proof {
            use_type_invariant(&*src);
        }
        let ghost b = src.bytes();
        let ghost p = src.pos() as int;
        let start = src.pos;
        let len = match read_u32(src) {
            Ok(n) => n as usize,
            Err(e) => return Err(e),
        };
        let total = src.inner.len();
        if total - src.pos < len {
            src.pos = start;
            return Err(FrameError::Incomplete);
        }
        let from = src.pos;
        let mut out: Vec<u8> = Vec::with_capacity(len);
        let mut i: usize = 0;
        while i < len
            invariant
                src.inner@ == b,
                from == p + 4,
                from + len <= total,
                total == b.len(),
                i <= len,
                out@ == b.subrange(from as int, from + i),
            decreases len - i,
        {
            out.push(src.inner[from + i]);
            i = i + 1;
            assert(out@ =~= b.subrange(from as int, from + i));
        }
        assert(out@ == payload(b, p));
        match string_from_utf8(out) {
            Some(raw) => {
                src.pos = from + len;
                Ok(Frame { raw })
            },
            None => {
                src.pos = start;
                Err(FrameError::InvalidUtf8)
            },
        }
    }

    /// The text the frame carries.
    pub fn raw(&self) -> (r: &str)
        ensures
            r@ == self@,
    {
        self.raw.as_str()
    }

    /// The bytes that stand for this frame on the wire: the payload length
    /// as a big-endian `u32`, then the payload.
    pub fn to_bytes(&self) -> (r: Vec<u8>)
        requires
            encode_utf8(self@).len() <= u32::MAX,
        ensures
            r@ == frame_bytes(self@),
    {
        let text = self.raw.as_str();
        let payload = text.as_bytes();
        let n = text.len();
        let mut out: Vec<u8> = Vec::new();
        put_u32(&mut out, n as u32);
        let mut i: usize = 0;
        while i < n
            invariant
                payload@ == encode_utf8(self@),
                n == payload@.len(),
                n <= u32::MAX,
                i <= n,
                out@ == be_bytes(n as u32) + payload@.subrange(0, i as int),
            decreases n - i,
        {
            out.push(payload[i]);
            i = i + 1;
            assert(out@ =~= be_bytes(n as u32) + payload@.subrange(0, i as int));
        }
        assert(payload@.subrange(0, n as int) =~= payload@);
        out
    }
}

impl From<String> for Frame {
    fn from(raw: String) -> (f: Frame) {
        Frame { raw }
    }
}

impl vstd::std_specs::convert::FromSpecImpl<String> for Frame {
    open spec fn obeys_from_spec() -> bool {
        true
    }

    closed spec fn from_spec(raw: String) -> Frame {
        Frame { raw }
    }
}

impl<'a> From<&'a str> for Frame {
    fn from(raw: &'a str) -> (f: Frame) {
        Frame { raw: raw.to_owned() }
    }
}

impl<'a> vstd::std_specs::convert::FromSpecImpl<&'a str> for Frame {
    open spec fn obeys_from_spec() -> bool {
        false
    }

    closed spec fn from_spec(raw: &'a str) -> Frame {
        arbitrary()
    }
}

/// Parsing the bytes written for a frame gives that frame back and consumes
/// exactly those bytes, whatever follows them.
pub proof fn lemma_frame_round_trip(s: Seq<char>, rest: Seq<u8>)
    requires
        encode_utf8(s).len() <= u32::MAX,
    ensures
        ({
            let b = frame_bytes(s) + rest;
            &&& frame_complete(b, 0)
            &&& valid_utf8(payload(b, 0))
            &&& decode_utf8(payload(b, 0)) == s
            &&& frame_size(b, 0) == frame_bytes(s).len()
        }),
{
    let e = encode_utf8(s);
    let n = e.len() as u32;
    let b = frame_bytes(s) + rest;
    lemma_be_round_trip(n);
    assert(b.subrange(0, 4) =~= be_bytes(n));
    assert(payload(b, 0) =~= e);
    vstd::utf8::encode_utf8_valid_utf8(s);
    vstd::utf8::encode_utf8_decode_utf8(s);
}

} // verus!
