//! Frame codec: a 10-bit source / 10-bit destination / 10-bit length header
//! plus payload, protected by a CRC, byte-stuffed with COBS and terminated by
//! a single zero sentinel byte.

use vstd::prelude::*;

verus! {

/// How many bytes the magic word uses.
pub const MAGIC_LEN: usize = 2;

/// First byte of the magic word, the ASCII letter `k`.
pub const MAGIC_0: u8 = 0x6B;

/// Second byte of the magic word, the ASCII letter `I`.
pub const MAGIC_1: u8 = 0x49;

/// How many bytes the packed header uses.
pub const HEADER_LEN: usize = 4;

/// How many bytes the checksum uses.
pub const CHECKSUM_LEN: usize = 2;

/// How long a message in a frame can be at most, chosen such that
/// `MAX_FRAME_LEN` stays safely below 1024.
pub const MAX_MESSAGE_LEN: usize = 1006;

/// How many bytes the contents of a frame, before COBS encoding, take up at most.
pub const MAX_NAKED_LEN: usize = MAGIC_LEN + HEADER_LEN + MAX_MESSAGE_LEN + CHECKSUM_LEN;

/// How many bytes the contents of a frame, before COBS encoding, take up at least.
pub const MIN_NAKED_LEN: usize = MAGIC_LEN + HEADER_LEN + CHECKSUM_LEN;

/// How large an encoded frame can be: the worst-case COBS expansion of the
/// largest naked frame, plus the sentinel byte.
pub const MAX_FRAME_LEN: usize = MAX_NAKED_LEN + MAX_NAKED_LEN / 254 + 1 + 1;

/// A station address on the bus: a 10-bit unsigned integer.
#[derive(Debug, PartialEq, Eq, Structural, Clone, Copy)]
pub struct Address {
    value: u16,
}

/// Returned when an address would not fit in its 10-bit field.
#[derive(Debug, PartialEq, Eq, Structural, Clone, Copy)]
pub struct AddressTooLargeError;

/// Largest value an address can hold; reserved as the broadcast/unicast-control address.
pub const ADDRESS_UNICAST: u16 = 0x3FF;

impl Address {
    /// The raw 10-bit value.
    pub closed spec fn spec_value(self) -> u16 {
        self.value
    }

    /// Every address fits in 10 bits.
    pub closed spec fn wf(self) -> bool {
        self.value <= ADDRESS_UNICAST
    }

    /// Construct an address, rejecting values above 10 bits.
    pub fn new(addr: u16) -> (r: Result<Self, AddressTooLargeError>)
        ensures
            addr <= ADDRESS_UNICAST ==> (r matches Ok(a) && a.spec_value() == addr && a.wf()),
            addr > ADDRESS_UNICAST ==> r matches Err(_),
    {
        if addr <= ADDRESS_UNICAST {
            Ok(Address { value: addr })
        } else {
            Err(AddressTooLargeError)
        }
    }

    /// The reserved broadcast/unicast-control address.
    pub fn unicast() -> (r: Address)
        ensures
            r.spec_value() == ADDRESS_UNICAST,
            r.wf(),
    {
        Address { value: ADDRESS_UNICAST }
    }

    /// Whether this is the reserved broadcast/unicast-control address.
    pub fn is_unicast(&self) -> (r: bool)
        ensures
            r == (self.spec_value() == ADDRESS_UNICAST),
    {
        self.value == ADDRESS_UNICAST
    }

    /// The raw value as a primitive integer.
    pub fn to_primitive(&self) -> (r: u16)
        ensures
            r == self.spec_value(),
    {
        self.value
    }
}

/// The frame header: source, destination and payload length, each a 10-bit
/// field, packed most-significant-bit first into four bytes. The final two
/// bits are reserved and transmitted as zero.
#[derive(Debug, PartialEq, Eq, Structural, Clone, Copy)]
pub struct Header {
    pub address_src: Address,
    pub address_dst: Address,
    pub len: u16,
}

/// The four bytes of a packed header, as values: bit positions 0..10 hold the
/// source, 10..20 the destination, 20..30 the length, 30..32 zero.
pub open spec fn spec_pack_header(src: u16, dst: u16, len: u16) -> Seq<u8>
    recommends
        src <= 0x3FF,
        dst <= 0x3FF,
        len <= 0x3FF,
{
    seq![
        (src / 4) as u8,
        ((src % 4) * 64 + dst / 16) as u8,
        ((dst % 16) * 16 + len / 64) as u8,
        ((len % 64) * 4) as u8,
    ]
}

/// The three 10-bit fields read back out of four header bytes; the reserved
/// bits are ignored.
pub open spec fn spec_unpack_header(b: Seq<u8>) -> (u16, u16, u16)
    recommends
        b.len() == 4,
{
    (
        ((b[0] as u16) * 4 + (b[1] as u16) / 64) as u16,
        (((b[1] as u16) % 64) * 16 + (b[2] as u16) / 16) as u16,
        (((b[2] as u16) % 16) * 64 + (b[3] as u16) / 4) as u16,
    )
}

/// Unpacking inverts packing on every triple of 10-bit fields.
pub proof fn lemma_header_pack_unpack(src: u16, dst: u16, len: u16)
    requires
        src <= 0x3FF,
        dst <= 0x3FF,
        len <= 0x3FF,
    ensures
        spec_unpack_header(spec_pack_header(src, dst, len)) == (src, dst, len),
{
    let b = spec_pack_header(src, dst, len);
    assert(b[0] == (src / 4) as u8);
    assert(b[1] == ((src % 4) * 64 + dst / 16) as u8);
    assert(b[2] == ((dst % 16) * 16 + len / 64) as u8);
    assert(b[3] == ((len % 64) * 4) as u8);
    assert((b[0] as u16) * 4 + (b[1] as u16) / 64 == src) by (nonlinear_arith)
        requires
            src <= 0x3FF,
            dst <= 0x3FF,
            b[0] == (src / 4) as u8,
            b[1] == ((src % 4) * 64 + dst / 16) as u8,
    ;
    assert(((b[1] as u16) % 64) * 16 + (b[2] as u16) / 16 == dst) by (nonlinear_arith)
        requires
            src <= 0x3FF,
            dst <= 0x3FF,
            len <= 0x3FF,
            b[1] == ((src % 4) * 64 + dst / 16) as u8,
            b[2] == ((dst % 16) * 16 + len / 64) as u8,
    ;
    assert(((b[2] as u16) % 16) * 64 + (b[3] as u16) / 4 == len) by (nonlinear_arith)
        requires
            dst <= 0x3FF,
            len <= 0x3FF,
            b[2] == ((dst % 16) * 16 + len / 64) as u8,
            b[3] == ((len % 64) * 4) as u8,
    ;
}

impl Header {
    /// All three fields fit their 10-bit slots.
    pub open spec fn wf(self) -> bool {
        &&& self.address_src.wf()
        &&& self.address_dst.wf()
        &&& self.len <= 0x3FF
    }

    /// The packed bytes of this header.
    pub open spec fn spec_pack(self) -> Seq<u8> {
        spec_pack_header(self.address_src.spec_value(), self.address_dst.spec_value(), self.len)
    }

    /// Pack the header into its four-byte wire form.
    pub fn pack(&self) -> (r: Vec<u8>)
        requires
            self.wf(),
        ensures
            r@ == self.spec_pack(),
            r@.len() == HEADER_LEN,
    {
        let src = self.address_src.to_primitive();
        let dst = self.address_dst.to_primitive();
        let len = self.len;
        let mut r: Vec<u8> = Vec::new();
        r.push((src / 4) as u8);
        r.push(((src % 4) * 64 + dst / 16) as u8);
        r.push(((dst % 16) * 16 + len / 64) as u8);
        r.push(((len % 64) * 4) as u8);
        proof {
            assert(r@ =~= self.spec_pack());
        }
        r
    }

    /// Unpack four wire bytes into a header; the reserved bits are ignored,
    /// so every four-byte sequence decodes.
    pub fn unpack(bytes: &[u8]) -> (r: Header)
        requires
            bytes@.len() == HEADER_LEN,
        ensures
            r.wf(),
            (r.address_src.spec_value(), r.address_dst.spec_value(), r.len)
                == spec_unpack_header(bytes@),
    {
        let b0 = bytes[0] as u16;
        let b1 = bytes[1] as u16;
        let b2 = bytes[2] as u16;
        let b3 = bytes[3] as u16;
        let src = b0 * 4 + b1 / 64;
        let dst = (b1 % 64) * 16 + b2 / 16;
        let len = (b2 % 16) * 64 + b3 / 4;
        Header {
            address_src: Address { value: src },
            address_dst: Address { value: dst },
            len,
        }
    }
}

/// What `cobs::encode_vec` returns: the COBS encoding of the input bytes.
pub uninterp spec fn cobs_enc(data: Seq<u8>) -> Seq<u8>;

/// What `cobs::decode_in_place` computes from the input bytes: the decoded
/// message, or `None` when the bytes are not a well-formed COBS encoding.
pub uninterp spec fn cobs_dec(data: Seq<u8>) -> Option<Seq<u8>>;

/// Relies on `cobs::encode_vec`: the encoding depends on the input bytes
/// alone, contains no zero byte, grows nonempty input by at least one and at
/// most one byte per 254 plus one, keeps empty input empty, and is inverted
/// by `cobs::decode_in_place`.
#[verifier::external_body]
fn cobs_encode(data: &[u8]) -> (r: Vec<u8>)
    ensures
        r@ == cobs_enc(data@),
        cobs_dec(r@) == Some(data@),
        forall|i: int| 0 <= i < r@.len() ==> r@[i] != 0,
        r@.len() <= data@.len() + data@.len() / 254 + 1,
        data@.len() == 0 ==> r@.len() == 0,
        data@.len() > 0 ==> r@.len() > data@.len(),
{
    cobs::encode_vec(data)
}

/// Relies on `cobs::decode_in_place`: the outcome depends on the input bytes
/// alone; an error is reported when the bytes are not a valid encoding.
#[verifier::external_body]
fn cobs_decode(data: &[u8]) -> (r: Option<Vec<u8>>)
    ensures
        match r {
            Some(d) => cobs_dec(data@) == Some(d@),
            None => cobs_dec(data@) is None,
        },
{
    let mut work = data.to_vec();
    match cobs::decode_in_place(work.as_mut_slice()) {
        Ok(n) => {
            work.truncate(n);
            Some(work)
        },
        Err(()) => None,
    }
}

/// What `Crc::<u16>::checksum` with the CRC-16/IBM-SDLC algorithm returns for
/// the input bytes.
pub uninterp spec fn crc16_of(data: Seq<u8>) -> u16;

/// Relies on `crc::Crc::<u16>::checksum` with `CRC_16_IBM_SDLC`: the checksum
/// depends on the input bytes alone.
#[verifier::external_body]
fn crc16(data: &[u8]) -> (r: u16)
    ensures
        r == crc16_of(data@),
{
    crc::Crc::<u16>::new(&crc::CRC_16_IBM_SDLC).checksum(data)
}

/// An owned, validated frame: its header and a copy of its payload.
#[derive(Debug, PartialEq, Clone)]
pub struct FrameOwned {
    pub header: Header,
    pub contents: Vec<u8>,
}

impl FrameOwned {
    /// The header fields agree with the payload that is carried.
    pub open spec fn wf(self) -> bool {
        &&& self.header.wf()
        &&& self.contents@.len() == self.header.len
    }
}

/// A view of a decoded frame: its header and a borrowed payload.
#[derive(Debug, PartialEq)]
pub struct FrameRef<'a> {
    pub header: Header,
    pub contents: &'a [u8],
}

impl<'a> FrameRef<'a> {
    /// Copy the borrowed payload out into an owned frame.
    pub fn to_owned_frame(&self) -> (r: FrameOwned)
        ensures
            r.header == self.header,
            r.contents@ == self.contents@,
    {
        let mut contents: Vec<u8> = Vec::new();
        contents.extend_from_slice(self.contents);
        proof {
            assert(contents@ =~= self.contents@);
        }
        FrameOwned { header: self.header, contents }
    }

    /// Borrow an owned frame as a reference frame.
    pub fn of_owned(f: &'a FrameOwned) -> (r: FrameRef<'a>)
        ensures
            r.header == f.header,
            r.contents@ == f.contents@,
    {
        FrameRef { header: f.header, contents: f.contents.as_slice() }
    }
}

/// What one fed byte produced: nothing yet, an error, or a whole frame.
#[derive(Debug, PartialEq)]
pub enum ReadResult {
    /// The reader has not yet consumed enough bytes.
    NotYet,
    /// The buffer ran out of space.
    Overflow,
    /// The frame is invalid because it is not encoded with COBS correctly.
    FrameErrorCobs,
    /// The frame is invalid because the magic word is not correct.
    FrameErrorMagic,
    /// The frame is invalid because the header is broken.
    FrameErrorHeader,
    /// The frame is invalid because the content length does not match the
    /// length in the header.
    FrameErrorSize,
    /// The frame is invalid because the checksum is incorrect.
    FrameErrorChecksum,
    /// The frame is valid; here it is.
    FrameOK(FrameOwned),
}

impl ReadResult {
    /// Whether this result reports a broken frame.
    pub fn is_error(&self) -> (r: bool)
        ensures
            r == !(self is NotYet || self is FrameOK),
    {
        match self {
            ReadResult::NotYet => false,
            ReadResult::FrameOK(_) => false,
            ReadResult::Overflow
            | ReadResult::FrameErrorCobs
            | ReadResult::FrameErrorMagic
            | ReadResult::FrameErrorHeader
            | ReadResult::FrameErrorSize
            | ReadResult::FrameErrorChecksum => true,
        }
    }
}

/// The verdict on one buffered byte sequence once its sentinel arrives.
pub enum FrameOutcome {
    /// The bytes are not a well-formed COBS encoding.
    ErrorCobs,
    /// The decoded bytes are too short, or disagree with the header length.
    ErrorSize,
    /// The decoded checksum does not match the decoded body.
    ErrorChecksum,
    /// The decoded bytes do not start with the magic word.
    ErrorHeader,
    /// A valid frame with these header fields and this payload.
    Valid { src: u16, dst: u16, contents: Seq<u8> },
}

/// A 16-bit big-endian value read from two bytes.
pub open spec fn spec_be16(hi: u8, lo: u8) -> u16 {
    (hi * 256 + lo) as u16
}

/// The verdict on a buffered byte sequence: COBS-decode it, check its length,
/// its checksum, its magic word, and its header length field, in that order.
pub open spec fn frame_outcome(data: Seq<u8>) -> FrameOutcome {
    match cobs_dec(data) {
        Option::None => FrameOutcome::ErrorCobs,
        Option::Some(d) => {
            if d.len() < MIN_NAKED_LEN {
                FrameOutcome::ErrorSize
            } else {
                let body = d.subrange(0, d.len() - CHECKSUM_LEN);
                if spec_be16(d[d.len() - 2], d[d.len() - 1]) != crc16_of(body) {
                    FrameOutcome::ErrorChecksum
                } else if d[0] != MAGIC_0 || d[1] != MAGIC_1 {
                    FrameOutcome::ErrorHeader
                } else {
                    let (src, dst, len) = spec_unpack_header(d.subrange(2, 6));
                    if d.len() - MIN_NAKED_LEN != len {
                        FrameOutcome::ErrorSize
                    } else {
                        FrameOutcome::Valid {
                            src,
                            dst,
                            contents: d.subrange(6, d.len() - CHECKSUM_LEN),
                        }
                    }
                }
            }
        },
    }
}

/// Whether a read result reports exactly the given verdict.
pub open spec fn result_matches_outcome(r: ReadResult, o: FrameOutcome) -> bool {
    match o {
        FrameOutcome::ErrorCobs => r is FrameErrorCobs,
        FrameOutcome::ErrorSize => r is FrameErrorSize,
        FrameOutcome::ErrorChecksum => r is FrameErrorChecksum,
        FrameOutcome::ErrorHeader => r is FrameErrorHeader,
        FrameOutcome::Valid { src, dst, contents } => {
            &&& r matches ReadResult::FrameOK(f)
            &&& f.wf()
            &&& f.header.address_src.spec_value() == src
            &&& f.header.address_dst.spec_value() == dst
            &&& f.header.len == contents.len()
            &&& f.contents@ == contents
        },
    }
}

/// How one call to `Reader::feed` relates the buffered bytes before and after
/// to the returned result: a sentinel byte always clears the buffer and yields
/// the verdict on what was buffered; any other byte is appended, or reports
/// `Overflow` when the buffer is full.
pub open spec fn feed_transition(pre: Seq<u8>, byte: u8, post: Seq<u8>, r: ReadResult) -> bool {
    if byte == 0 {
        &&& post == Seq::<u8>::empty()
        &&& result_matches_outcome(r, frame_outcome(pre))
    } else if pre.len() == MAX_FRAME_LEN {
        &&& post == pre
        &&& r is Overflow
    } else {
        &&& post == pre.push(byte)
        &&& r is NotYet
    }
}

/// A streaming frame reader: buffers bytes until the zero sentinel arrives,
/// then decodes and validates what was buffered.
#[derive(Debug)]
pub struct Reader {
    buf: Vec<u8>,
}

impl Reader {
    /// The bytes buffered so far, waiting for a sentinel.
    pub closed spec fn buffered(&self) -> Seq<u8> {
        self.buf@
    }

    /// The buffer never grows past the largest possible encoded frame.
    pub open spec fn wf(&self) -> bool {
        self.buffered().len() <= MAX_FRAME_LEN
    }

    /// A fresh reader with an empty buffer.
    pub fn new() -> (r: Reader)
        ensures
            r.buffered() == Seq::<u8>::empty(),
            r.wf(),
    {
        Reader { buf: Vec::new() }
    }

    /// Drop any partially buffered frame.
    pub fn clear(&mut self)
        ensures
            final(self).buffered() == Seq::<u8>::empty(),
            final(self).wf(),
    {
        self.buf.clear();
    }

    /// Feed one byte to the reader. A zero byte is the frame sentinel: the
    /// buffered bytes are decoded and validated, and the buffer is cleared
    /// whatever the verdict, so the reader resynchronizes on every sentinel.
    pub fn feed(&mut self, byte: u8) -> (r: ReadResult)
        requires
            old(self).wf(),
        ensures
            final(self).wf(),
            feed_transition(old(self).buffered(), byte, final(self).buffered(), r),
    {
        if byte == 0 {
            let r = Self::process(&self.buf);
            self.buf.clear();
            r
        } else if self.buf.len() == MAX_FRAME_LEN {
            ReadResult::Overflow
        } else {
            self.buf.push(byte);
            ReadResult::NotYet
        }
    }

    /// Decode and validate one buffered byte sequence.
    fn process(buf: &Vec<u8>) -> (r: ReadResult)
        ensures
            result_matches_outcome(r, frame_outcome(buf@)),
    {
        let d = match cobs_decode(buf.as_slice()) {
            Option::None => {
                return ReadResult::FrameErrorCobs;
            },
            Option::Some(d) => d,
        };
        let n = d.len();
        if n < MIN_NAKED_LEN {
            return ReadResult::FrameErrorSize;
        }
        let body = vstd::slice::slice_subrange(d.as_slice(), 0, n - CHECKSUM_LEN);
        let wire_crc = (d[n - 2] as u16) * 256 + (d[n - 1] as u16);
        if wire_crc != crc16(body) {
            return ReadResult::FrameErrorChecksum;
        }
        if d[0] != MAGIC_0 || d[1] != MAGIC_1 {
            return ReadResult::FrameErrorHeader;
        }
        let header = Header::unpack(vstd::slice::slice_subrange(d.as_slice(), 2, 6));
        if n - MIN_NAKED_LEN != header.len as usize {
            return ReadResult::FrameErrorSize;
        }
        let mut contents: Vec<u8> = Vec::new();
        contents.extend_from_slice(vstd::slice::slice_subrange(
            d.as_slice(),
            MAGIC_LEN + HEADER_LEN,
            n - CHECKSUM_LEN,
        ));
        proof {
            let dd = d@;
            assert(contents@ =~= dd.subrange(6, dd.len() - 2));
            let (src, dst, len) = spec_unpack_header(dd.subrange(2, 6));
            assert(header.address_src.spec_value() == src);
            assert(header.address_dst.spec_value() == dst);
            assert(header.len == len);
        }
        ReadResult::FrameOK(FrameOwned { header, contents })
    }
}

/// One encoded frame, ready to be sent: COBS-encoded bytes followed by the
/// zero sentinel.
#[derive(Debug, PartialEq)]
pub struct Frame(pub Vec<u8>);

impl View for Frame {
    type V = Seq<u8>;

    open spec fn view(&self) -> Seq<u8> {
        self.0@
    }
}

impl Frame {
    /// The encoded bytes, sentinel included.
    pub fn as_slice(&self) -> (r: &[u8])
        ensures
            r@ == self@,
    {
        self.0.as_slice()
    }
}

/// Why a frame could not be packaged.
#[derive(Debug, PartialEq, Eq, Structural, Clone, Copy)]
pub enum WriteError {
    /// Tried to write a message that will not fit within a frame.
    TooLong,
    /// Tried to encode an invalid header.
    FrameErrorHeader,
}

/// The bytes protected by the checksum: magic word, packed header, payload.
pub open spec fn spec_frame_body(src: u16, dst: u16, payload: Seq<u8>) -> Seq<u8> {
    seq![MAGIC_0, MAGIC_1] + spec_pack_header(src, dst, payload.len() as u16) + payload
}

/// A whole frame before COBS encoding: the body followed by its big-endian
/// checksum.
pub open spec fn spec_naked_bytes(src: u16, dst: u16, payload: Seq<u8>) -> Seq<u8> {
    let body = spec_frame_body(src, dst, payload);
    body + seq![(crc16_of(body) / 256) as u8, (crc16_of(body) % 256) as u8]
}

/// A whole frame on the wire: the naked bytes, COBS-encoded, plus the zero
/// sentinel.
pub open spec fn spec_frame_bytes(src: u16, dst: u16, payload: Seq<u8>) -> Seq<u8> {
    cobs_enc(spec_naked_bytes(src, dst, payload)) + seq![0u8]
}

/// Packages `(src, dst, payload)` triples into encoded frames.
pub struct Writer;

impl Writer {
    /// Package a payload into one encoded frame.
    ///
    /// Succeeds exactly when the payload fits; the frame then consists of
    /// nonzero bytes followed by the single zero sentinel, stays within
    /// `MAX_FRAME_LEN`, and the reader's verdict on the bytes before the
    /// sentinel is the valid frame that was packaged.
    pub fn package(src: Address, dst: Address, contents: &[u8]) -> (r: Result<
        Frame,
        WriteError,
    >)
        requires
            src.wf(),
            dst.wf(),
        ensures
            contents@.len() > MAX_MESSAGE_LEN ==> (r matches Err(e) && e is TooLong),
            contents@.len() <= MAX_MESSAGE_LEN ==> (r matches Ok(f) && {
                &&& f@ == spec_frame_bytes(src.spec_value(), dst.spec_value(), contents@)
                &&& contents@.len() + MIN_NAKED_LEN + 2 <= f@.len() <= MAX_FRAME_LEN
                &&& f@.last() == 0
                &&& forall|i: int| 0 <= i < f@.len() - 1 ==> f@[i] != 0
                &&& frame_outcome(f@.drop_last()) == (FrameOutcome::Valid {
                    src: src.spec_value(),
                    dst: dst.spec_value(),
                    contents: contents@,
                })
            }),
    {
        if contents.len() > MAX_MESSAGE_LEN {
            return Err(WriteError::TooLong);
        }
        let header = Header {
            address_src: src,
            address_dst: dst,
            len: contents.len() as u16,
        };
        let mut naked: Vec<u8> = Vec::new();
        naked.push(MAGIC_0);
        naked.push(MAGIC_1);
        let packed = header.pack();
        naked.extend_from_slice(packed.as_slice());
        naked.extend_from_slice(contents);
        proof {
            assert(naked@ =~= spec_frame_body(src.spec_value(), dst.spec_value(), contents@));
        }
        let crc = crc16(naked.as_slice());
        naked.push((crc / 256) as u8);
        naked.push((crc % 256) as u8);
        let ghost naked_spec = spec_naked_bytes(src.spec_value(), dst.spec_value(), contents@);
        proof {
            assert(naked@ =~= naked_spec);
        }
        let mut encoded = cobs_encode(naked.as_slice());
        assert(encoded@.len() < MAX_FRAME_LEN) by {
            assert(naked@.len() <= MAX_NAKED_LEN);
            assert(naked@.len() / 254 <= MAX_NAKED_LEN / 254) by (nonlinear_arith)
                requires
                    naked@.len() <= MAX_NAKED_LEN,
            ;
        }
        encoded.push(0);
        let frame = Frame(encoded);
        proof {
            let fb = spec_frame_bytes(src.spec_value(), dst.spec_value(), contents@);
            assert(frame@ =~= fb);
            assert(frame@.drop_last() =~= cobs_enc(naked_spec));
            lemma_header_pack_unpack(
                src.spec_value(),
                dst.spec_value(),
                contents@.len() as u16,
            );
            let d = cobs_dec(cobs_enc(naked_spec)).unwrap();
            assert(d == naked_spec);
            assert(d.subrange(0, d.len() - CHECKSUM_LEN) =~= spec_frame_body(
                src.spec_value(),
                dst.spec_value(),
                contents@,
            ));
            assert(d.subrange(2, 6) =~= spec_pack_header(
                src.spec_value(),
                dst.spec_value(),
                contents@.len() as u16,
            ));
            assert(d.subrange(6, d.len() - CHECKSUM_LEN) =~= contents@);
            let c = crc16_of(d.subrange(0, d.len() - CHECKSUM_LEN));
            assert(spec_be16((c / 256) as u8, (c % 256) as u8) == c) by (bit_vector);
        }
        Ok(frame)
    }
}

/// Law: every byte sequence whose verdict is a valid frame COBS-decodes to
/// bytes that begin with the magic word. In particular, every packaged frame,
/// decoded, begins with `0x6B 0x49`.
pub proof fn lemma_frame_begins_with_magic(data: Seq<u8>)
    requires
        frame_outcome(data) is Valid,
    ensures
        cobs_dec(data) matches Some(d) && d.len() >= 2 && d[0] == MAGIC_0 && d[1] == MAGIC_1,
{
}

/// Law: packaging any frame whose payload fits and feeding its bytes one by
/// one to a fresh reader yields `NotYet` for every byte except the sentinel,
/// and on the sentinel the very frame that was packaged.
pub fn writer_reader_round_trip(src: Address, dst: Address, contents: &[u8]) -> (r: FrameOwned)
    requires
        src.wf(),
        dst.wf(),
        contents@.len() <= MAX_MESSAGE_LEN,
    ensures
        r.wf(),
        r.header.address_src.spec_value() == src.spec_value(),
        r.header.address_dst.spec_value() == dst.spec_value(),
        r.header.len == contents@.len(),
        r.contents@ == contents@,
{
    let frame = match Writer::package(src, dst, contents) {
        Ok(f) => f,
        Err(_) => vstd::pervasive::unreached(),
    };
    let bytes = frame.as_slice();
    let n = bytes.len();
    let mut reader = Reader::new();
    let mut i: usize = 0;
    while i < n - 1
        invariant
            1 <= n <= MAX_FRAME_LEN,
            0 <= i <= n - 1,
            bytes@.len() == n,
            reader.wf(),
            reader.buffered() == bytes@.subrange(0, i as int),
            forall|j: int| 0 <= j < n - 1 ==> bytes@[j] != 0,
        decreases n - i,
    {
        let _ = reader.feed(bytes[i]);
        proof {
            assert(reader.buffered() =~= bytes@.subrange(0, i + 1));
        }
        i += 1;
    }
    proof {
        assert(reader.buffered() =~= bytes@.drop_last());
    }
    match reader.feed(bytes[n - 1]) {
        ReadResult::FrameOK(f) => f,
        _ => vstd::pervasive::unreached(),
    }
}

impl Default for Reader {
    /// A fresh reader, as `Reader::new` makes it.
    fn default() -> (r: Self)
        ensures
            r.buffered() == Seq::<u8>::empty(),
            r.wf(),
    {
        Reader::new()
    }
}

} // verus!
