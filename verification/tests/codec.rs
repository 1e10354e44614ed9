use kiri::Address;
use kiri::Header;
use kiri::MAX_FRAME_LEN;
use kiri::MAX_MESSAGE_LEN;
use kiri::ReadResult;
use kiri::Reader;
use kiri::WriteError;
use kiri::Writer;
use kiri::writer_reader_round_trip;

const COBS_MARKER: u8 = 0;

const MSG: &[u8] = b"\0loremipsum\0";
const ADDR_A: u16 = 13;
const ADDR_B: u16 = 169;

fn fill_frame(result: &mut [u8]) -> &mut [u8] {
    let frame = match Writer::package(
        Address::new(ADDR_A).unwrap(),
        Address::new(ADDR_B).unwrap(),
        MSG,
    ) {
        Ok(frame) => frame,
        e => panic!("Invalid result {:?}", e),
    };

    let result = &mut result[0..frame.as_slice().len()];
    result.copy_from_slice(frame.as_slice());
    result
}

#[test]
fn unchanged_header() {
    let header = Header {
        address_src: Address::new(13).unwrap(),
        address_dst: Address::new(1023).unwrap(),
        len: 800,
    };

    assert_eq!(vec![3, 127, 252, 128], header.pack());
    assert_eq!(Header::unpack(header.pack().as_slice()), header);
}

#[test]
fn writer_reader_ok() {
    let frame = &mut [0u8; 4096];
    let frame = fill_frame(frame);

    let (frame_last, frame_begin) = frame.split_last().unwrap();
    assert_eq!(*frame_last, COBS_MARKER);

    let mut reader = Reader::new();
    for b in frame_begin {
        let feed_result = reader.feed(*b);
        assert_eq!(feed_result, ReadResult::NotYet);
    }

    let frame = match reader.feed(*frame_last) {
        ReadResult::FrameOK(frame) => frame,
        e => panic!("Invalid result {:?}", e),
    };

    assert_eq!(frame.header.address_src, Address::new(ADDR_A).unwrap());
    assert_eq!(frame.header.address_dst, Address::new(ADDR_B).unwrap());
    assert_eq!(frame.contents, MSG);
}

#[test]
fn writer_reader_noise() {
    let frame = &mut [0u8; MAX_FRAME_LEN];
    let len = fill_frame(frame).len();

    for i in 0..(len - 1) {
        fill_frame(frame);

        // Add some noise
        let (x, _) = frame[i].overflowing_add(1);
        frame[i] = x;

        let (frame_last, frame_begin) = frame.split_last().unwrap();
        assert_eq!(*frame_last, COBS_MARKER);

        let mut reader = Reader::new();
        for (j, b) in frame_begin.iter().enumerate() {
            match reader.feed(*b) {
                ReadResult::NotYet => (),
                ReadResult::FrameOK(_) => {
                    panic!("Frame can not be OK midframe @ {} with error @ {}", j, i)
                }
                ReadResult::Overflow
                | ReadResult::FrameErrorCobs
                | ReadResult::FrameErrorMagic
                | ReadResult::FrameErrorHeader
                | ReadResult::FrameErrorSize
                | ReadResult::FrameErrorChecksum => continue, // Test OK
            }
        }

        match reader.feed(*frame_last) {
            ReadResult::FrameOK(_) => panic!("Frame can not be OK with error @ {}", i),
            _ => continue, // Test OK
        };
    }
}

#[test]
fn address_rejected_above_ten_bits() {
    assert_eq!(
        Address::new(1024),
        Err(kiri::AddressTooLargeError)
    );
    let a = Address::new(1023).unwrap();
    assert!(a.is_unicast());
    assert_eq!(a, Address::unicast());
    assert_eq!(a.to_primitive(), 1023);
    let b = Address::new(0).unwrap();
    assert!(!b.is_unicast());
    assert_eq!(b.to_primitive(), 0);
}

#[test]
fn package_rejects_too_long_payload() {
    let src = Address::new(1).unwrap();
    let dst = Address::new(2).unwrap();
    let payload = vec![0xAAu8; MAX_MESSAGE_LEN + 1];
    match Writer::package(src, dst, &payload) {
        Err(WriteError::TooLong) => (),
        r => panic!("Expected TooLong, got {:?}", r),
    }
}

#[test]
fn package_largest_payload_fits_bound() {
    let src = Address::new(5).unwrap();
    let dst = Address::new(6).unwrap();
    let payload = vec![0x55u8; MAX_MESSAGE_LEN];
    let frame = Writer::package(src, dst, &payload).unwrap();
    assert!(frame.as_slice().len() <= 1020);
    assert_eq!(frame.as_slice().last(), Some(&0u8));
}

#[test]
fn round_trip_empty_payload() {
    let src = Address::new(0).unwrap();
    let dst = Address::new(1023).unwrap();
    let owned = writer_reader_round_trip(src, dst, &[]);
    assert_eq!(owned.header.address_src.to_primitive(), 0);
    assert_eq!(owned.header.address_dst.to_primitive(), 1023);
    assert_eq!(owned.header.len, 0);
    assert!(owned.contents.is_empty());
}

#[test]
fn round_trip_largest_payload() {
    let src = Address::new(512).unwrap();
    let dst = Address::new(3).unwrap();
    let payload: Vec<u8> = (0..MAX_MESSAGE_LEN).map(|i| (i % 251) as u8).collect();
    let owned = writer_reader_round_trip(src, dst, &payload);
    assert_eq!(owned.header.len as usize, MAX_MESSAGE_LEN);
    assert_eq!(owned.contents, payload);
}

#[test]
fn reader_resyncs_on_sentinel() {
    let mut reader = Reader::new();
    // Garbage that is not a valid frame.
    for b in [0x17u8, 0x2A, 0x99] {
        assert_eq!(reader.feed(b), ReadResult::NotYet);
    }
    // The sentinel clears the reader, whatever the verdict.
    assert!(reader.feed(0).is_error());
    // A valid frame now decodes cleanly.
    let frame = Writer::package(
        Address::new(7).unwrap(),
        Address::new(8).unwrap(),
        b"hello",
    )
    .unwrap();
    let bytes = frame.as_slice();
    for &b in &bytes[..bytes.len() - 1] {
        assert_eq!(reader.feed(b), ReadResult::NotYet);
    }
    match reader.feed(0) {
        ReadResult::FrameOK(f) => {
            assert_eq!(f.contents, b"hello");
            assert_eq!(f.header.address_src.to_primitive(), 7);
            assert_eq!(f.header.address_dst.to_primitive(), 8);
        }
        e => panic!("Expected a frame, got {:?}", e),
    }
}

#[test]
fn reader_empty_sentinel_reports_size_error() {
    let mut reader = Reader::new();
    assert_eq!(reader.feed(0), ReadResult::FrameErrorSize);
    // Still usable afterwards.
    assert_eq!(reader.feed(1), ReadResult::NotYet);
}

#[test]
fn reader_checksum_error_then_recovers() {
    let frame = Writer::package(
        Address::new(1).unwrap(),
        Address::new(2).unwrap(),
        b"abcdef",
    )
    .unwrap();
    let mut bytes = frame.as_slice().to_vec();
    // Corrupt one payload byte without touching the sentinel, avoiding zero.
    let idx = bytes.len() - 4;
    bytes[idx] = if bytes[idx] == 1 { 2 } else { 1 };
    let mut reader = Reader::new();
    let mut last = ReadResult::NotYet;
    for &b in &bytes {
        last = reader.feed(b);
    }
    assert!(last.is_error());
    // The next valid frame feeds cleanly.
    let good = Writer::package(
        Address::new(1).unwrap(),
        Address::new(2).unwrap(),
        b"abcdef",
    )
    .unwrap();
    let good_bytes = good.as_slice();
    let mut result = ReadResult::NotYet;
    for &b in good_bytes {
        result = reader.feed(b);
    }
    match result {
        ReadResult::FrameOK(f) => assert_eq!(f.contents, b"abcdef"),
        e => panic!("Expected a frame, got {:?}", e),
    }
}

#[test]
fn reader_overflow_reported_when_full() {
    let mut reader = Reader::new();
    for _ in 0..MAX_FRAME_LEN {
        assert_eq!(reader.feed(0x42), ReadResult::NotYet);
    }
    // The buffer is full: another nonzero byte overflows and is dropped.
    assert_eq!(reader.feed(0x42), ReadResult::Overflow);
    // A sentinel still resynchronizes.
    assert!(reader.feed(0).is_error());
    assert_eq!(reader.feed(0x42), ReadResult::NotYet);
}

#[test]
fn read_result_is_error_variants() {
    assert!(!ReadResult::NotYet.is_error());
    assert!(ReadResult::Overflow.is_error());
    assert!(ReadResult::FrameErrorCobs.is_error());
    assert!(ReadResult::FrameErrorMagic.is_error());
    assert!(ReadResult::FrameErrorHeader.is_error());
    assert!(ReadResult::FrameErrorSize.is_error());
    assert!(ReadResult::FrameErrorChecksum.is_error());
}

#[test]
fn header_pack_unpack_various() {
    for (src, dst, len) in [(0u16, 0u16, 0u16), (1023, 1023, 1023), (13, 169, 12), (512, 256, 700)]
    {
        let header = Header {
            address_src: Address::new(src).unwrap(),
            address_dst: Address::new(dst).unwrap(),
            len,
        };
        let packed = header.pack();
        assert_eq!(packed.len(), 4);
        assert_eq!(Header::unpack(packed.as_slice()), header);
    }
}

#[test]
fn frame_ref_conversions() {
    let src = Address::new(11).unwrap();
    let dst = Address::new(12).unwrap();
    let owned = writer_reader_round_trip(src, dst, b"abc");
    let viewed = kiri::FrameRef::of_owned(&owned);
    assert_eq!(viewed.header, owned.header);
    assert_eq!(viewed.contents, b"abc");
    let copied = viewed.to_owned_frame();
    assert_eq!(copied.header, owned.header);
    assert_eq!(copied.contents, owned.contents);
}
