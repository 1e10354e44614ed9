use std::cell::Cell;
use std::cell::RefCell;
use std::collections::VecDeque;
use std::rc::Rc;

use kiri::Address;
use kiri::Clock;
use kiri::Config;
use kiri::CsmaFrameInProgress;
use kiri::CsmaStrategy;
use kiri::DurationSampler;
use kiri::GreedyFrameInProgress;
use kiri::GreedyStrategy;
use kiri::Mailbox;
use kiri::Party;
use kiri::PollError;
use kiri::ReadError;
use kiri::ReadResult;
use kiri::Reader;
use kiri::SendReceiveResult;
use kiri::SerialBus;
use kiri::Transceiver;
use kiri::Writer;

/// A transceiver over a bus shared between stations; the harness advances the
/// bus, so interrupts are a no-op here.
struct SharedBusTransceiver {
    bus: Rc<RefCell<SerialBus>>,
}

impl Transceiver for SharedBusTransceiver {
    type Error = ();

    fn handle_interrupts(&mut self) {}

    fn bus_is_idle(&self) -> bool {
        self.bus.borrow().is_idle()
    }

    fn write(&mut self, byte: u8) -> Result<(), PollError<()>> {
        self.bus.borrow_mut().write(byte);
        Ok(())
    }

    fn read(&mut self) -> Result<u8, PollError<ReadError<()>>> {
        let bus = self.bus.borrow();
        match bus.read() {
            Some(b) => Ok(b),
            None => {
                if bus.is_error() {
                    Err(PollError::Other(ReadError::FrameError))
                } else {
                    Err(PollError::WouldBlock)
                }
            }
        }
    }
}

/// A clock shared between stations and the harness.
struct SharedClock(Rc<Cell<u64>>);

impl Clock for SharedClock {
    fn now(&self) -> u64 {
        self.0.get()
    }
}

/// A deterministic sampler: pops scripted durations, then repeats the last.
struct ScriptSampler {
    script: VecDeque<u64>,
    fallback: u64,
}

impl ScriptSampler {
    fn new(script: &[u64], fallback: u64) -> Self {
        Self {
            script: script.iter().copied().collect(),
            fallback,
        }
    }
}

impl DurationSampler for ScriptSampler {
    fn sample(&mut self, lo: u64, hi: u64) -> u64 {
        let v = self.script.pop_front().unwrap_or(self.fallback);
        if v < lo {
            lo
        } else if v >= hi {
            hi - 1
        } else {
            v
        }
    }
}

/// A fully scripted transceiver: reads pop a shared queue, writes land in a
/// shared log, the idle flag is shared too.
struct ScriptTransceiver {
    reads: Rc<RefCell<VecDeque<Result<u8, PollError<ReadError<()>>>>>>,
    writes: Rc<RefCell<Vec<u8>>>,
    idle: Rc<Cell<bool>>,
}

impl Transceiver for ScriptTransceiver {
    type Error = ();

    fn handle_interrupts(&mut self) {}

    fn bus_is_idle(&self) -> bool {
        self.idle.get()
    }

    fn write(&mut self, byte: u8) -> Result<(), PollError<()>> {
        self.writes.borrow_mut().push(byte);
        Ok(())
    }

    fn read(&mut self) -> Result<u8, PollError<ReadError<()>>> {
        self.reads
            .borrow_mut()
            .pop_front()
            .unwrap_or(Err(PollError::WouldBlock))
    }
}

type TestParty = Party<SharedBusTransceiver, SharedClock, ScriptSampler>;

fn make_party(
    addr: u16,
    bus: &Rc<RefCell<SerialBus>>,
    clock: &Rc<Cell<u64>>,
    script: &[u64],
    fallback: u64,
) -> TestParty {
    let strategy = CsmaStrategy::new(
        SharedBusTransceiver { bus: bus.clone() },
        SharedClock(clock.clone()),
        ScriptSampler::new(script, fallback),
        Config {
            min_idle: 1,
            max_idle: 32,
        },
    );
    Party::new(Address::new(addr).unwrap(), strategy)
}

fn run_simulation(parties: &mut [TestParty], mailbox: &mut Mailbox, bus: &Rc<RefCell<SerialBus>>,
                  clock: &Rc<Cell<u64>>, rounds: usize) {
    for _ in 0..rounds {
        bus.borrow_mut().iterate();
        for p in parties.iter_mut() {
            p.simulate(mailbox).expect("no fatal errors in simulation");
        }
        clock.set(clock.get() + 1);
    }
}

#[test]
fn csma_idle_then_send_two_stations() {
    let bus = Rc::new(RefCell::new(SerialBus::new()));
    let clock = Rc::new(Cell::new(0u64));
    let mut mailbox = Mailbox::new(1, 2);
    let mut parties = vec![
        make_party(0, &bus, &clock, &[3], 3),
        make_party(1, &bus, &clock, &[9], 9),
    ];

    run_simulation(&mut parties, &mut mailbox, &bus, &clock, 5000);

    assert!(mailbox.all_sent());
    let (sent, received) = mailbox.report();
    assert_eq!(sent, vec![1, 1]);
    assert_eq!(received, vec![1, 1]);
    assert_eq!(parties[0].stats().frame_errors, 0);
    assert_eq!(parties[1].stats().frame_errors, 0);
}

#[test]
fn csma_collision_is_detected_and_retried() {
    let bus = Rc::new(RefCell::new(SerialBus::new()));
    let clock = Rc::new(Cell::new(0u64));
    let mut mailbox = Mailbox::new(1, 2);
    // Both stations pick the same first cooldown, so their first bytes
    // collide; afterwards their backoffs diverge.
    let mut parties = vec![
        make_party(0, &bus, &clock, &[2, 4], 4),
        make_party(1, &bus, &clock, &[2, 13], 13),
    ];

    run_simulation(&mut parties, &mut mailbox, &bus, &clock, 20000);

    assert!(mailbox.all_sent());
    let (sent, received) = mailbox.report();
    assert_eq!(sent, vec![1, 1]);
    assert_eq!(received, vec![1, 1]);
    let errors = parties[0].stats().frame_errors + parties[1].stats().frame_errors;
    assert!(errors >= 1, "a collision must have been observed");
}

#[test]
fn csma_hardware_frame_error_resets_send() {
    let reads: Rc<RefCell<VecDeque<Result<u8, PollError<ReadError<()>>>>>> =
        Rc::new(RefCell::new(VecDeque::new()));
    let writes: Rc<RefCell<Vec<u8>>> = Rc::new(RefCell::new(Vec::new()));
    let idle = Rc::new(Cell::new(true));
    let clock = Rc::new(Cell::new(0u64));

    let transceiver = ScriptTransceiver {
        reads: reads.clone(),
        writes: writes.clone(),
        idle: idle.clone(),
    };
    let mut strategy = CsmaStrategy::new(
        transceiver,
        SharedClock(clock.clone()),
        ScriptSampler::new(&[1], 1),
        Config {
            min_idle: 1,
            max_idle: 32,
        },
    );

    let frame = Writer::package(
        Address::new(4).unwrap(),
        Address::new(5).unwrap(),
        b"payload",
    )
    .unwrap();
    let first_byte = frame.as_slice()[0];
    let mut in_progress = CsmaFrameInProgress::new(frame);

    // Reach the sending state: idle, cooldown over, start send.
    assert!(strategy.send_or_receive(&mut in_progress).is_err()); // samples cooldown
    clock.set(2);
    assert!(strategy.send_or_receive(&mut in_progress).is_err()); // cooldown over
    assert!(strategy.send_or_receive(&mut in_progress).is_err()); // takes the bus
    // Push a few bytes.
    for _ in 0..3 {
        assert!(strategy.send_or_receive(&mut in_progress).is_err());
    }
    assert_eq!(writes.borrow().len(), 3);
    assert_eq!(strategy.stats().frame_errors, 0);

    // The line reports a hardware frame error mid-send.
    reads.borrow_mut().push_back(Err(PollError::Other(ReadError::FrameError)));
    match strategy.send_or_receive(&mut in_progress) {
        Err(PollError::WouldBlock) => (),
        r => panic!("Expected WouldBlock after the line error, got {:?}", r.is_ok()),
    }
    assert_eq!(strategy.stats().frame_errors, 1);
    // Both frame cursors were reset: the next byte to push is the first one.
    assert_eq!(in_progress.peek_for_send(), Some(first_byte));

    // The machine starts over from waiting for the bus: after a cooldown it
    // retransmits from the first byte.
    clock.set(10);
    assert!(strategy.send_or_receive(&mut in_progress).is_err()); // samples cooldown
    clock.set(20);
    assert!(strategy.send_or_receive(&mut in_progress).is_err()); // cooldown over
    assert!(strategy.send_or_receive(&mut in_progress).is_err()); // takes the bus
    assert!(strategy.send_or_receive(&mut in_progress).is_err()); // first byte again
    assert_eq!(writes.borrow().len(), 4);
    assert_eq!(writes.borrow()[3], first_byte);
}

#[test]
fn csma_send_complete_on_full_loopback() {
    let reads: Rc<RefCell<VecDeque<Result<u8, PollError<ReadError<()>>>>>> =
        Rc::new(RefCell::new(VecDeque::new()));
    let writes: Rc<RefCell<Vec<u8>>> = Rc::new(RefCell::new(Vec::new()));
    let idle = Rc::new(Cell::new(true));
    let clock = Rc::new(Cell::new(0u64));

    let mut strategy = CsmaStrategy::new(
        ScriptTransceiver {
            reads: reads.clone(),
            writes: writes.clone(),
            idle: idle.clone(),
        },
        SharedClock(clock.clone()),
        ScriptSampler::new(&[1], 1),
        Config {
            min_idle: 1,
            max_idle: 32,
        },
    );

    let frame = Writer::package(Address::new(1).unwrap(), Address::new(2).unwrap(), b"x").unwrap();
    let total = frame.as_slice().len();
    let mut in_progress = CsmaFrameInProgress::new(frame);

    let mut complete = false;
    for _ in 0..10 * total + 50 {
        clock.set(clock.get() + 1);
        // Echo back everything written so far, one byte per poll.
        {
            let mut w = writes.borrow_mut();
            if !w.is_empty() {
                let b = w.remove(0);
                reads.borrow_mut().push_back(Ok(b));
            }
        }
        match strategy.send_or_receive(&mut in_progress) {
            Ok(SendReceiveResult::SendComplete) => {
                complete = true;
                break;
            }
            Ok(SendReceiveResult::Received(f)) => panic!("Unexpected frame {:?}", f.header),
            Err(PollError::WouldBlock) => (),
            Err(PollError::Other(())) => panic!("Unexpected fatal error"),
        }
    }
    assert!(complete, "the loopback must confirm the frame");
    assert_eq!(strategy.stats().frame_errors, 0);
}

#[test]
fn csma_receive_only_decodes_other_stations_frame() {
    let reads: Rc<RefCell<VecDeque<Result<u8, PollError<ReadError<()>>>>>> =
        Rc::new(RefCell::new(VecDeque::new()));
    let writes: Rc<RefCell<Vec<u8>>> = Rc::new(RefCell::new(Vec::new()));
    let idle = Rc::new(Cell::new(false));
    let clock = Rc::new(Cell::new(0u64));

    let mut strategy = CsmaStrategy::new(
        ScriptTransceiver {
            reads: reads.clone(),
            writes: writes.clone(),
            idle: idle.clone(),
        },
        SharedClock(clock.clone()),
        ScriptSampler::new(&[1], 1),
        Config {
            min_idle: 1,
            max_idle: 32,
        },
    );

    let frame = Writer::package(
        Address::new(9).unwrap(),
        Address::new(10).unwrap(),
        b"greetings",
    )
    .unwrap();
    for &b in frame.as_slice() {
        reads.borrow_mut().push_back(Ok(b));
    }

    let mut decoded = None;
    for _ in 0..frame.as_slice().len() + 5 {
        match strategy.receive() {
            Ok(f) => {
                decoded = Some(f);
                break;
            }
            Err(PollError::WouldBlock) => (),
            Err(PollError::Other(())) => panic!("Unexpected fatal error"),
        }
    }
    let f = decoded.expect("the frame must decode");
    assert_eq!(f.header.address_src.to_primitive(), 9);
    assert_eq!(f.header.address_dst.to_primitive(), 10);
    assert_eq!(f.contents, b"greetings");
    assert!(writes.borrow().is_empty());
}

#[test]
fn greedy_send_pushes_whole_frame() {
    let reads: Rc<RefCell<VecDeque<Result<u8, PollError<ReadError<()>>>>>> =
        Rc::new(RefCell::new(VecDeque::new()));
    let writes: Rc<RefCell<Vec<u8>>> = Rc::new(RefCell::new(Vec::new()));
    let idle = Rc::new(Cell::new(true));

    let mut strategy = GreedyStrategy::new(ScriptTransceiver {
        reads: reads.clone(),
        writes: writes.clone(),
        idle,
    });

    let frame = Writer::package(Address::new(3).unwrap(), Address::new(4).unwrap(), b"hi").unwrap();
    let expected: Vec<u8> = frame.as_slice().to_vec();
    let mut in_progress = GreedyFrameInProgress::new(frame);

    let mut done = false;
    for _ in 0..expected.len() + 2 {
        match strategy.send(&mut in_progress) {
            Ok(()) => {
                done = true;
                break;
            }
            Err(PollError::WouldBlock) => (),
            Err(PollError::Other(())) => panic!("Unexpected fatal error"),
        }
    }
    assert!(done);
    assert_eq!(*writes.borrow(), expected);
    // Once pushed, sending again is a no-op success.
    assert_eq!(strategy.send(&mut in_progress), Ok(()));
    assert_eq!(in_progress.first(), None);
}

#[test]
fn greedy_receive_decodes_frame() {
    let reads: Rc<RefCell<VecDeque<Result<u8, PollError<ReadError<()>>>>>> =
        Rc::new(RefCell::new(VecDeque::new()));
    let writes: Rc<RefCell<Vec<u8>>> = Rc::new(RefCell::new(Vec::new()));
    let idle = Rc::new(Cell::new(true));

    let mut strategy = GreedyStrategy::new(ScriptTransceiver {
        reads: reads.clone(),
        writes,
        idle,
    });

    let frame = Writer::package(Address::new(20).unwrap(), Address::new(21).unwrap(), b"ok")
        .unwrap();
    for &b in frame.as_slice() {
        reads.borrow_mut().push_back(Ok(b));
    }

    let mut decoded = None;
    for _ in 0..frame.as_slice().len() + 2 {
        match strategy.receive() {
            Ok(f) => {
                decoded = Some(f);
                break;
            }
            Err(PollError::WouldBlock) => (),
            Err(e) => panic!("Unexpected error {:?}", e),
        }
    }
    let f = decoded.expect("the frame must decode");
    assert_eq!(f.contents, b"ok");
}

#[test]
fn greedy_frame_in_progress_cursor() {
    let frame = Writer::package(Address::new(1).unwrap(), Address::new(2).unwrap(), b"z").unwrap();
    let first = frame.as_slice()[0];
    let second = frame.as_slice()[1];
    let mut in_progress = GreedyFrameInProgress::new(frame);
    assert_eq!(in_progress.first(), Some(first));
    in_progress.pop_first();
    assert_eq!(in_progress.first(), Some(second));
    in_progress.reset();
    assert_eq!(in_progress.first(), Some(first));
}

#[test]
fn csma_frame_in_progress_feed_as_check() {
    let frame = Writer::package(Address::new(1).unwrap(), Address::new(2).unwrap(), b"q").unwrap();
    let bytes: Vec<u8> = frame.as_slice().to_vec();
    let mut in_progress = CsmaFrameInProgress::new(frame);

    // A mismatching byte is rejected and nothing moves.
    let wrong = bytes[0].wrapping_add(1);
    assert_eq!(in_progress.feed_as_check(wrong), Err(()));

    // Feeding the frame's own bytes confirms it byte by byte.
    for (i, &b) in bytes.iter().enumerate() {
        let last = i + 1 == bytes.len();
        assert_eq!(in_progress.feed_as_check(b), Ok(last));
    }
    // Beyond the end every byte mismatches.
    assert_eq!(in_progress.feed_as_check(bytes[0]), Err(()));

    in_progress.reset();
    assert_eq!(in_progress.peek_for_send(), Some(bytes[0]));
}

#[test]
fn reader_usable_via_default() {
    let mut reader = Reader::default();
    assert_eq!(reader.feed(7), ReadResult::NotYet);
}
