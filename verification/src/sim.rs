//! A simulated shared serial bus and the pieces a simulation needs around
//! it: a byte-level bus that OR-combines simultaneous writers, a transceiver
//! over it, a fake clock, and a mailbox that generates and accounts for the
//! messages the stations exchange.

use vstd::prelude::*;

use crate::codec::Address;
use crate::codec::Frame;
use crate::codec::FrameOwned;
use crate::codec::Writer;
use crate::codec::spec_frame_bytes;
use crate::csma::Clock;
use crate::csma::Config;
use crate::csma::CsmaFrameInProgress;
use crate::csma::CsmaStrategy;
use crate::csma::DurationSampler;
use crate::csma::PollError;
use crate::csma::ReadError;
use crate::csma::SendReceiveResult;
use crate::csma::Transceiver;

verus! {

/// One byte travelling on the bus, with a flag telling whether two stations
/// wrote it simultaneously.
#[derive(Debug, Clone, Copy, PartialEq, Eq, Structural)]
pub struct Fragment {
    pub contents: u8,
    pub error: bool,
}

/// The line state of the bus: the byte being delivered now, and the byte
/// being written for the next step.
#[derive(Debug, Clone, Copy, PartialEq, Eq, Structural)]
pub struct SerialBusState {
    current: Option<Fragment>,
    next: Option<Fragment>,
}

/// A simulated shared serial bus. Writes land in the `next` slot, OR-combined
/// with whatever another station wrote in the same step; `iterate` shifts
/// `next` into `current`, where every station reads it.
#[derive(Debug)]
pub struct SerialBus(SerialBusState);

impl SerialBus {
    /// The byte being delivered now, if any.
    pub closed spec fn spec_current(&self) -> Option<Fragment> {
        self.0.current
    }

    /// The byte being written for the next step, if any.
    pub closed spec fn spec_next(&self) -> Option<Fragment> {
        self.0.next
    }

    /// A quiet bus with nothing on the line.
    pub fn new() -> (r: Self)
        ensures
            r.spec_current() is None,
            r.spec_next() is None,
    {
        SerialBus(SerialBusState { current: None, next: None })
    }

    /// Write one byte for the next step. A byte already written by another
    /// station in the same step is OR-combined with this one and the
    /// collision is flagged.
    pub fn write(&mut self, byte: u8)
        ensures
            final(self).spec_current() == old(self).spec_current(),
            final(self).spec_next() == Some(
                match old(self).spec_next() {
                    Some(f) => Fragment { contents: (byte | f.contents) as u8, error: true },
                    None => Fragment { contents: byte, error: false },
                },
            ),
    {
        let fragment = match self.0.next {
            Some(old_fragment) => Fragment {
                contents: byte | old_fragment.contents,
                error: true,
            },
            None => Fragment { contents: byte, error: false },
        };
        self.0.next = Some(fragment);
    }

    /// Whether nothing is on the line now and nothing is queued.
    pub fn is_idle(&self) -> (r: bool)
        ensures
            r == (self.spec_current() is None && self.spec_next() is None),
    {
        match (&self.0.current, &self.0.next) {
            (None, None) => true,
            _ => false,
        }
    }

    /// Whether the byte being delivered now carries a collision.
    pub fn is_error(&self) -> (r: bool)
        ensures
            r == (self.spec_current() matches Some(f) && f.error),
    {
        match self.0.current {
            Some(fragment) => fragment.error,
            None => false,
        }
    }

    /// The byte being delivered now, unless it carries a collision.
    pub fn read(&self) -> (r: Option<u8>)
        ensures
            r == (match self.spec_current() {
                Some(f) => if f.error {
                    Option::<u8>::None
                } else {
                    Some(f.contents)
                },
                None => Option::<u8>::None,
            }),
    {
        match self.0.current {
            Some(current) => if !current.error {
                Some(current.contents)
            } else {
                None
            },
            None => None,
        }
    }

    /// Advance the bus one step: the queued byte is now delivered, and the
    /// queue is empty again.
    pub fn iterate(&mut self)
        ensures
            final(self).spec_current() == old(self).spec_next(),
            final(self).spec_next() is None,
    {
        self.0.current = self.0.next;
        self.0.next = None;
    }
}

/// A transceiver that owns its simulated bus, advancing it one step on every
/// `handle_interrupts`, so a lone station hears its own loopback.
#[derive(Debug)]
pub struct SerialTransceiver {
    bus: SerialBus,
}

impl SerialTransceiver {
    /// The bus this transceiver drives.
    pub closed spec fn spec_bus(&self) -> &SerialBus {
        &self.bus
    }

    /// A transceiver over the given bus.
    pub fn new(bus: SerialBus) -> (r: Self)
        ensures
            r.spec_bus() == bus,
    {
        Self { bus }
    }
}

impl Transceiver for SerialTransceiver {
    type Error = ();

    fn handle_interrupts(&mut self) {
        self.bus.iterate();
    }

    fn bus_is_idle(&self) -> bool {
        self.bus.is_idle()
    }

    fn write(&mut self, byte: u8) -> Result<(), PollError<Self::Error>> {
        self.bus.write(byte);
        Ok(())
    }

    fn read(&mut self) -> Result<u8, PollError<ReadError<Self::Error>>> {
        match self.bus.read() {
            Some(b) => Ok(b),
            None => if self.bus.is_error() {
                Err(PollError::Other(ReadError::FrameError))
            } else {
                Err(PollError::WouldBlock)
            },
        }
    }
}

/// An instant of the fake clock, in ticks.
#[derive(Debug, Clone, Copy, PartialEq, Eq, Structural)]
pub struct FakeInstant(pub u64);

impl FakeInstant {
    /// The instant a duration later.
    pub fn plus(self, rhs: FakeDuration) -> (r: FakeInstant)
        requires
            self.0 + rhs.0 <= u64::MAX,
        ensures
            r.0 == self.0 + rhs.0,
    {
        FakeInstant(self.0 + rhs.0)
    }
}

/// A duration of the fake clock, in ticks.
#[derive(Debug, Clone, Copy, PartialEq, Eq, Structural)]
pub struct FakeDuration(pub u64);

/// A clock a simulation advances by hand.
#[derive(Debug)]
pub struct FakeClock {
    now: u64,
}

impl FakeClock {
    /// The current instant, in ticks.
    pub closed spec fn spec_now(&self) -> u64 {
        self.now
    }

    /// A clock at instant zero.
    pub fn new() -> (r: Self)
        ensures
            r.spec_now() == 0,
    {
        Self { now: 0 }
    }

    /// Advance the clock by the given number of ticks.
    pub fn increase(&mut self, duration: u64)
        requires
            old(self).spec_now() + duration <= u64::MAX,
        ensures
            final(self).spec_now() == old(self).spec_now() + duration,
    {
        self.now = self.now + duration;
    }

    /// The current instant as a value.
    pub fn now_instant(&self) -> (r: FakeInstant)
        ensures
            r.0 == self.spec_now(),
    {
        FakeInstant(self.now)
    }
}

impl Clock for FakeClock {
    fn now(&self) -> u64 {
        self.now
    }
}

/// The fixed-width wire form of a simulation message: source and destination
/// big-endian in two bytes each, then the identifier big-endian in eight.
pub open spec fn spec_message_bytes(src: u16, dst: u16, id: u64) -> Seq<u8> {
    seq![
        (src >> 8) as u8,
        src as u8,
        (dst >> 8) as u8,
        dst as u8,
        (id >> 56) as u8,
        (id >> 48) as u8,
        (id >> 40) as u8,
        (id >> 32) as u8,
        (id >> 24) as u8,
        (id >> 16) as u8,
        (id >> 8) as u8,
        id as u8,
    ]
}

/// How many bytes a message takes on the wire.
pub const MESSAGE_BYTES_LEN: usize = 12;

/// The source address read back out of a message's wire form.
pub open spec fn spec_parsed_src(b: Seq<u8>) -> u16
    recommends
        b.len() == MESSAGE_BYTES_LEN,
{
    ((b[0] as u16) << 8 | (b[1] as u16)) as u16
}

/// The destination address read back out of a message's wire form.
pub open spec fn spec_parsed_dst(b: Seq<u8>) -> u16
    recommends
        b.len() == MESSAGE_BYTES_LEN,
{
    ((b[2] as u16) << 8 | (b[3] as u16)) as u16
}

/// The identifier read back out of a message's wire form.
pub open spec fn spec_parsed_id(b: Seq<u8>) -> u64
    recommends
        b.len() == MESSAGE_BYTES_LEN,
{
    (b[4] as u64) << 56 | (b[5] as u64) << 48 | (b[6] as u64) << 40 | (b[7] as u64) << 32 | (
    b[8] as u64) << 24 | (b[9] as u64) << 16 | (b[10] as u64) << 8 | (b[11] as u64)
}

/// Law: parsing a message's wire form gives back the fields it was built
/// from.
pub proof fn lemma_message_round_trip(src: u16, dst: u16, id: u64)
    ensures
        spec_parsed_src(spec_message_bytes(src, dst, id)) == src,
        spec_parsed_dst(spec_message_bytes(src, dst, id)) == dst,
        spec_parsed_id(spec_message_bytes(src, dst, id)) == id,
{
    assert((((src >> 8) as u8 as u16) << 8 | (src as u8 as u16)) == src) by (bit_vector);
    assert((((dst >> 8) as u8 as u16) << 8 | (dst as u8 as u16)) == dst) by (bit_vector);
    assert(((id >> 56) as u8 as u64) << 56 | ((id >> 48) as u8 as u64) << 48 | ((id >> 40) as u8
        as u64) << 40 | ((id >> 32) as u8 as u64) << 32 | ((id >> 24) as u8 as u64) << 24 | ((id
        >> 16) as u8 as u64) << 16 | ((id >> 8) as u8 as u64) << 8 | (id as u8 as u64) == id)
        by (bit_vector);
}

/// One message a station sends to another during the simulation.
#[derive(Debug, Clone, Copy, PartialEq, Eq, Structural)]
pub struct Message {
    pub src: u16,
    pub dst: u16,
    pub identifier: usize,
}

impl Message {
    /// Serialize the message into its fixed-width wire form.
    pub fn to_bytes(&self) -> (r: Vec<u8>)
        ensures
            r@ == spec_message_bytes(self.src, self.dst, self.identifier as u64),
            r@.len() == MESSAGE_BYTES_LEN,
    {
        let id = self.identifier as u64;
        let mut r: Vec<u8> = Vec::new();
        r.push((self.src >> 8) as u8);
        r.push(self.src as u8);
        r.push((self.dst >> 8) as u8);
        r.push(self.dst as u8);
        r.push((id >> 56) as u8);
        r.push((id >> 48) as u8);
        r.push((id >> 40) as u8);
        r.push((id >> 32) as u8);
        r.push((id >> 24) as u8);
        r.push((id >> 16) as u8);
        r.push((id >> 8) as u8);
        r.push(id as u8);
        proof {
            assert(r@ =~= spec_message_bytes(self.src, self.dst, self.identifier as u64));
        }
        r
    }

    /// Parse a message back out of its wire form. Succeeds exactly when the
    /// length is right and the identifier fits the machine's word.
    pub fn from_bytes(buf: &[u8]) -> (r: Result<Self, ()>)
        ensures
            (buf@.len() == MESSAGE_BYTES_LEN && spec_parsed_id(buf@) <= usize::MAX) <==> r is Ok,
            r matches Ok(m) ==> {
                &&& m.src == spec_parsed_src(buf@)
                &&& m.dst == spec_parsed_dst(buf@)
                &&& m.identifier == spec_parsed_id(buf@)
            },
    {
        if buf.len() != MESSAGE_BYTES_LEN {
            return Err(());
        }
        let src = (buf[0] as u16) << 8 | (buf[1] as u16);
        let dst = (buf[2] as u16) << 8 | (buf[3] as u16);
        let id = (buf[4] as u64) << 56 | (buf[5] as u64) << 48 | (buf[6] as u64) << 40 | (
        buf[7] as u64) << 32 | (buf[8] as u64) << 24 | (buf[9] as u64) << 16 | (buf[10] as u64)
            << 8 | (buf[11] as u64);
        if id <= usize::MAX as u64 {
            Ok(Message { src, dst, identifier: id as usize })
        } else {
            Err(())
        }
    }
}

/// How many of the flags in a sequence are set.
pub open spec fn count_true(s: Seq<bool>) -> int
    decreases s.len(),
{
    if s.len() == 0 {
        0
    } else {
        count_true(s.drop_last()) + if s.last() {
            1int
        } else {
            0int
        }
    }
}

/// How many of the flags in a vector are set.
fn count_true_vec(v: &Vec<bool>) -> (r: usize)
    ensures
        r == count_true(v@),
{
    let mut c: usize = 0;
    let mut i: usize = 0;
    while i < v.len()
        invariant
            0 <= i <= v@.len(),
            c == count_true(v@.take(i as int)),
            c <= i,
        decreases v@.len() - i,
    {
        proof {
            assert(v@.take(i + 1).drop_last() =~= v@.take(i as int));
        }
        if v[i] {
            c = c + 1;
        }
        i = i + 1;
    }
    proof {
        assert(v@.take(v@.len() as int) =~= v@);
    }
    c
}

/// The destination a station picks for its next message: the message number
/// modulo the other parties, skipping the station itself.
pub open spec fn spec_fetch_dst(addr: int, progress: int, parties: int) -> int
    recommends
        parties >= 2,
{
    let d = progress % (parties - 1);
    if d >= addr {
        d + 1
    } else {
        d
    }
}

/// Generates the messages each station sends and accounts for the messages
/// each station receives.
#[derive(Debug)]
pub struct Mailbox {
    messages_per_party: usize,
    send_progress: Vec<usize>,
    receive_progress: Vec<Vec<bool>>,
}

impl Mailbox {
    /// How many messages every party is to send.
    pub closed spec fn spec_messages_per_party(&self) -> int {
        self.messages_per_party as int
    }

    /// How many messages each party has fetched for sending so far.
    pub closed spec fn spec_send_progress(&self) -> Seq<usize> {
        self.send_progress@
    }

    /// Which of a sender's messages have been delivered.
    pub closed spec fn spec_received(&self, i: int) -> Seq<bool>
        recommends
            0 <= i < self.spec_parties(),
    {
        self.receive_progress@[i]@
    }

    /// How many parties take part.
    pub closed spec fn spec_parties(&self) -> int {
        self.send_progress@.len() as int
    }

    /// Progress stays within bounds, and every party has one delivery flag
    /// per message. The party count fits the 10-bit address space.
    pub closed spec fn wf(&self) -> bool {
        &&& self.receive_progress@.len() == self.spec_parties()
        &&& self.spec_parties() <= 1024
        &&& forall|i: int|
            0 <= i < self.spec_parties() ==> self.spec_send_progress()[i]
                <= self.spec_messages_per_party()
        &&& forall|i: int|
            0 <= i < self.spec_parties() ==> self.spec_received(i).len()
                == self.spec_messages_per_party()
    }

    /// A mailbox for the given number of parties, with nothing sent and
    /// nothing received yet.
    pub fn new(messages_per_party: usize, parties: usize) -> (r: Self)
        requires
            parties <= 1024,
        ensures
            r.wf(),
            r.spec_messages_per_party() == messages_per_party,
            r.spec_parties() == parties,
            forall|i: int| 0 <= i < parties ==> r.spec_send_progress()[i] == 0,
            forall|i: int, j: int|
                0 <= i < parties && 0 <= j < messages_per_party ==> !r.spec_received(i)[j],
    {
        let send_progress: Vec<usize> = vec![0usize; parties];
        let mut receive_progress: Vec<Vec<bool>> = Vec::new();
        let mut i: usize = 0;
        while i < parties
            invariant
                0 <= i <= parties,
                receive_progress@.len() == i,
                forall|k: int|
                    0 <= k < i ==> #[trigger] receive_progress@[k]@ =~= Seq::new(
                        messages_per_party as nat,
                        |j: int| false,
                    ),
            decreases parties - i,
        {
            let row: Vec<bool> = vec![false; messages_per_party];
            proof {
                assert(row@ =~= Seq::new(messages_per_party as nat, |j: int| false));
            }
            receive_progress.push(row);
            i = i + 1;
        }
        Mailbox { messages_per_party, send_progress, receive_progress }
    }

    /// Fetch the next message for the given station to send, already packaged
    /// into a frame, or nothing once the station has sent its share. The
    /// frame carries the station's next message to the station
    /// `spec_fetch_dst` picks, and the send progress advances by one.
    pub fn fetch(&mut self, src: Address) -> (r: Option<Frame>)
        requires
            old(self).wf(),
            old(self).spec_parties() >= 2,
            src.wf(),
            src.spec_value() < old(self).spec_parties(),
        ensures
            final(self).wf(),
            final(self).spec_messages_per_party() == old(self).spec_messages_per_party(),
            final(self).spec_parties() == old(self).spec_parties(),
            forall|i: int|
                0 <= i < old(self).spec_parties() ==> final(self).spec_received(i) == old(
                    self,
                ).spec_received(i),
            ({
                let addr = src.spec_value() as int;
                let progress = old(self).spec_send_progress()[addr] as int;
                let dst = spec_fetch_dst(addr, progress, old(self).spec_parties());
                if progress < old(self).spec_messages_per_party() {
                    &&& r matches Some(f) && f@ == spec_frame_bytes(
                        src.spec_value(),
                        dst as u16,
                        spec_message_bytes(src.spec_value(), dst as u16, progress as u64),
                    )
                    &&& final(self).spec_send_progress() == old(self).spec_send_progress().update(
                        addr,
                        (progress + 1) as usize,
                    )
                } else {
                    &&& r is None
                    &&& final(self).spec_send_progress() == old(self).spec_send_progress()
                }
            }),
    {
        let addr = src.to_primitive() as usize;
        let parties = self.send_progress.len();
        let progress = self.send_progress[addr];

        if progress < self.messages_per_party {
            let mut dst = progress % (parties - 1);
            if dst >= addr {
                dst = dst + 1;
            }
            let dst_addr = match Address::new(dst as u16) {
                Ok(a) => a,
                Err(_) => vstd::pervasive::unreached(),
            };
            let message = Message {
                src: src.to_primitive(),
                dst: dst_addr.to_primitive(),
                identifier: progress,
            };
            let bytes = message.to_bytes();
            let frame = match Writer::package(src, dst_addr, bytes.as_slice()) {
                Ok(frame) => frame,
                Err(_) => vstd::pervasive::unreached(),
            };
            let row = self.send_progress.remove(addr);
            self.send_progress.insert(addr, row + 1);
            proof {
                assert(self.send_progress@ =~= old(self).spec_send_progress().update(
                    addr as int,
                    (progress + 1) as usize,
                ));
                assert forall|i: int|
                    0 <= i < self.spec_parties() implies self.spec_send_progress()[i]
                    <= self.spec_messages_per_party() by {
                    assert(old(self).spec_send_progress()[i] <= old(
                        self,
                    ).spec_messages_per_party());
                }
                assert forall|i: int|
                    0 <= i < self.spec_parties() implies self.spec_received(i).len()
                    == self.spec_messages_per_party() by {
                    assert(old(self).spec_received(i).len() == old(
                        self,
                    ).spec_messages_per_party());
                }
            }
            Some(frame)
        } else {
            None
        }
    }

    /// Whether this frame carries a message the mailbox can account for: a
    /// well-formed message whose addresses agree with the frame header and
    /// whose sender and identifier are in range.
    pub open spec fn spec_deliverable(&self, frame: FrameOwned) -> bool {
        let b = frame.contents@;
        &&& b.len() == MESSAGE_BYTES_LEN
        &&& spec_parsed_id(b) <= usize::MAX
        &&& spec_parsed_src(b) == frame.header.address_src.spec_value()
        &&& spec_parsed_dst(b) == frame.header.address_dst.spec_value()
        &&& spec_parsed_src(b) < self.spec_parties()
        &&& spec_parsed_id(b) < self.spec_messages_per_party()
    }

    /// Try to deliver the message contained in a frame. Succeeds exactly when
    /// the frame is deliverable; the message is then marked received for its
    /// sender.
    pub fn deliver(&mut self, frame: &FrameOwned) -> (r: bool)
        requires
            old(self).wf(),
        ensures
            final(self).wf(),
            r == old(self).spec_deliverable(*frame),
            final(self).spec_messages_per_party() == old(self).spec_messages_per_party(),
            final(self).spec_parties() == old(self).spec_parties(),
            final(self).spec_send_progress() == old(self).spec_send_progress(),
            !r ==> forall|i: int|
                0 <= i < old(self).spec_parties() ==> final(self).spec_received(i) == old(
                    self,
                ).spec_received(i),
            r ==> ({
                let b = frame.contents@;
                let s = spec_parsed_src(b) as int;
                let id = spec_parsed_id(b) as int;
                &&& final(self).spec_received(s) == old(self).spec_received(s).update(id, true)
                &&& forall|i: int|
                    0 <= i < old(self).spec_parties() && i != s ==> final(self).spec_received(i)
                        == old(self).spec_received(i)
            }),
    {
        let message = match Message::from_bytes(frame.contents.as_slice()) {
            Ok(m) => m,
            Err(()) => {
                return false;
            },
        };
        if message.src != frame.header.address_src.to_primitive() || message.dst
            != frame.header.address_dst.to_primitive() {
            return false;
        }
        let s = message.src as usize;
        if !(s < self.receive_progress.len() && message.identifier < self.messages_per_party) {
            return false;
        }
        proof {
            assert(old(self).spec_received(s as int).len() == old(
                self,
            ).spec_messages_per_party());
        }
        let mut row = self.receive_progress.remove(s);
        proof {
            assert(row@ == old(self).spec_received(s as int));
        }
        row.remove(message.identifier);
        row.insert(message.identifier, true);
        proof {
            assert(row@ =~= old(self).spec_received(s as int).update(
                message.identifier as int,
                true,
            ));
        }
        self.receive_progress.insert(s, row);
        proof {
            assert forall|i: int|
                0 <= i < old(self).spec_parties() && i != s implies self.spec_received(i) == old(
                self,
            ).spec_received(i) by {
                assert(self.receive_progress@[i] == old(self).receive_progress@[i]);
            }
            assert(self.spec_received(s as int) =~= old(self).spec_received(s as int).update(
                message.identifier as int,
                true,
            ));
            assert forall|i: int|
                0 <= i < self.spec_parties() implies self.spec_received(i).len()
                == self.spec_messages_per_party() by {
                if i != s as int {
                    assert(old(self).spec_received(i).len() == old(
                        self,
                    ).spec_messages_per_party());
                }
            }
            assert forall|i: int|
                0 <= i < self.spec_parties() implies self.spec_send_progress()[i]
                <= self.spec_messages_per_party() by {
                assert(old(self).spec_send_progress()[i] <= old(self).spec_messages_per_party());
            }
        }
        true
    }

    /// The current progress: how many messages each party has fetched for
    /// sending, and how many of each party's messages have been delivered.
    pub fn report(&self) -> (r: (Vec<usize>, Vec<usize>))
        requires
            self.wf(),
        ensures
            r.0@ == self.spec_send_progress(),
            r.1@.len() == self.spec_parties(),
            forall|i: int|
                0 <= i < self.spec_parties() ==> r.1@[i] == count_true(self.spec_received(i)),
    {
        let parties = self.send_progress.len();
        let mut sent: Vec<usize> = Vec::new();
        let mut received: Vec<usize> = Vec::new();
        let mut i: usize = 0;
        while i < parties
            invariant
                self.wf(),
                parties == self.spec_parties(),
                0 <= i <= parties,
                sent@ =~= self.spec_send_progress().take(i as int),
                received@.len() == i,
                forall|k: int| 0 <= k < i ==> received@[k] == count_true(self.spec_received(k)),
            decreases parties - i,
        {
            sent.push(self.send_progress[i]);
            let c = count_true_vec(&self.receive_progress[i]);
            proof {
                assert(count_true(self.receive_progress@[i as int]@) <= self.spec_received(
                    i as int,
                ).len()) by {
                    lemma_count_true_bound(self.spec_received(i as int));
                }
            }
            received.push(c);
            proof {
                assert(sent@ =~= self.spec_send_progress().take(i + 1));
            }
            i = i + 1;
        }
        proof {
            assert(sent@ =~= self.spec_send_progress());
        }
        (sent, received)
    }

    /// Whether every party has fetched all of its messages for sending.
    pub fn all_sent(&self) -> (r: bool)
        requires
            self.wf(),
        ensures
            r == forall|i: int|
                0 <= i < self.spec_parties() ==> self.spec_send_progress()[i]
                    == self.spec_messages_per_party(),
    {
        let parties = self.send_progress.len();
        let mut i: usize = 0;
        while i < parties
            invariant
                parties == self.spec_parties(),
                0 <= i <= parties,
                forall|k: int|
                    0 <= k < i ==> self.spec_send_progress()[k] == self.spec_messages_per_party(),
        decreases parties - i,
    {
        if self.send_progress[i] != self.messages_per_party {
                proof {
                    assert(self.spec_send_progress()[i as int] != self.spec_messages_per_party());
                }
                return false;
            }
            i = i + 1;
        }
        true
    }
}

/// Every sequence of flags has at most as many set flags as elements.
pub proof fn lemma_count_true_bound(s: Seq<bool>)
    ensures
        0 <= count_true(s) <= s.len(),
    decreases s.len(),
{
    if s.len() > 0 {
        lemma_count_true_bound(s.drop_last());
    }
}

/// Why one simulation step of a party failed.
#[derive(Debug, PartialEq)]
pub enum SimError<E> {
    /// The transceiver reported an unrecoverable error.
    Underlying(E),
    /// A received frame addressed to this party did not carry a consistent
    /// message.
    DeliveryMismatch,
}

/// The backoff configuration the simulated bus runs with.
#[derive(Debug, Clone, Copy, PartialEq, Eq, Structural)]
pub struct BusConf;

impl BusConf {
    /// The backoff bounds of the simulated bus.
    pub fn config() -> (r: Config)
        ensures
            r.min_idle == 1,
            r.max_idle == 32,
            r.wf(),
    {
        Config { min_idle: 1, max_idle: 32 }
    }
}

/// How one poll of the station at `addr` may change the mailbox: only that
/// station's send progress advances, by at most one message, and flags of
/// delivered messages only grow.
pub open spec fn mailbox_poll_evolution(pre: Mailbox, post: Mailbox, addr: int) -> bool {
    &&& forall|i: int|
        0 <= i < pre.spec_parties() && i != addr ==> post.spec_send_progress()[i]
            == pre.spec_send_progress()[i]
    &&& pre.spec_send_progress()[addr] <= post.spec_send_progress()[addr]
        <= pre.spec_send_progress()[addr] + 1
    &&& forall|i: int, j: int|
        0 <= i < pre.spec_parties() && 0 <= j < pre.spec_messages_per_party()
            && pre.spec_received(i)[j] ==> post.spec_received(i)[j]
}

/// One simulated station: an address, a CSMA strategy, and the frame it is
/// currently trying to send, if any.
pub struct Party<T: Transceiver, C: Clock, R: DurationSampler> {
    address: Address,
    strategy: CsmaStrategy<T, C, R>,
    current_frame: Option<CsmaFrameInProgress>,
}

impl<T: Transceiver, C: Clock, R: DurationSampler> Party<T, C, R> {
    /// This station's address.
    pub closed spec fn spec_address(&self) -> Address {
        self.address
    }

    /// This station's frame-error count.
    pub closed spec fn spec_stats(&self) -> u64 {
        self.strategy.spec_stats()
    }

    /// The strategy is well formed, the address valid, and any frame in
    /// flight within bounds.
    pub closed spec fn wf(&self) -> bool {
        &&& self.strategy.wf()
        &&& self.address.wf()
        &&& (self.current_frame matches Some(f) ==> f.wf())
    }

    /// A station at the given address, with nothing to send yet.
    pub fn new(address: Address, strategy: CsmaStrategy<T, C, R>) -> (r: Self)
        requires
            address.wf(),
            strategy.wf(),
        ensures
            r.wf(),
            r.spec_address() == address,
            r.spec_stats() == strategy.spec_stats(),
    {
        Self { address, strategy, current_frame: None }
    }

    /// This station's diagnostic counters.
    pub fn stats(&self) -> (r: &crate::csma::Stats)
        ensures
            r.frame_errors == self.spec_stats(),
    {
        self.strategy.stats()
    }

    /// Run one poll of this station: fetch a message if none is in flight,
    /// then either try to send it while staying open to receive, or only
    /// receive. A frame addressed to this station is delivered to the
    /// mailbox; an inconsistent one is reported.
    pub fn simulate(&mut self, mailbox: &mut Mailbox) -> (r: Result<(), SimError<T::Error>>)
        requires
            old(self).wf(),
            old(mailbox).wf(),
            old(mailbox).spec_parties() >= 2,
            old(self).spec_address().spec_value() < old(mailbox).spec_parties(),
            old(self).spec_stats() < u64::MAX,
        ensures
            final(self).wf(),
            final(mailbox).wf(),
            final(mailbox).spec_parties() == old(mailbox).spec_parties(),
            final(mailbox).spec_messages_per_party() == old(mailbox).spec_messages_per_party(),
            final(self).spec_address() == old(self).spec_address(),
            old(self).spec_stats() <= final(self).spec_stats() <= old(self).spec_stats() + 1,
            mailbox_poll_evolution(
                *old(mailbox),
                *final(mailbox),
                old(self).spec_address().spec_value() as int,
            ),
    {
        if self.current_frame.is_none() {
            self.current_frame = match mailbox.fetch(self.address) {
                Some(frame) => Some(CsmaFrameInProgress::new(frame)),
                None => None,
            };
        }
        match &mut self.current_frame {
            Some(frame) => {
                match self.strategy.send_or_receive(frame) {
                    Ok(SendReceiveResult::Received(incoming)) => {
                        if incoming.header.address_dst == self.address {
                            if !mailbox.deliver(&incoming) {
                                return Err(SimError::DeliveryMismatch);
                            }
                        }
                        Ok(())
                    },
                    Ok(SendReceiveResult::SendComplete) => {
                        self.current_frame = None;
                        Ok(())
                    },
                    Err(PollError::WouldBlock) => Ok(()),
                    Err(PollError::Other(e)) => Err(SimError::Underlying(e)),
                }
            },
            None => {
                match self.strategy.receive() {
                    Ok(incoming) => {
                        if incoming.header.address_dst == self.address {
                            if !mailbox.deliver(&incoming) {
                                return Err(SimError::DeliveryMismatch);
                            }
                        }
                        Ok(())
                    },
                    Err(PollError::WouldBlock) => Ok(()),
                    Err(PollError::Other(e)) => Err(SimError::Underlying(e)),
                }
            },
        }
    }
}

} // verus!
