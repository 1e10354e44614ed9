//! Bus access strategies: a greedy sender that pushes bytes without
//! arbitration, and the CSMA state machine that waits for an idle bus, backs
//! off for a random cooldown, transmits while watching the loopback, and
//! retries on collision.

use vstd::prelude::*;

use crate::codec::Frame;
use crate::codec::FrameOwned;
use crate::codec::ReadResult;
use crate::codec::Reader;
use crate::codec::frame_outcome;
use crate::codec::result_matches_outcome;

verus! {

/// A read-side error of the transceiver.
#[derive(Debug, PartialEq)]
pub enum ReadError<E> {
    /// An unrecoverable underlying error.
    UnderlyingError(E),
    /// A broken frame was received: framing, parity or timing faults at the
    /// line level. The CSMA strategy treats this as a recoverable collision.
    FrameError,
}

impl<E> From<E> for ReadError<E> {
    /// Wrap an underlying transceiver error.
    fn from(e: E) -> (r: Self) {
        ReadError::UnderlyingError(e)
    }
}

impl<E> vstd::std_specs::convert::FromSpecImpl<E> for ReadError<E> {
    open spec fn obeys_from_spec() -> bool {
        true
    }

    open spec fn from_spec(e: E) -> Self {
        ReadError::UnderlyingError(e)
    }
}

/// Why a non-blocking operation did not return a value: either it should be
/// retried later, or the underlying layer failed.
#[derive(Debug, PartialEq)]
pub enum PollError<E> {
    /// No progress was possible right now; poll again.
    WouldBlock,
    /// The underlying layer failed.
    Other(E),
}

/// Byte-at-a-time access to the shared half-duplex bus, provided by the
/// environment. The bus is assumed to loop every written byte back through
/// `read`, OR-combined with other simultaneous writers.
pub trait Transceiver {
    type Error;

    /// Give the driver a chance to clear interrupt flags at the start of each
    /// poll.
    fn handle_interrupts(&mut self);

    /// Whether no carrier is currently observed on the bus.
    fn bus_is_idle(&self) -> bool;

    /// Write one byte on the bus.
    fn write(&mut self, byte: u8) -> Result<(), PollError<Self::Error>>;

    /// Read one byte from the bus, if one is available.
    fn read(&mut self) -> Result<u8, PollError<ReadError<Self::Error>>>;
}

/// A monotonic clock, provided by the environment. Instants are ticks.
pub trait Clock {
    /// The current instant.
    fn now(&self) -> u64;
}

/// A uniform source of random durations, provided by the environment.
pub trait DurationSampler {
    /// A duration sampled from the half-open range `lo..hi`, in ticks.
    fn sample(&mut self, lo: u64, hi: u64) -> (r: u64)
        requires
            lo < hi,
        ensures
            lo <= r < hi,
    ;
}

#[verifier::external_type_specification]
#[verifier::external_body]
pub struct ExThreadRng(rand::rngs::ThreadRng);

/// Relies on `rand::thread_rng`: a handle to the thread-local generator.
#[verifier::external_body]
fn fresh_thread_rng() -> rand::rngs::ThreadRng {
    rand::thread_rng()
}

/// Relies on `rand::Rng::gen_range`: the sample lies in the given half-open
/// range, which must not be empty.
#[verifier::external_body]
fn gen_range_u64(rng: &mut rand::rngs::ThreadRng, lo: u64, hi: u64) -> (r: u64)
    requires
        lo < hi,
    ensures
        lo <= r < hi,
{
    rand::Rng::gen_range(rng, lo..hi)
}

/// A duration sampler backed by the thread-local random generator.
pub struct ThreadRngSampler {
    rng: rand::rngs::ThreadRng,
}

impl ThreadRngSampler {
    /// A sampler over the thread-local generator.
    pub fn new() -> ThreadRngSampler {
        ThreadRngSampler { rng: fresh_thread_rng() }
    }
}

impl DurationSampler for ThreadRngSampler {
    fn sample(&mut self, lo: u64, hi: u64) -> (r: u64) {
        gen_range_u64(&mut self.rng, lo, hi)
    }
}

/// Configuration of the backoff distribution: the inclusive lower and
/// exclusive upper bound of the random idle cooldown, in ticks.
#[derive(Debug, PartialEq, Eq, Structural, Clone, Copy)]
pub struct Config {
    pub min_idle: u64,
    pub max_idle: u64,
}

impl Config {
    /// The bounds describe a non-empty range.
    pub open spec fn wf(self) -> bool {
        self.min_idle < self.max_idle
    }
}

/// Diagnostic counters of the strategy.
#[derive(Debug, PartialEq, Eq, Structural, Clone, Copy)]
pub struct Stats {
    /// How many broken frames were seen: loopback mismatches and line-level
    /// frame errors. Monotonically increasing.
    pub frame_errors: u64,
}

impl Default for Stats {
    /// Fresh counters, all zero.
    fn default() -> (r: Stats)
        ensures
            r.frame_errors == 0,
    {
        Stats { frame_errors: 0 }
    }
}

/// An owned frame being pushed onto the bus, with a single cursor for the
/// next byte to send.
#[derive(Debug)]
pub struct GreedyFrameInProgress {
    frame: Frame,
    ptr: usize,
}

impl GreedyFrameInProgress {
    /// The encoded bytes of the frame being sent.
    pub closed spec fn frame_bytes(&self) -> Seq<u8> {
        self.frame@
    }

    /// The index of the next byte to send.
    pub closed spec fn cursor(&self) -> int {
        self.ptr as int
    }

    /// The next byte to send, if any remains.
    pub open spec fn spec_first(&self) -> Option<u8> {
        if self.cursor() < self.frame_bytes().len() {
            Some(self.frame_bytes()[self.cursor()])
        } else {
            None
        }
    }

    /// Start sending a frame from its first byte.
    pub fn new(frame: Frame) -> (r: Self)
        ensures
            r.frame_bytes() == frame@,
            r.cursor() == 0,
    {
        Self { frame, ptr: 0 }
    }

    /// The next byte to send, if any remains.
    pub fn first(&self) -> (r: Option<u8>)
        ensures
            r == self.spec_first(),
    {
        if self.ptr < self.frame.0.len() {
            Some(self.frame.0[self.ptr])
        } else {
            None
        }
    }

    /// Move past the byte just sent.
    pub fn pop_first(&mut self)
        requires
            old(self).cursor() < usize::MAX,
        ensures
            final(self).frame_bytes() == old(self).frame_bytes(),
            final(self).cursor() == old(self).cursor() + 1,
    {
        self.ptr += 1;
    }

    /// Start the frame over from its first byte.
    pub fn reset(&mut self)
        ensures
            final(self).frame_bytes() == old(self).frame_bytes(),
            final(self).cursor() == 0,
    {
        self.ptr = 0;
    }
}

/// How the reader buffer of a strategy can evolve over one poll: untouched,
/// one nonzero byte appended, emptied by a sentinel or a clear, or cleared
/// and refilled with the one byte just seen.
pub open spec fn reader_evolution(pre: Seq<u8>, post: Seq<u8>) -> bool {
    ||| post == pre
    ||| (exists|b: u8| b != 0 && post == pre.push(b))
    ||| post == Seq::<u8>::empty()
    ||| (exists|b: u8| b != 0 && post == seq![b])
}

/// Send frames greedily, without listening whether the line is free.
pub struct GreedyStrategy<T: Transceiver> {
    transceiver: T,
    reader: Reader,
}

impl<T: Transceiver> GreedyStrategy<T> {
    /// The bytes buffered by the receive path.
    pub closed spec fn reader_buffered(&self) -> Seq<u8> {
        self.reader.buffered()
    }

    /// The internal reader stays within its buffer bound.
    pub closed spec fn wf(&self) -> bool {
        self.reader.wf()
    }

    /// A strategy over the given transceiver, with an empty reader.
    pub fn new(transceiver: T) -> (r: Self)
        ensures
            r.wf(),
            r.reader_buffered() == Seq::<u8>::empty(),
    {
        Self { transceiver, reader: Reader::new() }
    }

    /// Push at most one byte of the frame onto the bus. Returns `Ok` exactly
    /// when the whole frame has been pushed; `WouldBlock` while bytes remain.
    pub fn send(&mut self, frame: &mut GreedyFrameInProgress) -> (r: Result<
        (),
        PollError<T::Error>,
    >)
        requires
            old(self).wf(),
            old(frame).cursor() < usize::MAX,
        ensures
            final(self).wf(),
            final(self).reader_buffered() == old(self).reader_buffered(),
            final(frame).frame_bytes() == old(frame).frame_bytes(),
            old(frame).cursor() <= final(frame).cursor() <= old(frame).cursor() + 1,
            r is Ok ==> final(frame).spec_first() is None,
            r matches Err(e) ==> (e is WouldBlock ==> (final(frame).cursor() == old(
                frame,
            ).cursor() + 1 && final(frame).spec_first() is Some) || final(frame).cursor() == old(
                frame,
            ).cursor()),
            r matches Err(e) ==> (e is Other ==> final(frame).cursor() == old(frame).cursor()),
            old(frame).spec_first() is None ==> (r is Ok && final(frame).cursor() == old(
                frame,
            ).cursor()),
    {
        let b = match frame.first() {
            None => {
                return Ok(());
            },
            Some(b) => b,
        };
        match self.transceiver.write(b) {
            Ok(()) => {
                frame.pop_first();
                match frame.first() {
                    Some(_) => Err(PollError::WouldBlock),
                    None => Ok(()),
                }
            },
            Err(e) => Err(e),
        }
    }

    /// Read at most one byte from the bus and feed it to the reader. Returns
    /// a frame exactly when that byte completes a valid frame; the returned
    /// frame is the reader's verdict on what was buffered.
    pub fn receive(&mut self) -> (r: Result<FrameOwned, PollError<ReadError<T::Error>>>)
        requires
            old(self).wf(),
        ensures
            final(self).wf(),
            reader_evolution(old(self).reader_buffered(), final(self).reader_buffered()),
            r matches Ok(f) ==> {
                &&& f.wf()
                &&& final(self).reader_buffered() == Seq::<u8>::empty()
                &&& result_matches_outcome(
                    ReadResult::FrameOK(f),
                    frame_outcome(old(self).reader_buffered()),
                )
            },
            r matches Err(e) && e is Other ==> final(self).reader_buffered() == old(
                self,
            ).reader_buffered(),
    {
        let b = match self.transceiver.read() {
            Ok(b) => b,
            Err(e) => {
                return Err(e);
            },
        };
        match self.reader.feed(b) {
            ReadResult::FrameOK(fr) => Ok(fr),
            _ => Err(PollError::WouldBlock),
        }
    }
}

/// The states of the CSMA access machine.
#[derive(Debug, PartialEq, Eq, Structural, Clone, Copy)]
pub enum CsmaStrategyState {
    /// The bus is not known to be idle; wait before deciding to act.
    WaitForBusIdle,
    /// The bus is idle, but a random cooldown must pass before chattering.
    BusIdleCooldown { ready_at: u64 },
    /// About to take the bus; stale received bytes are dropped here.
    StartSend,
    /// Pushing bytes; everything received must match our own frame.
    Sending,
    /// All bytes pushed; waiting for the rest of the loopback to confirm.
    ConfirmingSendWithoutErrors,
}

/// An owned frame being sent under CSMA, with two independent cursors: the
/// next byte to push, and the next byte expected back through the loopback.
#[derive(Debug)]
pub struct CsmaFrameInProgress {
    frame: Frame,
    send_ptr: usize,
    receive_ptr: usize,
}

impl CsmaFrameInProgress {
    /// The encoded bytes of the frame being sent.
    pub closed spec fn frame_bytes(&self) -> Seq<u8> {
        self.frame@
    }

    /// The index of the next byte to push onto the bus.
    pub closed spec fn send_cursor(&self) -> int {
        self.send_ptr as int
    }

    /// The index of the next byte expected back through the loopback.
    pub closed spec fn receive_cursor(&self) -> int {
        self.receive_ptr as int
    }

    /// Both cursors stay within the frame.
    pub open spec fn wf(&self) -> bool {
        &&& self.send_cursor() <= self.frame_bytes().len()
        &&& self.receive_cursor() <= self.frame_bytes().len()
    }

    /// The next byte to push, if any remains.
    pub open spec fn spec_peek(&self) -> Option<u8> {
        if self.send_cursor() < self.frame_bytes().len() {
            Some(self.frame_bytes()[self.send_cursor()])
        } else {
            None
        }
    }

    /// Start sending a frame with both cursors at its first byte.
    pub fn new(frame: Frame) -> (r: Self)
        ensures
            r.frame_bytes() == frame@,
            r.send_cursor() == 0,
            r.receive_cursor() == 0,
            r.wf(),
    {
        Self { frame, send_ptr: 0, receive_ptr: 0 }
    }

    /// Start the frame over: both cursors back to its first byte.
    pub fn reset(&mut self)
        ensures
            final(self).frame_bytes() == old(self).frame_bytes(),
            final(self).send_cursor() == 0,
            final(self).receive_cursor() == 0,
            final(self).wf(),
    {
        self.send_ptr = 0;
        self.receive_ptr = 0;
    }

    /// The next byte to push, if any remains.
    pub fn peek_for_send(&mut self) -> (r: Option<u8>)
        ensures
            *final(self) == *old(self),
            r == old(self).spec_peek(),
    {
        if self.send_ptr < self.frame.0.len() {
            Some(self.frame.0[self.send_ptr])
        } else {
            None
        }
    }

    /// Move the send cursor past the byte just pushed.
    pub fn notify_send(&mut self)
        requires
            old(self).spec_peek() is Some,
        ensures
            final(self).frame_bytes() == old(self).frame_bytes(),
            final(self).send_cursor() == old(self).send_cursor() + 1,
            final(self).receive_cursor() == old(self).receive_cursor(),
            old(self).wf() ==> final(self).wf(),
    {
        proof {
            broadcast use vstd::std_specs::vec::axiom_spec_len;

            assert(self.frame.0.len() == self.frame.0@.len());
        }
        self.send_ptr += 1;
    }

    /// Check one looped-back byte against the frame. On a match the receive
    /// cursor advances and `Ok` tells whether the whole frame has now been
    /// confirmed; on a mismatch nothing moves and `Err` reports a collision.
    pub fn feed_as_check(&mut self, b: u8) -> (r: Result<bool, ()>)
        ensures
            final(self).frame_bytes() == old(self).frame_bytes(),
            final(self).send_cursor() == old(self).send_cursor(),
            if old(self).receive_cursor() < old(self).frame_bytes().len() && old(
                self,
            ).frame_bytes()[old(self).receive_cursor()] == b {
                &&& final(self).receive_cursor() == old(self).receive_cursor() + 1
                &&& r == Ok::<bool, ()>(
                    old(self).receive_cursor() + 1 == old(self).frame_bytes().len(),
                )
            } else {
                &&& final(self).receive_cursor() == old(self).receive_cursor()
                &&& r == Err::<bool, ()>(())
            },
            old(self).wf() ==> final(self).wf(),
    {
        if self.receive_ptr < self.frame.0.len() && self.frame.0[self.receive_ptr] == b {
            self.receive_ptr += 1;
            Ok(self.receive_ptr == self.frame.0.len())
        } else {
            Err(())
        }
    }
}

/// What one successful `send_or_receive` poll produced.
#[derive(Debug, PartialEq)]
pub enum SendReceiveResult {
    /// Our own frame was confirmed byte by byte on the loopback.
    SendComplete,
    /// A different station's frame arrived whole.
    Received(FrameOwned),
}

/// The states `handle_send` may move to from each state, following the
/// transition table of the access machine.
pub open spec fn send_phase_step(pre: CsmaStrategyState, post: CsmaStrategyState) -> bool {
    match pre {
        CsmaStrategyState::WaitForBusIdle => post is WaitForBusIdle || post is BusIdleCooldown,
        CsmaStrategyState::BusIdleCooldown { .. } => post == pre || post is WaitForBusIdle
            || post is StartSend,
        CsmaStrategyState::StartSend => post is WaitForBusIdle || post is Sending,
        CsmaStrategyState::Sending => post is Sending || post is ConfirmingSendWithoutErrors,
        CsmaStrategyState::ConfirmingSendWithoutErrors => post == pre,
    }
}

/// The states one whole `send_or_receive` poll may move to from each state:
/// the send-phase transitions, preceded by a possible forced reset to
/// `WaitForBusIdle` when a byte or a line error arrives.
pub open spec fn poll_step(pre: CsmaStrategyState, post: CsmaStrategyState) -> bool {
    match pre {
        CsmaStrategyState::WaitForBusIdle => post is WaitForBusIdle || post is BusIdleCooldown,
        CsmaStrategyState::BusIdleCooldown { .. } => post == pre || post is WaitForBusIdle
            || post is BusIdleCooldown || post is StartSend,
        CsmaStrategyState::StartSend => post == pre || post is WaitForBusIdle
            || post is BusIdleCooldown || post is Sending,
        CsmaStrategyState::Sending => post is Sending || post is ConfirmingSendWithoutErrors
            || post is WaitForBusIdle,
        CsmaStrategyState::ConfirmingSendWithoutErrors => post == pre || post is WaitForBusIdle,
    }
}

/// An instant a duration later, clamped to the end of time.
pub open spec fn spec_instant_after(now: u64, d: u64) -> u64 {
    if now + d > u64::MAX {
        u64::MAX
    } else {
        (now + d) as u64
    }
}

/// The carrier-sense multiple-access strategy: waits for an idle bus, backs
/// off for a random cooldown, transmits byte by byte while matching the
/// loopback, and retries the whole frame on any mismatch.
pub struct CsmaStrategy<T: Transceiver, C: Clock, R: DurationSampler> {
    transceiver: T,
    clock: C,
    rng: R,
    reader: Reader,
    state: CsmaStrategyState,
    stats: Stats,
    config: Config,
}

impl<T: Transceiver, C: Clock, R: DurationSampler> CsmaStrategy<T, C, R> {
    /// The current state of the access machine.
    pub closed spec fn spec_state(&self) -> CsmaStrategyState {
        self.state
    }

    /// The frame-error counter.
    pub closed spec fn spec_stats(&self) -> u64 {
        self.stats.frame_errors
    }

    /// The configured backoff bounds.
    pub closed spec fn spec_config(&self) -> Config {
        self.config
    }

    /// The bytes buffered by the receive path.
    pub closed spec fn reader_buffered(&self) -> Seq<u8> {
        self.reader.buffered()
    }

    /// The reader stays within its bound and the backoff range is non-empty.
    pub open spec fn wf(&self) -> bool {
        &&& self.reader_buffered().len() <= crate::codec::MAX_FRAME_LEN
        &&& self.spec_config().wf()
    }

    /// A strategy over the given transceiver, clock and random source,
    /// starting in `WaitForBusIdle` with an empty reader and zeroed counters.
    pub fn new(transceiver: T, clock: C, rng: R, config: Config) -> (r: Self)
        requires
            config.wf(),
        ensures
            r.wf(),
            r.spec_state() == CsmaStrategyState::WaitForBusIdle,
            r.spec_stats() == 0,
            r.spec_config() == config,
            r.reader_buffered() == Seq::<u8>::empty(),
    {
        Self {
            transceiver,
            clock,
            rng,
            reader: Reader::new(),
            state: CsmaStrategyState::WaitForBusIdle,
            stats: Stats::default(),
            config,
        }
    }

    /// The diagnostic counters.
    pub fn stats(&self) -> (r: &Stats)
        ensures
            r.frame_errors == self.spec_stats(),
    {
        &self.stats
    }

    /// The clock's current instant.
    pub fn now(&self) -> u64 {
        self.clock.now()
    }

    /// Handle the send side of one poll: advance the access machine one step
    /// along its transition table. The reader is cleared exactly when the bus
    /// is taken (`StartSend` to `Sending`); the frame advances by at most one
    /// byte, and only while `Sending`.
    fn handle_send(&mut self, frame: &mut CsmaFrameInProgress) -> (r: PollError<T::Error>)
        requires
            old(self).wf(),
            old(frame).wf(),
        ensures
            final(self).wf(),
            final(frame).wf(),
            final(self).spec_stats() == old(self).spec_stats(),
            final(self).spec_config() == old(self).spec_config(),
            send_phase_step(old(self).spec_state(), final(self).spec_state()),
            final(frame).frame_bytes() == old(frame).frame_bytes(),
            final(frame).receive_cursor() == old(frame).receive_cursor(),
            old(frame).send_cursor() <= final(frame).send_cursor() <= old(
                frame,
            ).send_cursor() + 1,
            !(old(self).spec_state() is Sending) ==> final(frame).send_cursor() == old(
                frame,
            ).send_cursor(),
            if old(self).spec_state() is StartSend && final(self).spec_state() is Sending {
                final(self).reader_buffered() == Seq::<u8>::empty()
            } else {
                final(self).reader_buffered() == old(self).reader_buffered()
            },
            r is Other ==> {
                &&& final(self).spec_state() == old(self).spec_state()
                &&& final(self).reader_buffered() == old(self).reader_buffered()
                &&& *final(frame) == *old(frame)
            },
            !(old(self).spec_state() is Sending) ==> r is WouldBlock,
            old(self).spec_state() is Sending && old(frame).spec_peek() is None
                ==> final(self).spec_state() is ConfirmingSendWithoutErrors,
            old(self).spec_state() is Sending
                && final(frame).send_cursor() == old(frame).send_cursor() + 1
                ==> (final(self).spec_state() is ConfirmingSendWithoutErrors
                    <==> final(frame).send_cursor() == final(frame).frame_bytes().len()),
            old(self).spec_state() is Sending && old(frame).spec_peek() is Some
                && final(frame).send_cursor() == old(frame).send_cursor()
                ==> final(self).spec_state() is Sending,
            !(old(self).spec_state() is BusIdleCooldown) ==> (final(self).spec_state()
                matches CsmaStrategyState::BusIdleCooldown { ready_at } ==> exists|now: u64, d: u64|
                old(self).spec_config().min_idle <= d < old(self).spec_config().max_idle
                    && ready_at == spec_instant_after(now, d)),
    {
        match self.state {
            CsmaStrategyState::WaitForBusIdle => {
                if self.transceiver.bus_is_idle() {
                    let d = self.rng.sample(self.config.min_idle, self.config.max_idle);
                    let now = self.clock.now();
                    let ready_at = if now <= u64::MAX - d {
                        now + d
                    } else {
                        u64::MAX
                    };
                    self.state = CsmaStrategyState::BusIdleCooldown { ready_at };
                    proof {
                        assert(ready_at == spec_instant_after(now, d));
                    }
                }
            },
            CsmaStrategyState::BusIdleCooldown { ready_at } => {
                if !self.transceiver.bus_is_idle() {
                    self.state = CsmaStrategyState::WaitForBusIdle;
                } else if self.clock.now() >= ready_at {
                    self.state = CsmaStrategyState::StartSend;
                }
            },
            CsmaStrategyState::StartSend => {
                if !self.transceiver.bus_is_idle() {
                    self.state = CsmaStrategyState::WaitForBusIdle;
                } else {
                    self.reader.clear();
                    self.state = CsmaStrategyState::Sending;
                }
            },
            CsmaStrategyState::Sending => {
                let b = match frame.peek_for_send() {
                    None => {
                        self.state = CsmaStrategyState::ConfirmingSendWithoutErrors;
                        return PollError::WouldBlock;
                    },
                    Some(b) => b,
                };
                match self.transceiver.write(b) {
                    Ok(()) => {},
                    Err(e) => {
                        return e;
                    },
                }
                frame.notify_send();
                if frame.peek_for_send().is_none() {
                    self.state = CsmaStrategyState::ConfirmingSendWithoutErrors;
                }
            },
            CsmaStrategyState::ConfirmingSendWithoutErrors => {},
        }
        PollError::WouldBlock
    }

    /// Process one byte read back from the bus; exact in the byte. While
    /// sending or confirming, the byte must match the frame at the receive
    /// cursor: the final match completes the send, and any mismatch counts a
    /// collision, resets the frame and the reader, and waits for the bus
    /// again. In every other state the byte means the bus is busy: the
    /// machine is forced to wait, and the byte goes to the reader, which may
    /// complete another station's frame.
    fn on_byte(&mut self, frame: &mut CsmaFrameInProgress, b: u8) -> (r: Option<
        Result<SendReceiveResult, PollError<T::Error>>,
    >)
        requires
            old(self).wf(),
            old(frame).wf(),
            old(self).spec_stats() < u64::MAX,
        ensures
            final(self).wf(),
            final(frame).wf(),
            final(self).spec_config() == old(self).spec_config(),
            final(frame).frame_bytes() == old(frame).frame_bytes(),
            match old(self).spec_state() {
                CsmaStrategyState::Sending | CsmaStrategyState::ConfirmingSendWithoutErrors => {
                    let fb = old(frame).frame_bytes();
                    let rc = old(frame).receive_cursor();
                    if rc < fb.len() && fb[rc] == b {
                        &&& final(frame).receive_cursor() == rc + 1
                        &&& final(frame).send_cursor() == old(frame).send_cursor()
                        &&& final(self).spec_stats() == old(self).spec_stats()
                        &&& final(self).reader_buffered() == old(self).reader_buffered()
                        &&& if rc + 1 == fb.len() {
                            &&& final(self).spec_state() is WaitForBusIdle
                            &&& r == Some(
                                Result::<SendReceiveResult, PollError<T::Error>>::Ok(
                                    SendReceiveResult::SendComplete,
                                ),
                            )
                        } else {
                            &&& final(self).spec_state() == old(self).spec_state()
                            &&& r is None
                        }
                    } else {
                        &&& final(self).spec_stats() == old(self).spec_stats() + 1
                        &&& final(frame).send_cursor() == 0
                        &&& final(frame).receive_cursor() == 0
                        &&& final(self).spec_state() is WaitForBusIdle
                        &&& final(self).reader_buffered() == (if b == 0 {
                            Seq::<u8>::empty()
                        } else {
                            seq![b]
                        })
                        &&& r matches Some(res) && res matches Err(e) && e is WouldBlock
                    }
                },
                _ => {
                    &&& final(self).spec_state() is WaitForBusIdle
                    &&& final(self).spec_stats() == old(self).spec_stats()
                    &&& *final(frame) == *old(frame)
                    &&& if b == 0 {
                        &&& final(self).reader_buffered() == Seq::<u8>::empty()
                        &&& match frame_outcome(old(self).reader_buffered()) {
                            crate::codec::FrameOutcome::Valid { src, dst, contents } => r matches Some(
                                res,
                            ) && res matches Ok(sr) && sr matches SendReceiveResult::Received(f)
                                && result_matches_outcome(
                                ReadResult::FrameOK(f),
                                frame_outcome(old(self).reader_buffered()),
                            ),
                            _ => r is None,
                        }
                    } else if old(self).reader_buffered().len() == crate::codec::MAX_FRAME_LEN {
                        &&& final(self).reader_buffered() == old(self).reader_buffered()
                        &&& r is None
                    } else {
                        &&& final(self).reader_buffered() == old(self).reader_buffered().push(b)
                        &&& r is None
                    }
                },
            },
    {
        match self.state {
            CsmaStrategyState::Sending | CsmaStrategyState::ConfirmingSendWithoutErrors => {
                // Every looped-back byte must match our own frame.
                match frame.feed_as_check(b) {
                    Ok(true) => {
                        self.state = CsmaStrategyState::WaitForBusIdle;
                        Some(Ok(SendReceiveResult::SendComplete))
                    },
                    Ok(false) => None,
                    Err(()) => {
                        // Mismatch between the outgoing frame and the
                        // loopback: a collision. Retry the whole frame.
                        self.stats.frame_errors = self.stats.frame_errors + 1;
                        frame.reset();
                        self.reader.clear();
                        let _ = self.reader.feed(b);
                        self.state = CsmaStrategyState::WaitForBusIdle;
                        Some(Err(PollError::WouldBlock))
                    },
                }
            },
            _ => {
                // Activity on the line means the bus is not idle.
                self.state = CsmaStrategyState::WaitForBusIdle;
                if let ReadResult::FrameOK(incoming) = self.reader.feed(b) {
                    Some(Ok(SendReceiveResult::Received(incoming)))
                } else {
                    None
                }
            },
        }
    }

    /// Handle a line-level frame error; exact. It counts one frame error,
    /// resets the frame for a fresh attempt, drops anything half received,
    /// and waits for the bus again.
    fn on_line_error(&mut self, frame: &mut CsmaFrameInProgress)
        requires
            old(self).wf(),
            old(self).spec_stats() < u64::MAX,
        ensures
            final(self).wf(),
            final(self).spec_config() == old(self).spec_config(),
            final(self).spec_stats() == old(self).spec_stats() + 1,
            final(self).spec_state() is WaitForBusIdle,
            final(self).reader_buffered() == Seq::<u8>::empty(),
            final(frame).frame_bytes() == old(frame).frame_bytes(),
            final(frame).send_cursor() == 0,
            final(frame).receive_cursor() == 0,
            final(frame).wf(),
    {
        self.stats.frame_errors = self.stats.frame_errors + 1;
        frame.reset();
        self.reader.clear();
        self.state = CsmaStrategyState::WaitForBusIdle;
    }

    /// Try to send the frame, while staying open to receive one instead.
    ///
    /// Drives the access machine forward by one step along its transition
    /// table. `SendComplete` is returned exactly when the loopback has
    /// confirmed the whole frame; `Received` carries a valid frame of another
    /// station, the reader's verdict on what it had buffered. Whenever the
    /// frame-error counter grows, the frame was reset for a fresh attempt and
    /// the machine waits for the bus again. A fatal transceiver error is
    /// surfaced unchanged, with nothing else touched.
    pub fn send_or_receive(&mut self, frame: &mut CsmaFrameInProgress) -> (r: Result<
        SendReceiveResult,
        PollError<T::Error>,
    >)
        requires
            old(self).wf(),
            old(frame).wf(),
            old(self).spec_stats() < u64::MAX,
        ensures
            final(self).wf(),
            final(frame).wf(),
            final(self).spec_config() == old(self).spec_config(),
            final(frame).frame_bytes() == old(frame).frame_bytes(),
            poll_step(old(self).spec_state(), final(self).spec_state()),
            old(self).spec_stats() <= final(self).spec_stats() <= old(self).spec_stats() + 1,
            reader_evolution(old(self).reader_buffered(), final(self).reader_buffered()),
            r is Ok ==> final(self).spec_stats() == old(self).spec_stats(),
            r matches Ok(res) ==> (res is SendComplete ==> {
                &&& final(self).spec_state() is WaitForBusIdle
                &&& final(frame).receive_cursor() == final(frame).frame_bytes().len()
                &&& (old(self).spec_state() is Sending || old(
                    self,
                ).spec_state() is ConfirmingSendWithoutErrors)
            }),
            r matches Ok(res) ==> (res matches SendReceiveResult::Received(f) ==> {
                &&& f.wf()
                &&& final(self).spec_state() is WaitForBusIdle
                &&& final(self).reader_buffered() == Seq::<u8>::empty()
                &&& result_matches_outcome(
                    ReadResult::FrameOK(f),
                    frame_outcome(old(self).reader_buffered()),
                )
                &&& *final(frame) == *old(frame)
            }),
            r matches Err(e) ==> (e is Other ==> {
                &&& final(self).spec_state() == old(self).spec_state()
                &&& final(self).spec_stats() == old(self).spec_stats()
                &&& final(self).reader_buffered() == old(self).reader_buffered()
            }),
            final(self).spec_stats() > old(self).spec_stats() ==> {
                &&& final(self).spec_state() is WaitForBusIdle
                &&& final(frame).send_cursor() == 0
                &&& final(frame).receive_cursor() == 0
                &&& r matches Err(e) && e is WouldBlock
            },
            old(self).spec_state() is StartSend && final(self).spec_state() is Sending
                ==> final(self).reader_buffered() == Seq::<u8>::empty(),
            final(self).spec_state() != old(self).spec_state() ==> (final(self).spec_state()
                matches CsmaStrategyState::BusIdleCooldown { ready_at } ==> exists|now: u64, d: u64|
                old(self).spec_config().min_idle <= d < old(self).spec_config().max_idle
                    && ready_at == spec_instant_after(now, d)),
    {
        self.transceiver.handle_interrupts();
        match self.transceiver.read() {
            Ok(b) => {
                if let Some(out) = self.on_byte(frame, b) {
                    return out;
                }
            },
            Err(PollError::WouldBlock) => {},
            Err(PollError::Other(ReadError::FrameError)) => {
                // The line itself saw a broken frame; treat it like a collision.
                self.on_line_error(frame);
                return Err(PollError::WouldBlock);
            },
            Err(PollError::Other(ReadError::UnderlyingError(e))) => {
                return Err(PollError::Other(e));
            },
        }
        Err(self.handle_send(frame))
    }

    /// The pure receive path, for a station with nothing to send: read at
    /// most one byte and feed it to the reader. Returns a frame exactly when
    /// that byte completes a valid one. A line-level frame error counts one
    /// frame error and clears the reader; a fatal error is surfaced
    /// unchanged. The access machine state is never touched.
    pub fn receive(&mut self) -> (r: Result<FrameOwned, PollError<T::Error>>)
        requires
            old(self).wf(),
            old(self).spec_stats() < u64::MAX,
        ensures
            final(self).wf(),
            final(self).spec_state() == old(self).spec_state(),
            final(self).spec_config() == old(self).spec_config(),
            old(self).spec_stats() <= final(self).spec_stats() <= old(self).spec_stats() + 1,
            reader_evolution(old(self).reader_buffered(), final(self).reader_buffered()),
            r matches Ok(f) ==> {
                &&& f.wf()
                &&& final(self).reader_buffered() == Seq::<u8>::empty()
                &&& result_matches_outcome(
                    ReadResult::FrameOK(f),
                    frame_outcome(old(self).reader_buffered()),
                )
                &&& final(self).spec_stats() == old(self).spec_stats()
            },
            final(self).spec_stats() > old(self).spec_stats() ==> {
                &&& final(self).reader_buffered() == Seq::<u8>::empty()
                &&& r matches Err(e) && e is WouldBlock
            },
            r matches Err(e) ==> (e is Other ==> {
                &&& final(self).spec_stats() == old(self).spec_stats()
                &&& final(self).reader_buffered() == old(self).reader_buffered()
            }),
    {
        self.transceiver.handle_interrupts();
        match self.transceiver.read() {
            Ok(b) => match self.reader.feed(b) {
                ReadResult::FrameOK(fr) => Ok(fr),
                _ => Err(PollError::WouldBlock),
            },
            Err(PollError::Other(ReadError::FrameError)) => {
                self.stats.frame_errors = self.stats.frame_errors + 1;
                self.reader.clear();
                Err(PollError::WouldBlock)
            },
            Err(PollError::Other(ReadError::UnderlyingError(e))) => Err(PollError::Other(e)),
            Err(PollError::WouldBlock) => Err(PollError::WouldBlock),
        }
    }
}

} // verus!
