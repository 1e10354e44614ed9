//! A CSMA (carrier sense multiple access) media-access layer for a shared
//! half-duplex serial bus, together with the length-prefixed, checksummed,
//! byte-stuffed framing protocol that rides on top of it.

mod codec;
mod csma;
mod sim;

pub use codec::Address;
pub use codec::AddressTooLargeError;
pub use codec::Frame;
pub use codec::FrameOwned;
pub use codec::FrameRef;
pub use codec::Header;
pub use codec::HEADER_LEN;
pub use codec::MAX_FRAME_LEN;
pub use codec::MAX_MESSAGE_LEN;
pub use codec::MAX_NAKED_LEN;
pub use codec::MIN_NAKED_LEN;
pub use codec::ReadResult;
pub use codec::Reader;
pub use codec::WriteError;
pub use codec::Writer;
pub use codec::writer_reader_round_trip;
pub use csma::Clock;
pub use csma::Config;
pub use csma::CsmaFrameInProgress;
pub use csma::CsmaStrategy;
pub use csma::CsmaStrategyState;
pub use csma::DurationSampler;
pub use csma::GreedyFrameInProgress;
pub use csma::GreedyStrategy;
pub use csma::PollError;
pub use csma::ReadError;
pub use csma::SendReceiveResult;
pub use csma::Stats;
pub use csma::ThreadRngSampler;
pub use csma::Transceiver;
pub use sim::BusConf;
pub use sim::FakeClock;
pub use sim::FakeDuration;
pub use sim::FakeInstant;
pub use sim::Fragment;
pub use sim::Mailbox;
pub use sim::Message;
pub use sim::Party;
pub use sim::SerialBus;
pub use sim::SerialBusState;
pub use sim::SerialTransceiver;
pub use sim::SimError;
