//! Driver for a family of laser particulate-matter sensors that speak a
//! small binary framing protocol over a byte-oriented serial transport.
//!
//! The crate verifies the protocol core: the outgoing command framer, the
//! incoming frame collector with its checksum validation and
//! resynchronization, and the compile-time mode-state machine that gates
//! which operations are legal in which sensor mode. The serial channel
//! itself is an external collaborator behind the [`Transport`] trait.

use vstd::prelude::*;

mod command;
mod data;
mod driver;
mod frame;
mod modes;
mod reader;
mod sealed;
mod transport;
mod writer;

pub use driver::Pms700X;
pub use driver::Sleep;
pub use driver::Transition;
pub use driver::sleep_payload;
pub use modes::Active;
pub use modes::Mode;
pub use modes::Passive;
pub use modes::UnInitialized;

pub use command::Command;
pub use command::command_code;
pub use command::command_frame;
pub use command::lemma_command_frame_round_trip;
pub use writer::CommandWriter;
pub use transport::Step;
pub use transport::Transport;
pub use reader::ReaderModel;
pub use reader::SensorReader;
pub use reader::feed;
pub use reader::feed_completes;
pub use reader::lemma_feed_preserves_inv;
pub use reader::lemma_oversize_length_resets;
pub use reader::lemma_resynchronization;
pub use reader::reader_step;
pub use reader::wf_frame;
pub use data::SensorData;
pub use data::decoded_fields;
pub use data::hi8;
pub use data::lo8;
pub use data::response_body;
pub use data::response_frame;
pub use data::lemma_response_round_trip;
pub use frame::MAX_RESPONSE_SIZE;
pub use frame::START_HEADER_1;
pub use frame::START_HEADER_2;
pub use frame::be16;
pub use frame::checksum_ok;
pub use frame::lemma_checksum_byte_flip;
pub use frame::sum_bytes;

verus! {

} // verus!
