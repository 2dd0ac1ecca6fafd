//! A compact binary codec for arbitrage execution requests.
//!
//! A request carries an input amount, a minimum profit and an ordered route of
//! pool hops. Its wire form is a 32-byte amount header followed by one 21-byte
//! block per hop, big-endian throughout and without padding.
//!
//! - [`encoding`] holds the request and the codec itself: `encode`, the
//!   decoders for bytes and for text, and the sample request.
//! - [`wire`] holds the layout as a pair of functions between requests and
//!   bytes, with the laws that relate them.
//! - [`hop`] holds a hop and its header byte.
//! - [`uint256`] holds the 256-bit amounts, [`big_endian`] what it means for
//!   bytes to spell a number.
//! - [`hex_text`] holds the textual form of bytes.
//! - [`buffer`] holds what is relied on of the output buffer.
//! - [`error`] holds the error kinds.
//!
//! Three outside crates do part of the work and are believed, not proved:
//! `ethers` converts between limbs and big-endian bytes, `bytes` collects the
//! output, and `hex` writes and reads hexadecimal digits. Each such call stands
//! in a small function of its own, whose comment says what is believed of it.

pub mod big_endian;
pub mod buffer;
pub mod encoding;
pub mod error;
pub mod hex_text;
pub mod hop;
pub mod uint256;
pub mod wire;
