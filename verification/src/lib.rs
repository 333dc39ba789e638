//! Wire codec for the negotiation phase of SMB2/3 and for the NTLM challenge
//! that follows it.
//!
//! Every codec function is a pure transform between a byte sequence and a
//! value. The contracts are stated over `Seq<u8>` models of the wire format:
//! a decoder returns what the model parser gives for the bytes, an encoder
//! returns the model encoding of the value, and proof functions relate the
//! two.
//!
//! - [`byte_helper`]: fixed-width integers and their bytes.
//! - [`guid`], [`file_time`], [`flags`], [`dialect`]: the values of the
//!   fixed fields.
//! - [`context`], [`context_list`]: negotiate contexts and their padded list.
//! - [`support`]: the server's table and the derivation of response contexts.
//! - [`request`], [`response`]: the two bodies of the negotiation.
//! - [`ntlm`]: the challenge message.
//! - [`command_code`], [`legacy`], [`message`], [`user`]: what surrounds the
//!   negotiation.
//!
//! Random identifiers, random challenges and the system clock come from
//! outside. Each function that takes one of them has a twin that takes the
//! value as an argument and is specified exactly.

pub mod byte_helper;
pub mod command_code;
pub mod context;
pub mod context_list;
pub mod dialect;
pub mod error;
pub mod file_time;
pub mod flags;
pub mod guid;
pub mod legacy;
pub mod message;
pub mod ntlm;
pub mod request;
pub mod response;
pub mod support;
pub mod user;
