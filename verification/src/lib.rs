//! Text armor for binary payloads.
//!
//! A payload is armored by putting its four-byte error check code in front
//! of it, writing the two in Base58, wrapping the text into words and
//! framing it: `BEGIN SLATEPACK. <words> . END SLATEPACK.` Reading an
//! armored text parts it at its delimiters, validates the framing, strips
//! what is insignificant, decodes the rest and checks the code.
//!
//! Text is modelled as the sequence of its characters and a payload as the
//! sequence of its bytes. What `armor` writes is `armored`, what
//! `remove_armor` reads is `dearmored`, and reading what was written gives
//! the payload back.

pub mod base58;
pub mod charset;
pub mod checksum;
pub mod codec;
pub mod error;
pub mod format;
pub mod frame;
pub mod grammar;
pub mod slate;
pub mod text;

pub use base58::{base58check, base58check_decode, split_check_buffer};
pub use checksum::{compare_check, error_check, generate_check, CHECKSUM_LEN};
pub use codec::{armor, armor_as, remove_armor};
pub use error::ArmorError;
pub use format::{format_slate, strip_formatting, WORD_LENGTH};
pub use frame::{parse_frame, Frame};
pub use grammar::{check_footer, check_header, FrameVariant};
pub use slate::{armor_slate, remove_armor_slate, slate_of_payload};
