//! Generate easy to remember sentences that act as human readable UUIDs.
//!
//! - Built on UUID v4
//! - Optionally pass your UUID to derive a sentence from it
//! - Grammatically _correct_ sentences
//! - Easy to remember (or at least part of it)
//! - [`generate`] reads all 128 bits of the identifier
//! - [`short`] reads its first 32 bits
//! - [`generate_inverse`] resolves a long sentence to an identifier with
//!   the same long sentence
//!
//! ## Security
//! This crate does not mean to be crypto safe! **Don't use this as a secure
//! random generator.**
//!
//! A sentence holds fewer bits than the identifier it comes from, so two
//! different identifiers can result in the same sentence.
//!
//! - `25^11 * 32` possible sentences for [`generate`]
//! - `25^4 * 64` possible sentences for [`short`]
//!
//! ## Example
//! ```
//! use uuid::Uuid;
//! use uuid_readable_rs::{generate, generate_from, generate_inverse, short, short_from};
//!
//! // You can define your own UUID and pass it on like so
//! let uuid = Uuid::new_v4();
//! let sentence_128: String = generate_from(uuid);
//! let sentence_32: String = short_from(uuid);
//!
//! // Or let the crate handle the Uuid generation
//! let sentence_128: String = generate();
//! let sentence_32: String = short();
//!
//! // A long sentence resolves to an identifier that has the same sentence
//! let resolved = generate_inverse(&sentence_128).unwrap();
//! assert_eq!(generate_from(resolved), sentence_128);
//! ```

pub mod bits;
pub mod identifier;
pub mod inverse;
pub mod laws;
pub mod sentence;
pub mod text;
pub mod vocabulary;

pub use inverse::{generate_inverse, DecodeError};
pub use sentence::{generate, generate_from, short, short_from};
