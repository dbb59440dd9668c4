//! A crash-tolerant monotonic counter kept in two slot files of one directory.
//!
//! Every write renames the file written last onto the other file's path and
//! then writes the new value, so that at any moment one of the two files holds
//! a whole value; every read takes the larger of the values it finds and
//! clears away what a crash or a stray hand left behind.
//!
//! The crate holds this mechanism without touching a file system: the byte
//! format of a slot ([`codec`]), the directory as a mathematical value and the
//! transitions on it ([`image`]), the store that carries them out on a copy of
//! the directory in memory and records the file operations to perform
//! ([`store`]), and what holds of all of it ([`laws`]).

pub mod codec;
pub mod image;
pub mod laws;
pub mod store;

pub use crate::codec::{decode, encode, SLOT_LEN};
pub use crate::image::{Image, Step};
pub use crate::store::{FileSeq, SeqError, FRESH_FILE_NAME, STABLE_FILE_NAME};
