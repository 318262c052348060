//! Access to flat-file bulletin-board message bases.
//!
//! The core is the JAM message-base engine: byte-exact codecs for its
//! fixed and variable-length records, the addressing scheme that ties the
//! header, text, index and last-read files into one logical store, and the
//! checksum-keyed search over the index.  A simpler PCBoard reader with its
//! BASIC-style packed integers lives alongside it.
//!
//! Every function here works on in-memory byte images of the files; the
//! caller reads and appends the files themselves and hands the bytes in.

pub mod jam;
pub mod pcboard;
pub mod util;
