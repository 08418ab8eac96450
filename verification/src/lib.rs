//! Client-side protocol core for a RADOS object store.
//!
//! The crate decides; a driver performs. Every operation is a function from
//! the answers the native layer has given so far to the next native call,
//! or to the operation's result: see `native` for the vocabulary. Nothing
//! in here touches the network or the native client library.
//!
//! - `cluster`, `pool`, `object` and `xattr` hold the operations.
//! - `io` holds pool contexts, completion tokens and the steps of the
//!   completion bridge; `bridge` holds the bridge as a whole and what holds
//!   of it in every order of events.
//! - `buffer` holds the capacities of the buffers whose size has to be
//!   guessed, `errors` the error classifier, `utils` the conversions
//!   between text and bytes.

pub mod bridge;
pub mod buffer;
pub mod cluster;
pub mod errors;
pub mod io;
pub mod native;
pub mod object;
pub mod pool;
pub mod rados;
pub mod utils;
pub mod xattr;
