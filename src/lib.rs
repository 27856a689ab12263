//! A photo library server's core: the frame format of its requests and
//! responses, the decisions of a client connection, and those of a render
//! around the raw decoder.
use vstd::prelude::*;

pub mod dispatch;
pub mod render;
pub mod request;
pub mod response;
pub mod wire;

verus! {

/// Access to the catalog handle that a host keeps for its handlers.
pub trait LibraryExt<L> {
    fn library(&self) -> &L;
}

} // verus!
