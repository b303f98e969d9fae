use vstd::prelude::*;

pub mod text;
pub mod keyed;
pub mod string_map;
pub mod sdp;
pub mod common;
pub mod signaling;
pub mod clock;
pub mod media;
pub mod sfu_server;
pub mod sfu_client;

verus! {

} // verus!
