//! Stand-ins for the browser's WebRTC objects in tests.
use vstd::prelude::*;

verus! {

/// A stand-in for the browser's WebRTC API; it holds nothing.
pub struct MockWebRtc;

} // verus!
