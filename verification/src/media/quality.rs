use vstd::prelude::*;
use vstd::string::*;

verus! {

/// A simulcast quality layer.
#[derive(Debug, Clone, Copy, PartialEq, Eq)]
pub enum QualityLayer {
    Low,
    Medium,
    High,
}

/// The layer that a bitrate (in bits per second) supports.
pub open spec fn layer_for_bitrate(bitrate: u64) -> QualityLayer {
    if bitrate < 150_000 {
        QualityLayer::Low
    } else if bitrate < 750_000 {
        QualityLayer::Medium
    } else {
        QualityLayer::High
    }
}

/// The RTP stream id of a layer.
pub open spec fn rid_of(layer: QualityLayer) -> Seq<char> {
    match layer {
        QualityLayer::Low => "l"@,
        QualityLayer::Medium => "m"@,
        QualityLayer::High => "h"@,
    }
}

impl QualityLayer {
    pub fn from_bitrate(bitrate: u64) -> (q: Self)
        ensures
            q == layer_for_bitrate(bitrate),
    {
        if bitrate < 150_000 {
            QualityLayer::Low
        } else if bitrate < 750_000 {
            QualityLayer::Medium
        } else {
            QualityLayer::High
        }
    }

    pub fn to_rid(&self) -> (r: &'static str)
        ensures
            r@ == rid_of(*self),
    {
        match self {
            QualityLayer::Low => "l",
            QualityLayer::Medium => "m",
            QualityLayer::High => "h",
        }
    }
}

/// A higher bitrate never selects a lower layer.
pub proof fn lemma_layer_monotonic(a: u64, b: u64)
    requires
        a <= b,
    ensures
        layer_rank(layer_for_bitrate(a)) <= layer_rank(layer_for_bitrate(b)),
{
}

/// The order of the layers, from low to high.
pub open spec fn layer_rank(q: QualityLayer) -> int {
    match q {
        QualityLayer::Low => 0,
        QualityLayer::Medium => 1,
        QualityLayer::High => 2,
    }
}

/// Distinct layers have distinct stream ids.
pub proof fn lemma_rids_distinct(a: QualityLayer, b: QualityLayer)
    requires
        a != b,
    ensures
        rid_of(a) != rid_of(b),
{
    reveal_strlit("l");
    reveal_strlit("m");
    reveal_strlit("h");
    assert(rid_of(a)[0] != rid_of(b)[0]);
}

} // verus!
