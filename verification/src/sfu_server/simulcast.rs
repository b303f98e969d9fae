use vstd::prelude::*;

verus! {

/// The layer that a bandwidth (bits per second) calls for: 2 (high) from 1.5 Mbps,
/// 1 (medium) from 500 kbps, 0 (low) below.
pub open spec fn target_layer(bandwidth: u32) -> u8 {
    if bandwidth >= 1_500_000 {
        2
    } else if bandwidth >= 500_000 {
        1
    } else {
        0
    }
}

/// The layer chosen among `layers` for a bandwidth: the highest available layer not
/// above the target, or else the lowest available layer; 0 when none is available.
pub open spec fn chosen_layer(layers: Seq<u8>, bandwidth: u32, r: u8) -> bool {
    if layers.len() == 0 {
        r == 0
    } else if exists|i: int| 0 <= i < layers.len() && layers[i] <= target_layer(bandwidth) {
        &&& layers.contains(r)
        &&& r <= target_layer(bandwidth)
        &&& forall|i: int|
            0 <= i < layers.len() && layers[i] <= target_layer(bandwidth) ==> layers[i] <= r
    } else {
        &&& layers.contains(r)
        &&& forall|i: int| 0 <= i < layers.len() ==> r <= layers[i]
    }
}

/// Chooses simulcast layers by bandwidth.
pub struct SimulcastManager;

impl SimulcastManager {
    /// Selects the best simulcast layer based on available bandwidth.
    /// Layers are typically 0 (low), 1 (medium), 2 (high).
    pub fn select_layer(available_layers: &[u8], target_bandwidth: u32) -> (r: u8)
        ensures
            chosen_layer(available_layers@, target_bandwidth, r),
    {
        let n = available_layers.len();
        if n == 0 {
            return 0;
        }
        let target: u8 = if target_bandwidth >= 1_500_000 {
            2
        } else if target_bandwidth >= 500_000 {
            1
        } else {
            0
        };
        let mut best: Option<u8> = None;
        let mut lowest: u8 = available_layers[0];
        let mut i: usize = 0;
        while i < n
            invariant
                n == available_layers@.len(),
                n > 0,
                target == target_layer(target_bandwidth),
                i <= n,
                available_layers@.contains(lowest),
                forall|j: int| 0 <= j < i ==> lowest <= available_layers@[j],
                match best {
                    Some(b) => {
                        &&& available_layers@.contains(b)
                        &&& b <= target
                        &&& forall|j: int|
                            0 <= j < i && available_layers@[j] <= target ==> available_layers@[j]
                                <= b
                    },
                    None => forall|j: int| 0 <= j < i ==> available_layers@[j] > target,
                },
            decreases n - i,
        {
            let l = available_layers[i];
            if l < lowest {
                lowest = l;
            }
            if l <= target {
                match best {
                    Some(b) => {
                        if l > b {
                            best = Some(l);
                        }
                    },
                    None => {
                        best = Some(l);
                    },
                }
            }
            i = i + 1;
        }
        match best {
            Some(b) => b,
            None => lowest,
        }
    }
}

/// More bandwidth never selects a lower layer.
pub proof fn lemma_select_layer_monotonic(layers: Seq<u8>, a: u32, b: u32, ra: u8, rb: u8)
    requires
        a <= b,
        chosen_layer(layers, a, ra),
        chosen_layer(layers, b, rb),
    ensures
        ra <= rb,
{
    if layers.len() > 0 {
        let ia = choose|i: int| 0 <= i < layers.len() && layers[i] == ra;
        let ib = choose|i: int| 0 <= i < layers.len() && layers[i] == rb;
        if exists|i: int| 0 <= i < layers.len() && layers[i] <= target_layer(a) {
            assert(layers[ia] <= target_layer(b));
        } else {
            assert(layers[ib] == rb);
        }
    }
}

} // verus!
