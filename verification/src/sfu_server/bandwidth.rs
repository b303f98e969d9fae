//! Bandwidth estimate from the packets of the last second.
use vstd::prelude::*;

verus! {

#[verifier::external_type_specification]
#[verifier::external_body]
pub struct ExInstant(std::time::Instant);

/// `std::time::Instant::now`, the current reading of the monotonic clock; nothing is
/// claimed of it.
#[verifier::external_body]
fn instant_now() -> (t: std::time::Instant) {
    std::time::Instant::now()
}

/// `Instant::elapsed` in whole nanoseconds, truncated to 64 bits; the value depends
/// on the moment of the call, and nothing is claimed of it.
#[verifier::external_body]
fn elapsed_nanos(origin: &std::time::Instant) -> (n: u64) {
    origin.elapsed().as_nanos() as u64
}

/// The length of the window, in nanoseconds.
pub open spec fn window_nanos() -> u64 {
    1_000_000_000
}

/// A packet received at `time` is in the window that ends at `now`
/// (`Instant::duration_since` counts a later time as no time at all).
pub open spec fn in_window(time: u64, now: u64) -> bool {
    now < time || now - time <= window_nanos()
}

/// The packets of `h` that are in the window ending at `now`, in order.
pub open spec fn recent(h: Seq<(u64, usize)>, now: u64) -> Seq<(u64, usize)>
    decreases h.len(),
{
    if h.len() == 0 {
        Seq::empty()
    } else {
        let rest = recent(h.drop_last(), now);
        if in_window(h.last().0, now) {
            rest.push(h.last())
        } else {
            rest
        }
    }
}

/// The time of the last packet of `h` (0 for none).
pub open spec fn latest(h: Seq<(u64, usize)>) -> u64 {
    if h.len() == 0 {
        0
    } else {
        h.last().0
    }
}

/// `reading`, or `floor` when the reading is below it.
pub open spec fn at_least(reading: u64, floor: u64) -> u64 {
    if reading < floor {
        floor
    } else {
        reading
    }
}

/// The total size of the packets of `h`.
pub open spec fn total_size(h: Seq<(u64, usize)>) -> nat
    decreases h.len(),
{
    if h.len() == 0 {
        0
    } else {
        total_size(h.drop_last()) + h.last().1 as nat
    }
}

/// Estimates bandwidth from the packets received in the last second.
pub struct BandwidthEstimator {
    origin: std::time::Instant,
    packet_history: Vec<(u64, usize)>,
}

impl BandwidthEstimator {
    /// The packets in the window: the time each was received (in nanoseconds since
    /// the estimator was made) and its size in bytes.
    pub closed spec fn history(&self) -> Seq<(u64, usize)> {
        self.packet_history@
    }

    pub fn new() -> (e: Self)
        ensures
            e.history() == Seq::<(u64, usize)>::empty(),
    {
        Self { origin: instant_now(), packet_history: Vec::new() }
    }

    /// Records a packet at the current time and drops the packets that have left
    /// the window by a second reading of the clock. The monotonic clock never goes
    /// back, so the packet's reading is no earlier than the last stored time, and
    /// the second reading no earlier than the first.
    pub fn add_packet(&mut self, size_bytes: usize)
        ensures
            exists|t: u64, now: u64|
                {
                    &&& t >= latest(old(self).history())
                    &&& t <= now
                    &&& final(self).history() == recent(
                        old(self).history().push((t, size_bytes)),
                        now,
                    )
                },
    {
        let t = elapsed_nanos(&self.origin);
        let now = elapsed_nanos(&self.origin);
        self.add_packet_at(size_bytes, t, now);
    }

    /// Records a packet of `size_bytes` read at time `t` and drops the packets
    /// that are not in the window ending at the later reading `now`. A reading
    /// below the last stored time counts as that time, and `now` below the
    /// packet's time counts as the packet's time.
    pub fn add_packet_at(&mut self, size_bytes: usize, t: u64, now: u64)
        ensures
            final(self).history() == recent(
                old(self).history().push((at_least(t, latest(old(self).history())), size_bytes)),
                at_least(now, at_least(t, latest(old(self).history()))),
            ),
    {
        let last: u64 = if self.packet_history.len() == 0 {
            0
        } else {
            self.packet_history[self.packet_history.len() - 1].0
        };
        let t = if t < last {
            last
        } else {
            t
        };
        let now = if now < t {
            t
        } else {
            now
        };
        self.packet_history.push((t, size_bytes));
        self.retain_recent(now);
    }

    /// Drops the packets that are not in the window ending at `now`.
    pub fn retain_recent(&mut self, now: u64)
        ensures
            final(self).history() == recent(old(self).history(), now),
    {
        let ghost h = self.packet_history@;
        let mut rest: Vec<(u64, usize)> = Vec::new();
        std::mem::swap(&mut rest, &mut self.packet_history);
        let mut kept: Vec<(u64, usize)> = Vec::new();
        let mut i: usize = 0;
        while i < rest.len()
            invariant
                rest@ == h,
                i <= h.len(),
                kept@ == recent(h.take(i as int), now),
            decreases h.len() - i,
        {
            let (time, size) = rest[i];
            proof {
                assert(h.take(i + 1).drop_last() =~= h.take(i as int));
                assert(h.take(i + 1).last() == h[i as int]);
            }
            if now < time || now - time <= 1_000_000_000 {
                kept.push((time, size));
            }
            i = i + 1;
        }
        proof {
            assert(h.take(i as int) =~= h);
        }
        self.packet_history = kept;
    }

    /// The total size of the packets in the window.
    pub closed spec fn total_bytes(&self) -> nat {
        total_size(self.packet_history@)
    }

    /// Whether the estimate can be computed: the total fits in a `usize`, and eight
    /// times its low 32 bits fits in a `u32`.
    pub open spec fn estimate_fits_spec(&self) -> bool {
        self.total_bytes() <= usize::MAX && (self.total_bytes() % 0x1_0000_0000) * 8 <= u32::MAX
    }

    /// Whether [`Self::estimate_bandwidth`] can compute its estimate.
    pub fn estimate_fits(&self) -> (b: bool)
        ensures
            b == self.estimate_fits_spec(),
    {
        match self.checked_total() {
            Some(total) => (total as u64 % 0x1_0000_0000) * 8 <= 0xffff_ffff,
            None => false,
        }
    }

    /// The total size, when it fits in a `usize`.
    fn checked_total(&self) -> (r: Option<usize>)
        ensures
            match r {
                Some(t) => t == self.total_bytes(),
                None => self.total_bytes() > usize::MAX,
            },
    {
        let h = &self.packet_history;
        let mut total: usize = 0;
        let mut i: usize = 0;
        while i < h.len()
            invariant
                h@ == self.packet_history@,
                i <= h@.len(),
                total == total_size(h@.take(i as int)),
            decreases h@.len() - i,
        {
            proof {
                assert(h@.take(i + 1).drop_last() =~= h@.take(i as int));
                assert(h@.take(i + 1).last() == h@[i as int]);
            }
            let size = h[i].1;
            if size > usize::MAX - total {
                proof {
                    assert(total_size(h@.take(i + 1)) == total_size(h@.take(i as int)) + size);
                    lemma_total_prefix(h@, i + 1);
                }
                return None;
            }
            total = total + size;
            i = i + 1;
        }
        proof {
            assert(h@.take(i as int) =~= h@);
        }
        Some(total)
    }

    /// The estimated bandwidth in bits per second: eight times the bytes of the last
    /// second, taken modulo 2^32 as the conversion to `u32` does.
    pub fn estimate_bandwidth(&self) -> (bps: u32)
        requires
            self.estimate_fits_spec(),
        ensures
            bps == (self.total_bytes() % 0x1_0000_0000) * 8,
    {
        match self.checked_total() {
            Some(total) => {
                if total == 0 {
                    return 0;
                }
                let low = (total as u64 % 0x1_0000_0000) as u32;
                low * 8
            },
            None => 0,
        }
    }
}

/// The total of a prefix is at most the total of the whole.
proof fn lemma_total_prefix(h: Seq<(u64, usize)>, k: int)
    requires
        0 <= k <= h.len(),
    ensures
        total_size(h.take(k)) <= total_size(h),
    decreases h.len() - k,
{
    if k < h.len() {
        lemma_total_prefix(h, k + 1);
        assert(h.take(k + 1).drop_last() =~= h.take(k));
    } else {
        assert(h.take(k) =~= h);
    }
}

/// Every packet kept is in the window.
pub proof fn lemma_recent_in_window(h: Seq<(u64, usize)>, now: u64)
    ensures
        forall|i: int| 0 <= i < recent(h, now).len() ==> in_window((#[trigger] recent(h, now)[i]).0, now),
    decreases h.len(),
{
    if h.len() > 0 {
        lemma_recent_in_window(h.drop_last(), now);
        let rest = recent(h.drop_last(), now);
        assert forall|i: int| 0 <= i < recent(h, now).len() implies in_window(
            (#[trigger] recent(h, now)[i]).0,
            now,
        ) by {
            if i < rest.len() {
                assert(recent(h, now)[i] == rest[i]);
            }
        }
    }
}

} // verus!
