//! The order of protocol versions: by major version, then by minor version.
use std::cmp::Ordering;
use vstd::prelude::*;
use vstd::std_specs::cmp::PartialOrdSpecImpl;

use crate::signaling::protocol::ProtocolVersion;

verus! {

/// How version `a` compares with version `b`: the major versions decide, and
/// between equal majors the minor versions.
pub open spec fn version_order(a: ProtocolVersion, b: ProtocolVersion) -> Option<Ordering> {
    if a.major < b.major {
        Some(Ordering::Less)
    } else if a.major > b.major {
        Some(Ordering::Greater)
    } else if a.minor < b.minor {
        Some(Ordering::Less)
    } else if a.minor > b.minor {
        Some(Ordering::Greater)
    } else {
        Some(Ordering::Equal)
    }
}

impl PartialOrd for ProtocolVersion {
    fn partial_cmp(&self, other: &Self) -> (r: Option<Ordering>) {
        if self.major < other.major {
            Some(Ordering::Less)
        } else if self.major > other.major {
            Some(Ordering::Greater)
        } else if self.minor < other.minor {
            Some(Ordering::Less)
        } else if self.minor > other.minor {
            Some(Ordering::Greater)
        } else {
            Some(Ordering::Equal)
        }
    }
}

impl PartialOrdSpecImpl for ProtocolVersion {
    open spec fn obeys_partial_cmp_spec() -> bool {
        true
    }

    open spec fn partial_cmp_spec(&self, other: &Self) -> Option<Ordering> {
        version_order(*self, *other)
    }
}

/// Versions order lexicographically: one is below another exactly when its major
/// version is lower, or the majors are equal and its minor version is lower.
pub proof fn lemma_versions_order_lexicographically(a: ProtocolVersion, b: ProtocolVersion)
    ensures
        version_order(a, b) == Some(Ordering::Less) <==> (a.major < b.major || (a.major
            == b.major && a.minor < b.minor)),
        version_order(a, b) == Some(Ordering::Equal) <==> a == b,
        version_order(a, b) == Some(Ordering::Greater) <==> version_order(b, a) == Some(
            Ordering::Less,
        ),
{
}

} // verus!
