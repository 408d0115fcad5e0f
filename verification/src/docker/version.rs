//! The version of the runtime's API that a client speaks.

use crate::docker::utils::{decimal, decimal_text};
use std::cmp::Ordering;
use std::sync::atomic::AtomicUsize;
use vstd::prelude::*;
use vstd::std_specs::cmp::PartialOrdSpecImpl;
use vstd::std_specs::convert::FromSpecImpl;
use vstd::string::StringExecFns;

verus! {

/// A major and a minor version number.
#[derive(Debug, Clone, Copy, PartialEq)]
pub struct ClientVersion {
    pub minor_version: usize,
    pub major_version: usize,
}

impl ClientVersion {
    /// The version as the runtime writes it: the major number, a dot, the
    /// minor number.
    pub open spec fn text(self) -> Seq<char> {
        decimal(self.major_version as nat) + "."@ + decimal(self.minor_version as nat)
    }

    /// Writes the version: the major number, a dot, the minor number.
    pub fn to_string(&self) -> (res: String)
        ensures
            res@ == self.text(),
    {
        let mut res = decimal_text(self.major_version);
        res.append(".");
        res.append(decimal_text(self.minor_version).as_str());
        res
    }
}

impl PartialOrd for ClientVersion {
    /// Versions are ordered by their major number, and by the minor number
    /// where the major numbers are equal.
    fn partial_cmp(&self, other: &ClientVersion) -> (res: Option<Ordering>) {
        if self.major_version < other.major_version {
            Some(Ordering::Less)
        } else if self.major_version > other.major_version {
            Some(Ordering::Greater)
        } else if self.minor_version < other.minor_version {
            Some(Ordering::Less)
        } else if self.minor_version > other.minor_version {
            Some(Ordering::Greater)
        } else {
            Some(Ordering::Equal)
        }
    }
}

impl PartialOrdSpecImpl for ClientVersion {
    open spec fn obeys_partial_cmp_spec() -> bool {
        true
    }

    open spec fn partial_cmp_spec(&self, other: &ClientVersion) -> Option<Ordering> {
        if self.major_version < other.major_version {
            Some(Ordering::Less)
        } else if self.major_version > other.major_version {
            Some(Ordering::Greater)
        } else if self.minor_version < other.minor_version {
            Some(Ordering::Less)
        } else if self.minor_version > other.minor_version {
            Some(Ordering::Greater)
        } else {
            Some(Ordering::Equal)
        }
    }
}

impl From<&(AtomicUsize, AtomicUsize)> for ClientVersion {
    /// The version that a pair of shared counters holds at the moment of the
    /// call: the major number first.
    fn from(tpl: &(AtomicUsize, AtomicUsize)) -> (res: ClientVersion) {
        ClientVersion {
            major_version: tpl.0.load(std::sync::atomic::Ordering::Relaxed),
            minor_version: tpl.1.load(std::sync::atomic::Ordering::Relaxed),
        }
    }
}

impl FromSpecImpl<&(AtomicUsize, AtomicUsize)> for ClientVersion {
    open spec fn obeys_from_spec() -> bool {
        false
    }

    open spec fn from_spec(tpl: &(AtomicUsize, AtomicUsize)) -> ClientVersion {
        arbitrary()
    }
}

} // verus!
