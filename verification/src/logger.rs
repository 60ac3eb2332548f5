use core::cmp::Ordering;

use vstd::prelude::*;
use vstd::std_specs::cmp::PartialOrdSpecImpl;

verus! {

/// How much is logged, from nothing to everything; the order of the
/// variants is the order of the filters, `Off` the least.
#[derive(Debug, Clone, Copy, PartialEq, Eq, Structural, Ord)]
pub enum LevelFilter {
    Off,
    Error,
    Warn,
    Info,
    Debug,
    Trace,
}

/// The place of a filter in the order, from 0 for `Off` to 5 for `Trace`.
pub open spec fn spec_rank(l: LevelFilter) -> u8 {
    match l {
        LevelFilter::Off => 0u8,
        LevelFilter::Error => 1u8,
        LevelFilter::Warn => 2u8,
        LevelFilter::Info => 3u8,
        LevelFilter::Debug => 4u8,
        LevelFilter::Trace => 5u8,
    }
}

/// How two filters compare: by their places in the order.
pub open spec fn compare_levels(a: LevelFilter, b: LevelFilter) -> Option<Ordering> {
    if spec_rank(a) < spec_rank(b) {
        Some(Ordering::Less)
    } else if spec_rank(a) == spec_rank(b) {
        Some(Ordering::Equal)
    } else {
        Some(Ordering::Greater)
    }
}

impl LevelFilter {
    /// The place of this filter in the order.
    pub fn rank(&self) -> (r: u8)
        ensures
            r == spec_rank(*self),
    {
        match self {
            LevelFilter::Off => 0,
            LevelFilter::Error => 1,
            LevelFilter::Warn => 2,
            LevelFilter::Info => 3,
            LevelFilter::Debug => 4,
            LevelFilter::Trace => 5,
        }
    }
}

impl PartialOrd for LevelFilter {
    fn partial_cmp(&self, other: &Self) -> (r: Option<Ordering>) {
        let a = self.rank();
        let b = other.rank();
        if a < b {
            Some(Ordering::Less)
        } else if a == b {
            Some(Ordering::Equal)
        } else {
            Some(Ordering::Greater)
        }
    }
}

impl PartialOrdSpecImpl for LevelFilter {
    open spec fn obeys_partial_cmp_spec() -> bool {
        true
    }

    open spec fn partial_cmp_spec(&self, other: &Self) -> Option<Ordering> {
        compare_levels(*self, *other)
    }
}

/// The filter that a configured log level stands for, by its place in the
/// order; levels above 5 stand for none.
pub open spec fn spec_filter_from(u: u8) -> Option<LevelFilter> {
    if u == 0 {
        Some(LevelFilter::Off)
    } else if u == 1 {
        Some(LevelFilter::Error)
    } else if u == 2 {
        Some(LevelFilter::Warn)
    } else if u == 3 {
        Some(LevelFilter::Info)
    } else if u == 4 {
        Some(LevelFilter::Debug)
    } else if u == 5 {
        Some(LevelFilter::Trace)
    } else {
        None
    }
}

/// The filter that a configured log level stands for; levels above 5 stand
/// for none.
pub fn filter_from_usize(u: u8) -> (r: Option<LevelFilter>)
    ensures
        r == spec_filter_from(u),
{
    match u {
        0 => Some(LevelFilter::Off),
        1 => Some(LevelFilter::Error),
        2 => Some(LevelFilter::Warn),
        3 => Some(LevelFilter::Info),
        4 => Some(LevelFilter::Debug),
        5 => Some(LevelFilter::Trace),
        _ => None,
    }
}

/// Every filter is the one its place in the order configures.
pub proof fn lemma_filter_of_rank(f: LevelFilter)
    ensures
        spec_filter_from(spec_rank(f)) == Some(f),
{
}

/// A higher configured level stands for a filter that logs more: for
/// `u < v <= 5`, the filter of `u` is below the filter of `v`.
pub proof fn lemma_filter_order(u: u8, v: u8)
    requires
        u < v <= 5,
    ensures
        spec_filter_from(u) is Some,
        spec_filter_from(v) is Some,
        spec_rank(spec_filter_from(u)->0) < spec_rank(spec_filter_from(v)->0),
        compare_levels(spec_filter_from(u)->0, spec_filter_from(v)->0) == Some(Ordering::Less),
{
}

} // verus!
