use crate::pattern::PatternCache;
use vstd::prelude::*;

verus! {

/// The pricing engine. It holds nothing between calculations but the
/// matchers of the patterns it has met, so that none is compiled twice.
pub struct PricingEngine {
    pub regex_cache: PatternCache,
}

impl PricingEngine {
    /// The patterns whose matchers the engine holds, in the order in which
    /// it first met them.
    pub open spec fn cached_patterns(&self) -> Seq<Seq<char>> {
        self.regex_cache.patterns()
    }

    /// An engine that has met no pattern yet.
    pub fn new() -> (r: PricingEngine)
        ensures
            r.cached_patterns() == Seq::<Seq<char>>::empty(),
    {
        PricingEngine { regex_cache: PatternCache::new() }
    }

    /// The number of matchers the engine holds.
    pub fn cached_count(&self) -> (n: usize)
        ensures
            n == self.cached_patterns().len(),
    {
        self.regex_cache.len()
    }
}

impl Default for PricingEngine {
    fn default() -> (r: PricingEngine)
        ensures
            r.cached_patterns() == Seq::<Seq<char>>::empty(),
    {
        PricingEngine::new()
    }
}

} // verus!
