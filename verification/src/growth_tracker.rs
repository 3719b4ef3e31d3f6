//! Watches one price for a sudden rise.

use vstd::prelude::*;
use crate::decimal::{growth, growth_percent};

verus! {

/// Remembers the last price of one symbol.
pub struct GrowthTracker {
    pub last_price: Option<u64>,
    /// The change in percent from which a rise counts as a possible pump.
    pub growth_threshold: i128,
}

/// What one price tells the tracker: the change since the last price in
/// percent, and whether it reaches the threshold.
#[derive(Debug, Clone, Copy, PartialEq, Eq, Structural)]
pub struct PriceChange {
    pub change: i128,
    pub alarm: bool,
}

impl GrowthTracker {
    /// A tracker that has seen no price yet.
    pub fn new(growth_threshold: i128) -> (tracker: GrowthTracker)
        ensures
            tracker.last_price == None::<u64>,
            tracker.growth_threshold == growth_threshold,
    {
        GrowthTracker { last_price: None, growth_threshold }
    }

    /// Takes the next price. Where a positive last price is known, returns the
    /// change from it; the price then becomes the last price.
    pub fn update(&mut self, current_price: u64) -> (seen: Option<PriceChange>)
        ensures
            final(self).last_price == Some(current_price),
            final(self).growth_threshold == old(self).growth_threshold,
            seen == match old(self).last_price {
                Some(previous) => if previous > 0 {
                    Some(
                        PriceChange {
                            change: growth_percent(previous, current_price) as i128,
                            alarm: growth_percent(previous, current_price) >= old(
                                self,
                            ).growth_threshold,
                        },
                    )
                } else {
                    None
                },
                None => None,
            },
    {
        let seen = match self.last_price {
            Some(previous) => {
                if previous > 0 {
                    let change = growth(previous, current_price);
                    Some(PriceChange { change, alarm: change >= self.growth_threshold })
                } else {
                    None
                }
            },
            None => None,
        };
        self.last_price = Some(current_price);
        seen
    }
}

} // verus!
