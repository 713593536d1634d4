//! The player-visible market snapshot: the only thing the outside world sees
//! of the market kernel. The kernel's continuous state evolves outside this
//! library; only its quantized, integer view enters the verified core.
use vstd::prelude::*;

verus! {

pub const MARKET_HISTORY_TICKS: usize = 512;

#[derive(Debug, Clone, Copy, PartialEq, Eq, Structural)]
pub enum Regime {
    Calm,
    Stress,
}

/// The player-visible market snapshot.
#[derive(Debug, Clone, Copy, PartialEq, Eq, Structural)]
pub struct MarketTickView {
    pub tick: u32,
    pub regime: Regime,
    pub commodity_price_minor: i64,
    pub equity_index_centi: i64,
    pub demand_index_micro: i64,
    pub rate_bp: i32,
    pub jump_occurred: bool,
}

} // verus!
