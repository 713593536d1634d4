//! FirmState: the operating model, the non-monetary half of the
//! authoritative state. Everything here is integer and fixed-capacity.
//!
//! - Inventory reconciliation: each product line carries both its unit count
//!   and its carrying value, and the value moves by exactly the integer
//!   posted to the `Inventory` account. Selling the last unit sweeps the
//!   entire remaining value into COGS, so an emptied line holds no value.
//! - No mark-to-market postings: an open position stores its entry level and
//!   nothing else. Unrealised P&L is a derived view, never a journal entry.
use crate::genesis::{FirmParams, MAX_SKUS};
use crate::money::{floor_half_up, floor_half_up_result, i64_fits, MoneyError};
use vstd::prelude::*;

verus! {

pub const MAX_PROJECTS: usize = 8;
pub const MAX_OFFERS: usize = 8;
pub const MAX_POSITIONS: usize = 8;

/// Prices are bounded so an intent cannot drive revenue arithmetic toward
/// i64 limits.
pub const MIN_PRICE_MINOR: i64 = 1;
pub const MAX_PRICE_MINOR: i64 = 10_000_000;
pub const MAX_ORDER_UNITS: u32 = 1_000_000;

#[derive(Debug, Clone, Copy, PartialEq, Eq, Structural)]
pub enum FirmError {
    UnknownSku { sku: u8 },
    UnknownProject { project_id: u32 },
    UnknownOffer { offer_id: u32 },
    UnknownPosition { position_id: u32 },
    RegistryFull,
    ProjectNotActive { project_id: u32 },
    OfferNotOpen { offer_id: u32 },
    PositionNotOpen { position_id: u32 },
    PriceOutOfRange { price_minor: i64 },
    OrderTooLarge { units: u32 },
    InventoryShort { have: u32, want: u32 },
    Overflow,
}

#[derive(Debug, Clone, Copy, PartialEq, Eq, Structural)]
pub struct SkuState {
    pub unit_price_minor: i64,
    pub inventory_units: u32,
    /// Carrying value of `inventory_units`, mirroring the ledger to the minor
    /// unit. Never derived by division.
    pub inventory_value_minor: i64,
}

#[derive(Debug, Clone, Copy, PartialEq, Eq, Structural)]
pub enum ProjectStatus {
    Active,
    /// Written off. The capitalised spend is expensed on the way out.
    Abandoned,
    /// Ran its course: terminal like `Abandoned`, but carries no write-off.
    Completed,
}

#[derive(Debug, Clone, Copy, PartialEq, Eq, Structural)]
pub struct Project {
    /// Capital already sunk.
    pub committed_minor: i64,
    pub status: ProjectStatus,
    /// Number of times the player explicitly chose to continue.
    pub continue_count: u32,
}

#[derive(Debug, Clone, Copy, PartialEq, Eq, Structural)]
pub enum OfferKind {
    /// Pay a premium now against a modelled loss.
    Insurance,
    /// Buy capacity now for future throughput.
    Expansion,
}

#[derive(Debug, Clone, Copy, PartialEq, Eq, Structural)]
pub enum OfferStatus {
    Open,
    Accepted,
    Declined,
}

#[derive(Debug, Clone, Copy, PartialEq, Eq, Structural)]
pub struct Offer {
    pub kind: OfferKind,
    pub cost_minor: i64,
    pub status: OfferStatus,
}

#[derive(Debug, Clone, Copy, PartialEq, Eq, Structural)]
pub enum PositionStatus {
    Open,
    Closed,
}

#[derive(Debug, Clone, Copy, PartialEq, Eq, Structural)]
pub struct Position {
    pub instrument: u8,
    pub notional_minor: i64,
    /// Equity index level at entry, in centi-points.
    pub entry_index_centi: i64,
    pub status: PositionStatus,
}

/// The exhaustive catalog of non-monetary mutations.
#[derive(Debug, Clone, Copy, PartialEq, Eq, Structural)]
pub enum FirmEffect {
    NoChange,
    SetPrice { sku: u8, price_minor: i64 },
    AddInventory { sku: u8, units: u32, cost_minor: i64 },
    ConsumeInventory { sku: u8, units: u32, cogs_minor: i64 },
    CommitToProject { project_id: u32, amount_minor: i64 },
    ContinueProject { project_id: u32 },
    AbandonProject { project_id: u32 },
    /// Director-side retirement of a planted probe project. No write-off.
    CompleteProject { project_id: u32 },
    ResolveOffer { offer_id: u32, accepted: bool },
    OpenPosition { instrument: u8, notional_minor: i64, entry_index_centi: i64 },
    ClosePosition { position_id: u32 },
}

/// The registries of a firm, as sequences.
pub struct FirmView {
    pub skus: Seq<SkuState>,
    pub projects: Seq<Option<Project>>,
    pub offers: Seq<Option<Offer>>,
    pub positions: Seq<Option<Position>>,
}

#[derive(Debug, Clone, Copy, PartialEq, Eq)]
pub struct FirmState {
    skus: [SkuState; MAX_SKUS],
    projects: [Option<Project>; MAX_PROJECTS],
    offers: [Option<Offer>; MAX_OFFERS],
    positions: [Option<Position>; MAX_POSITIONS],
}

impl View for FirmState {
    type V = FirmView;

    closed spec fn view(&self) -> FirmView {
        FirmView {
            skus: self.skus@,
            projects: self.projects@,
            offers: self.offers@,
            positions: self.positions@,
        }
    }
}

pub open spec fn firm_view_ok(v: FirmView) -> bool {
    &&& v.skus.len() == MAX_SKUS
    &&& v.projects.len() == MAX_PROJECTS
    &&& v.offers.len() == MAX_OFFERS
    &&& v.positions.len() == MAX_POSITIONS
}

pub open spec fn price_in_range(p: i64) -> bool {
    MIN_PRICE_MINOR <= p <= MAX_PRICE_MINOR
}

/// Index of the first empty position slot, if any.
pub open spec fn first_free(s: Seq<Option<Position>>, n: int) -> Option<int>
    decreases n,
{
    if n <= 0 {
        None
    } else {
        match first_free(s, n - 1) {
            Some(i) => Some(i),
            None => if s[n - 1] is None {
                Some(n - 1)
            } else {
                None
            },
        }
    }
}

/// What `apply_effect` does to a firm: the new registries, or the refusal.
pub open spec fn apply_effect_spec(f: FirmView, e: FirmEffect) -> Result<FirmView, FirmError> {
    match e {
        FirmEffect::NoChange => Ok(f),
        FirmEffect::SetPrice { sku, price_minor } => {
            if !price_in_range(price_minor) {
                Err(FirmError::PriceOutOfRange { price_minor })
            } else if sku >= MAX_SKUS {
                Err(FirmError::UnknownSku { sku })
            } else {
                Ok(
                    FirmView {
                        skus: f.skus.update(
                            sku as int,
                            SkuState { unit_price_minor: price_minor, ..f.skus[sku as int] },
                        ),
                        ..f
                    },
                )
            }
        },
        FirmEffect::AddInventory { sku, units, cost_minor } => {
            if units > MAX_ORDER_UNITS {
                Err(FirmError::OrderTooLarge { units })
            } else if sku >= MAX_SKUS {
                Err(FirmError::UnknownSku { sku })
            } else {
                let s = f.skus[sku as int];
                if s.inventory_units + units > u32::MAX || !i64_fits(
                    s.inventory_value_minor + cost_minor,
                ) {
                    Err(FirmError::Overflow)
                } else {
                    Ok(
                        FirmView {
                            skus: f.skus.update(
                                sku as int,
                                SkuState {
                                    inventory_units: (s.inventory_units + units) as u32,
                                    inventory_value_minor: (s.inventory_value_minor
                                        + cost_minor) as i64,
                                    ..s
                                },
                            ),
                            ..f
                        },
                    )
                }
            }
        },
        FirmEffect::ConsumeInventory { sku, units, cogs_minor } => {
            if sku >= MAX_SKUS {
                Err(FirmError::UnknownSku { sku })
            } else {
                let s = f.skus[sku as int];
                if units > s.inventory_units {
                    Err(FirmError::InventoryShort { have: s.inventory_units, want: units })
                } else if !i64_fits(s.inventory_value_minor - cogs_minor) {
                    Err(FirmError::Overflow)
                } else if s.inventory_units - units == 0 && s.inventory_value_minor - cogs_minor
                    != 0 {
                    Err(FirmError::Overflow)
                } else {
                    Ok(
                        FirmView {
                            skus: f.skus.update(
                                sku as int,
                                SkuState {
                                    inventory_units: (s.inventory_units - units) as u32,
                                    inventory_value_minor: (s.inventory_value_minor
                                        - cogs_minor) as i64,
                                    ..s
                                },
                            ),
                            ..f
                        },
                    )
                }
            }
        },
        FirmEffect::CommitToProject { project_id, amount_minor } => {
            if project_id >= MAX_PROJECTS {
                Err(FirmError::UnknownProject { project_id })
            } else {
                match f.projects[project_id as int] {
                    Some(p) => if p.status != ProjectStatus::Active {
                        Err(FirmError::ProjectNotActive { project_id })
                    } else if !i64_fits(p.committed_minor + amount_minor) {
                        Err(FirmError::Overflow)
                    } else {
                        Ok(
                            FirmView {
                                projects: f.projects.update(
                                    project_id as int,
                                    Some(
                                        Project {
                                            committed_minor: (p.committed_minor
                                                + amount_minor) as i64,
                                            ..p
                                        },
                                    ),
                                ),
                                ..f
                            },
                        )
                    },
                    None => Ok(
                        FirmView {
                            projects: f.projects.update(
                                project_id as int,
                                Some(
                                    Project {
                                        committed_minor: amount_minor,
                                        status: ProjectStatus::Active,
                                        continue_count: 0,
                                    },
                                ),
                            ),
                            ..f
                        },
                    ),
                }
            }
        },
        FirmEffect::ContinueProject { project_id } => {
            if project_id >= MAX_PROJECTS || f.projects[project_id as int] is None {
                Err(FirmError::UnknownProject { project_id })
            } else {
                let p = f.projects[project_id as int].unwrap();
                if p.status != ProjectStatus::Active {
                    Err(FirmError::ProjectNotActive { project_id })
                } else {
                    Ok(
                        FirmView {
                            projects: f.projects.update(
                                project_id as int,
                                Some(
                                    Project {
                                        continue_count: if p.continue_count == u32::MAX {
                                            u32::MAX
                                        } else {
                                            (p.continue_count + 1) as u32
                                        },
                                        ..p
                                    },
                                ),
                            ),
                            ..f
                        },
                    )
                }
            }
        },
        FirmEffect::AbandonProject { project_id } => close_project(
            f,
            project_id,
            ProjectStatus::Abandoned,
        ),
        FirmEffect::CompleteProject { project_id } => close_project(
            f,
            project_id,
            ProjectStatus::Completed,
        ),
        FirmEffect::ResolveOffer { offer_id, accepted } => {
            if offer_id >= MAX_OFFERS || f.offers[offer_id as int] is None {
                Err(FirmError::UnknownOffer { offer_id })
            } else {
                let o = f.offers[offer_id as int].unwrap();
                if o.status != OfferStatus::Open {
                    Err(FirmError::OfferNotOpen { offer_id })
                } else {
                    Ok(
                        FirmView {
                            offers: f.offers.update(
                                offer_id as int,
                                Some(
                                    Offer {
                                        status: if accepted {
                                            OfferStatus::Accepted
                                        } else {
                                            OfferStatus::Declined
                                        },
                                        ..o
                                    },
                                ),
                            ),
                            ..f
                        },
                    )
                }
            }
        },
        FirmEffect::OpenPosition { instrument, notional_minor, entry_index_centi } => {
            match first_free(f.positions, MAX_POSITIONS as int) {
                None => Err(FirmError::RegistryFull),
                Some(i) => Ok(
                    FirmView {
                        positions: f.positions.update(
                            i,
                            Some(
                                Position {
                                    instrument,
                                    notional_minor,
                                    entry_index_centi,
                                    status: PositionStatus::Open,
                                },
                            ),
                        ),
                        ..f
                    },
                ),
            }
        },
        FirmEffect::ClosePosition { position_id } => {
            if position_id >= MAX_POSITIONS || f.positions[position_id as int] is None {
                Err(FirmError::UnknownPosition { position_id })
            } else {
                let p = f.positions[position_id as int].unwrap();
                if p.status != PositionStatus::Open {
                    Err(FirmError::PositionNotOpen { position_id })
                } else {
                    Ok(
                        FirmView {
                            positions: f.positions.update(
                                position_id as int,
                                Some(Position { status: PositionStatus::Closed, ..p }),
                            ),
                            ..f
                        },
                    )
                }
            }
        },
    }
}

/// Retire an active project with a terminal status.
pub open spec fn close_project(f: FirmView, project_id: u32, status: ProjectStatus) -> Result<
    FirmView,
    FirmError,
> {
    if project_id >= MAX_PROJECTS || f.projects[project_id as int] is None {
        Err(FirmError::UnknownProject { project_id })
    } else {
        let p = f.projects[project_id as int].unwrap();
        if p.status != ProjectStatus::Active {
            Err(FirmError::ProjectNotActive { project_id })
        } else {
            Ok(
                FirmView {
                    projects: f.projects.update(
                        project_id as int,
                        Some(Project { status, ..p }),
                    ),
                    ..f
                },
            )
        }
    }
}

/// Cost of goods for `units` of a line holding `s`: the whole value when the
/// line is emptied, otherwise the proportional share, floor-half-up.
pub open spec fn cogs_spec(s: SkuState, units: u32) -> Result<i64, FirmError> {
    if units > s.inventory_units {
        Err(FirmError::InventoryShort { have: s.inventory_units, want: units })
    } else if units == 0 {
        Ok(0)
    } else if units == s.inventory_units {
        Ok(s.inventory_value_minor)
    } else {
        match floor_half_up_result(
            s.inventory_value_minor * units,
            s.inventory_units as int,
        ) {
            Ok(q) => if i64_fits(q) {
                Ok(q as i64)
            } else {
                Err(FirmError::Overflow)
            },
            Err(_) => Err(FirmError::Overflow),
        }
    }
}

/// Realised profit on closing `p` at `index_centi`, floor-half-up:
/// (index - entry) x notional / max(entry, 1).
pub open spec fn pnl_spec(p: Position, index_centi: i64) -> Result<i64, FirmError> {
    let num = (index_centi - p.entry_index_centi) * p.notional_minor;
    let den = if p.entry_index_centi >= 1 {
        p.entry_index_centi as int
    } else {
        1
    };
    match floor_half_up_result(num, den) {
        Ok(q) => if i64_fits(q) {
            Ok(q as i64)
        } else {
            Err(FirmError::Overflow)
        },
        Err(_) => Err(FirmError::Overflow),
    }
}

/// A position's mark-to-market has the sign of the index move: nothing at
/// the entry level, a gain above it and a loss below it (long notional).
pub proof fn law_position_pnl_is_signed(p: Position, index_centi: i64)
    requires
        p.notional_minor >= 0,
        pnl_spec(p, index_centi) is Ok,
    ensures
        index_centi == p.entry_index_centi ==> pnl_spec(p, index_centi)->Ok_0 == 0,
        index_centi > p.entry_index_centi ==> pnl_spec(p, index_centi)->Ok_0 >= 0,
        index_centi < p.entry_index_centi ==> pnl_spec(p, index_centi)->Ok_0 <= 0,
{
    let num = (index_centi - p.entry_index_centi) * p.notional_minor;
    let den: int = if p.entry_index_centi >= 1 {
        p.entry_index_centi as int
    } else {
        1
    };
    if index_centi == p.entry_index_centi {
        assert(num == 0) by (nonlinear_arith)
            requires
                num == (index_centi - p.entry_index_centi) * p.notional_minor,
                index_centi == p.entry_index_centi,
        ;
        assert((2 * num + den) / (2 * den) == 0) by (nonlinear_arith)
            requires
                num == 0,
                den >= 1,
        ;
    } else if index_centi > p.entry_index_centi {
        assert(num >= 0) by (nonlinear_arith)
            requires
                num == (index_centi - p.entry_index_centi) * p.notional_minor,
                index_centi > p.entry_index_centi,
                p.notional_minor >= 0,
        ;
        assert((2 * num + den) / (2 * den) >= 0) by (nonlinear_arith)
            requires
                num >= 0,
                den >= 1,
        ;
    } else {
        assert(num <= 0) by (nonlinear_arith)
            requires
                num == (index_centi - p.entry_index_centi) * p.notional_minor,
                index_centi < p.entry_index_centi,
                p.notional_minor >= 0,
        ;
        assert((2 * num + den) / (2 * den) <= 0) by (nonlinear_arith)
            requires
                num <= 0,
                den >= 1,
        ;
    }
}

/// Slot index of a registry id: ids are plain indices.
pub fn slot(id: u32) -> (r: Result<usize, FirmError>)
    ensures
        r == Ok::<usize, FirmError>(id as usize),
{
    Ok(id as usize)
}

/// Lowest index whose slot is empty, else the lowest whose occupant is
/// retired, else `RegistryFull`.
pub open spec fn claim_spec(occupied: Seq<bool>, retired: Seq<bool>) -> Result<usize, FirmError> {
    if exists|i: int| 0 <= i < occupied.len() && !#[trigger] occupied[i] {
        Ok((choose|i: int| 0 <= i < occupied.len() && !occupied[i] && forall|j: int|
            0 <= j < i ==> #[trigger] occupied[j]) as usize)
    } else if exists|i: int| 0 <= i < retired.len() && #[trigger] retired[i] {
        Ok((choose|i: int| 0 <= i < retired.len() && retired[i] && forall|j: int|
            0 <= j < i ==> !#[trigger] retired[j]) as usize)
    } else {
        Err(FirmError::RegistryFull)
    }
}

impl FirmState {
    /// The opening firm for `params`.
    pub open spec fn new_spec(params: FirmParams) -> FirmView {
        FirmView {
            skus: Seq::new(
                MAX_SKUS as nat,
                |i: int|
                    SkuState {
                        unit_price_minor: params.skus@[i].reference_price_minor,
                        inventory_units: 0,
                        inventory_value_minor: 0,
                    },
            ),
            projects: Seq::new(MAX_PROJECTS as nat, |i: int| None),
            offers: Seq::new(MAX_OFFERS as nat, |i: int| None),
            positions: Seq::new(MAX_POSITIONS as nat, |i: int| None),
        }
    }

    pub proof fn lemma_view(&self)
        ensures
            firm_view_ok(self@),
    {
    }

    /// Opening configuration: every line priced at its reference level with
    /// an empty warehouse.
    pub fn new(params: &FirmParams) -> (f: Self)
        ensures
            firm_view_ok(f@),
            f@ == Self::new_spec(*params),
            forall|i: int|
                0 <= i < MAX_SKUS ==> #[trigger] f@.skus[i] == (SkuState {
                    unit_price_minor: params.skus@[i].reference_price_minor,
                    inventory_units: 0,
                    inventory_value_minor: 0,
                }),
            forall|i: int| 0 <= i < MAX_PROJECTS ==> #[trigger] f@.projects[i] is None,
            forall|i: int| 0 <= i < MAX_OFFERS ==> #[trigger] f@.offers[i] is None,
            forall|i: int| 0 <= i < MAX_POSITIONS ==> #[trigger] f@.positions[i] is None,
    {
        let mut skus = [SkuState {
            unit_price_minor: MIN_PRICE_MINOR,
            inventory_units: 0,
            inventory_value_minor: 0,
        };MAX_SKUS];
        let mut i: usize = 0;
        while i < MAX_SKUS
            invariant
                i <= MAX_SKUS,
                forall|j: int|
                    0 <= j < i ==> #[trigger] skus@[j] == (SkuState {
                        unit_price_minor: params.skus@[j].reference_price_minor,
                        inventory_units: 0,
                        inventory_value_minor: 0,
                    }),
                forall|j: int|
                    i <= j < MAX_SKUS ==> #[trigger] skus@[j] == (SkuState {
                        unit_price_minor: MIN_PRICE_MINOR,
                        inventory_units: 0,
                        inventory_value_minor: 0,
                    }),
            decreases MAX_SKUS - i,
        {
            skus[i] = SkuState {
                unit_price_minor: params.skus[i].reference_price_minor,
                inventory_units: 0,
                inventory_value_minor: 0,
            };
            i = i + 1;
        }
        let f = FirmState {
            skus,
            projects: [None;MAX_PROJECTS],
            offers: [None;MAX_OFFERS],
            positions: [None;MAX_POSITIONS],
        };
        assert(f@.skus =~= Self::new_spec(*params).skus);
        assert(f@.projects =~= Self::new_spec(*params).projects);
        assert(f@.offers =~= Self::new_spec(*params).offers);
        assert(f@.positions =~= Self::new_spec(*params).positions);
        f
    }

    pub fn sku(&self, sku: u8) -> (r: Result<SkuState, FirmError>)
        ensures
            sku < MAX_SKUS ==> r == Ok::<SkuState, FirmError>(self@.skus[sku as int]),
            sku >= MAX_SKUS ==> r == Err::<SkuState, FirmError>(FirmError::UnknownSku { sku }),
    {
        if (sku as usize) < MAX_SKUS {
            Ok(self.skus[sku as usize])
        } else {
            Err(FirmError::UnknownSku { sku })
        }
    }

    /// Every product line with its id, in id order.
    pub fn skus(&self) -> (v: Vec<(u8, SkuState)>)
        ensures
            v@.len() == MAX_SKUS,
            forall|i: int| 0 <= i < MAX_SKUS ==> #[trigger] v@[i] == (i as u8, self@.skus[i]),
    {
        let mut v: Vec<(u8, SkuState)> = Vec::new();
        let mut i: usize = 0;
        while i < MAX_SKUS
            invariant
                i <= MAX_SKUS,
                v@.len() == i,
                forall|j: int| 0 <= j < i ==> #[trigger] v@[j] == (j as u8, self@.skus[j]),
            decreases MAX_SKUS - i,
        {
            v.push((i as u8, self.skus[i]));
            i = i + 1;
        }
        v
    }

    pub fn project(&self, project_id: u32) -> (r: Result<Project, FirmError>)
        ensures
            project_id < MAX_PROJECTS && self@.projects[project_id as int] is Some ==> r == Ok::<
                Project,
                FirmError,
            >(self@.projects[project_id as int].unwrap()),
            !(project_id < MAX_PROJECTS && self@.projects[project_id as int] is Some) ==> r
                == Err::<Project, FirmError>(FirmError::UnknownProject { project_id }),
    {
        if (project_id as usize) < MAX_PROJECTS {
            match self.projects[project_id as usize] {
                Some(p) => Ok(p),
                None => Err(FirmError::UnknownProject { project_id }),
            }
        } else {
            Err(FirmError::UnknownProject { project_id })
        }
    }

    pub fn offer(&self, offer_id: u32) -> (r: Result<Offer, FirmError>)
        ensures
            offer_id < MAX_OFFERS && self@.offers[offer_id as int] is Some ==> r == Ok::<
                Offer,
                FirmError,
            >(self@.offers[offer_id as int].unwrap()),
            !(offer_id < MAX_OFFERS && self@.offers[offer_id as int] is Some) ==> r == Err::<
                Offer,
                FirmError,
            >(FirmError::UnknownOffer { offer_id }),
    {
        if (offer_id as usize) < MAX_OFFERS {
            match self.offers[offer_id as usize] {
                Some(o) => Ok(o),
                None => Err(FirmError::UnknownOffer { offer_id }),
            }
        } else {
            Err(FirmError::UnknownOffer { offer_id })
        }
    }

    pub fn position(&self, position_id: u32) -> (r: Result<Position, FirmError>)
        ensures
            position_id < MAX_POSITIONS && self@.positions[position_id as int] is Some ==> r
                == Ok::<Position, FirmError>(self@.positions[position_id as int].unwrap()),
            !(position_id < MAX_POSITIONS && self@.positions[position_id as int] is Some) ==> r
                == Err::<Position, FirmError>(FirmError::UnknownPosition { position_id }),
    {
        if (position_id as usize) < MAX_POSITIONS {
            match self.positions[position_id as usize] {
                Some(p) => Ok(p),
                None => Err(FirmError::UnknownPosition { position_id }),
            }
        } else {
            Err(FirmError::UnknownPosition { position_id })
        }
    }

    /// Total carrying value across product lines (saturating). Must equal
    /// the `Inventory` ledger balance at all times.
    pub fn inventory_value_minor(&self) -> (v: i64)
        ensures
            v == sat_add(
                sat_add(
                    sat_add(0, self@.skus[0].inventory_value_minor as int),
                    self@.skus[1].inventory_value_minor as int,
                ),
                self@.skus[2].inventory_value_minor as int,
            ),
    {
        let a = saturating_add_i64(0, self.skus[0].inventory_value_minor);
        let b = saturating_add_i64(a, self.skus[1].inventory_value_minor);
        saturating_add_i64(b, self.skus[2].inventory_value_minor)
    }

    /// Open positions in ascending id order.
    pub fn open_positions(&self) -> (v: Vec<(u32, Position)>)
        ensures
            v@ == open_positions_spec(self@.positions, MAX_POSITIONS as int),
    {
        let mut v: Vec<(u32, Position)> = Vec::new();
        let mut i: usize = 0;
        while i < MAX_POSITIONS
            invariant
                i <= MAX_POSITIONS,
                self@.positions.len() == MAX_POSITIONS,
                v@ == open_positions_spec(self@.positions, i as int),
            decreases MAX_POSITIONS - i,
        {
            match self.positions[i] {
                Some(p) => {
                    if p.status == PositionStatus::Open {
                        v.push((i as u32, p));
                    }
                },
                None => {},
            }
            i = i + 1;
        }
        v
    }

    /// Director-side seeding of a fresh project. Returns the slot it landed
    /// in: the lowest empty slot, else the lowest retired one.
    pub fn open_project(&mut self, committed_minor: i64) -> (r: Result<u32, FirmError>)
        ensures
            committed_minor < 0 ==> (r == Err::<u32, FirmError>(FirmError::Overflow) && final(self)@ == old(self)@),
            committed_minor >= 0 ==> match claim_spec(
                old(self)@.projects.map_values(|p: Option<Project>| p is Some),
                old(self)@.projects.map_values(
                    |p: Option<Project>| p is Some && p.unwrap().status != ProjectStatus::Active,
                ),
            ) {
                Ok(i) => r == Ok::<u32, FirmError>(i as u32) && final(self)@ == (FirmView {
                    projects: old(self)@.projects.update(
                        i as int,
                        Some(
                            Project {
                                committed_minor,
                                status: ProjectStatus::Active,
                                continue_count: 0,
                            },
                        ),
                    ),
                    ..old(self)@
                }),
                Err(e) => r == Err::<u32, FirmError>(e) && final(self)@ == old(self)@,
            },
    {
        if committed_minor < 0 {
            return Err(FirmError::Overflow);
        }
        let mut occupied = [false;MAX_PROJECTS];
        let mut retired = [false;MAX_PROJECTS];
        let mut i: usize = 0;
        while i < MAX_PROJECTS
            invariant
                i <= MAX_PROJECTS,
                self@.projects.len() == MAX_PROJECTS,
                forall|j: int| 0 <= j < i ==> #[trigger] occupied@[j] == (self@.projects[j] is Some),
                forall|j: int|
                    0 <= j < i ==> #[trigger] retired@[j] == (self@.projects[j] is Some
                        && self@.projects[j].unwrap().status != ProjectStatus::Active),
            decreases MAX_PROJECTS - i,
        {
            match self.projects[i] {
                Some(p) => {
                    occupied[i] = true;
                    retired[i] = p.status != ProjectStatus::Active;
                },
                None => {
                    occupied[i] = false;
                    retired[i] = false;
                },
            }
            i = i + 1;
        }
        assert(occupied@ =~= self@.projects.map_values(|p: Option<Project>| p is Some));
        assert(retired@ =~= self@.projects.map_values(
            |p: Option<Project>| p is Some && p.unwrap().status != ProjectStatus::Active,
        ));
        let index = match Self::claim_slot(occupied.as_slice(), retired.as_slice()) {
            Ok(i) => i,
            Err(e) => return Err(e),
        };
        self.projects[index] = Some(
            Project { committed_minor, status: ProjectStatus::Active, continue_count: 0 },
        );
        Ok(index as u32)
    }

    /// Director-side seeding (offers are planted, never player-created).
    ///
    /// When every slot is taken the lowest-index settled entry is retired to
    /// make room: the registry holds what is currently live, while the
    /// record of what happened lives in the append-only logs. Consequence:
    /// ids are reused within a campaign.
    pub fn place_offer(&mut self, offer: Offer) -> (r: Result<u32, FirmError>)
        ensures
            match claim_spec(
                old(self)@.offers.map_values(|o: Option<Offer>| o is Some),
                old(self)@.offers.map_values(
                    |o: Option<Offer>| o is Some && o.unwrap().status != OfferStatus::Open,
                ),
            ) {
                Ok(i) => r == Ok::<u32, FirmError>(i as u32) && final(self)@ == (FirmView {
                    offers: old(self)@.offers.update(i as int, Some(offer)),
                    ..old(self)@
                }),
                Err(e) => r == Err::<u32, FirmError>(e) && final(self)@ == old(self)@,
            },
    {
        let mut occupied = [false;MAX_OFFERS];
        let mut retired = [false;MAX_OFFERS];
        let mut i: usize = 0;
        while i < MAX_OFFERS
            invariant
                i <= MAX_OFFERS,
                self@.offers.len() == MAX_OFFERS,
                forall|j: int| 0 <= j < i ==> #[trigger] occupied@[j] == (self@.offers[j] is Some),
                forall|j: int|
                    0 <= j < i ==> #[trigger] retired@[j] == (self@.offers[j] is Some
                        && self@.offers[j].unwrap().status != OfferStatus::Open),
            decreases MAX_OFFERS - i,
        {
            match self.offers[i] {
                Some(o) => {
                    occupied[i] = true;
                    retired[i] = o.status != OfferStatus::Open;
                },
                None => {
                    occupied[i] = false;
                    retired[i] = false;
                },
            }
            i = i + 1;
        }
        assert(occupied@ =~= self@.offers.map_values(|o: Option<Offer>| o is Some));
        assert(retired@ =~= self@.offers.map_values(
            |o: Option<Offer>| o is Some && o.unwrap().status != OfferStatus::Open,
        ));
        let index = match Self::claim_slot(occupied.as_slice(), retired.as_slice()) {
            Ok(i) => i,
            Err(e) => return Err(e),
        };
        self.offers[index] = Some(offer);
        Ok(index as u32)
    }

    /// Lowest empty slot, else the lowest slot whose occupant is retired.
    pub fn claim_slot(occupied: &[bool], retired: &[bool]) -> (r: Result<usize, FirmError>)
        requires
            occupied@.len() == retired@.len(),
        ensures
            r == claim_spec(occupied@, retired@),
            r matches Ok(i) ==> i < occupied@.len(),
    {
        let n = occupied.len();
        let mut i: usize = 0;
        while i < n
            invariant
                n == occupied@.len(),
                i <= n,
                forall|j: int| 0 <= j < i ==> #[trigger] occupied@[j],
            decreases n - i,
        {
            if !occupied[i] {
                proof {
                    let k = choose|k: int| 0 <= k < occupied@.len() && !occupied@[k] && forall|j: int|
                        0 <= j < k ==> #[trigger] occupied@[j];
                    assert(k == i) by {
                        if k < i {
                            assert(occupied@[k]);
                        }
                        if k > i {
                            assert(occupied@[i as int]);
                        }
                    }
                }
                return Ok(i);
            }
            i = i + 1;
        }
        let mut k: usize = 0;
        while k < n
            invariant
                n == occupied@.len(),
                n == retired@.len(),
                k <= n,
                forall|j: int| 0 <= j < n ==> #[trigger] occupied@[j],
                forall|j: int| 0 <= j < k ==> !#[trigger] retired@[j],
            decreases n - k,
        {
            if retired[k] {
                proof {
                    let m = choose|m: int| 0 <= m < retired@.len() && retired@[m] && forall|j: int|
                        0 <= j < m ==> !#[trigger] retired@[j];
                    assert(m == k) by {
                        if m < k {
                            assert(!retired@[m]);
                        }
                        if m > k {
                            assert(!retired@[k as int]);
                        }
                    }
                }
                return Ok(k);
            }
            k = k + 1;
        }
        Err(FirmError::RegistryFull)
    }

    /// How many units this line can sell given stock on hand.
    pub fn sellable_units(&self, sku: u8, wanted: u32) -> (r: Result<u32, FirmError>)
        ensures
            sku >= MAX_SKUS ==> r == Err::<u32, FirmError>(FirmError::UnknownSku { sku }),
            sku < MAX_SKUS ==> r == Ok::<u32, FirmError>(
                if self@.skus[sku as int].inventory_units < wanted {
                    self@.skus[sku as int].inventory_units
                } else {
                    wanted
                },
            ),
    {
        match self.sku(sku) {
            Ok(s) => Ok(
                if s.inventory_units < wanted {
                    s.inventory_units
                } else {
                    wanted
                },
            ),
            Err(e) => Err(e),
        }
    }

    /// Cost of goods for `units` out of this line, exact by construction:
    /// selling the whole line releases the whole carrying value.
    pub fn cogs_for(&self, sku: u8, units: u32) -> (r: Result<i64, FirmError>)
        ensures
            sku >= MAX_SKUS ==> r == Err::<i64, FirmError>(FirmError::UnknownSku { sku }),
            sku < MAX_SKUS ==> r == cogs_spec(self@.skus[sku as int], units),
    {
        let s = match self.sku(sku) {
            Ok(s) => s,
            Err(e) => return Err(e),
        };
        if units > s.inventory_units {
            return Err(FirmError::InventoryShort { have: s.inventory_units, want: units });
        }
        if units == 0 {
            return Ok(0);
        }
        if units == s.inventory_units {
            return Ok(s.inventory_value_minor);
        }
        proof {
            lemma_i64_u32_product(s.inventory_value_minor as int, units as int);
        }
        let num = (s.inventory_value_minor as i128) * (units as i128);
        let q = match floor_half_up(num, s.inventory_units as i128) {
            Ok(q) => q,
            Err(_) => return Err(FirmError::Overflow),
        };
        if q < i64::MIN as i128 || q > i64::MAX as i128 {
            return Err(FirmError::Overflow);
        }
        Ok(q as i64)
    }

    /// Perform a planned mutation. Every arm validates before it writes; a
    /// rejected effect leaves the state untouched.
    pub fn apply_effect(&mut self, effect: FirmEffect) -> (r: Result<(), FirmError>)
        ensures
            apply_effect_spec(old(self)@, effect) matches Ok(v) ==> (r is Ok && final(self)@
                == v),
            apply_effect_spec(old(self)@, effect) matches Err(e) ==> (r == Err::<(), FirmError>(e)
                && final(self)@ == old(self)@),
    {
        match effect {
            FirmEffect::NoChange => Ok(()),
            FirmEffect::SetPrice { sku, price_minor } => {
                if !(MIN_PRICE_MINOR <= price_minor && price_minor <= MAX_PRICE_MINOR) {
                    return Err(FirmError::PriceOutOfRange { price_minor });
                }
                if (sku as usize) >= MAX_SKUS {
                    return Err(FirmError::UnknownSku { sku });
                }
                let idx = sku as usize;
                let cell = self.skus[idx];
                self.skus[idx] = SkuState { unit_price_minor: price_minor, ..cell };
                Ok(())
            },
            FirmEffect::AddInventory { sku, units, cost_minor } => {
                if units > MAX_ORDER_UNITS {
                    return Err(FirmError::OrderTooLarge { units });
                }
                if (sku as usize) >= MAX_SKUS {
                    return Err(FirmError::UnknownSku { sku });
                }
                let idx = sku as usize;
                let cell = self.skus[idx];
                let next_units = match cell.inventory_units.checked_add(units) {
                    Some(v) => v,
                    None => return Err(FirmError::Overflow),
                };
                let next_value = match cell.inventory_value_minor.checked_add(cost_minor) {
                    Some(v) => v,
                    None => return Err(FirmError::Overflow),
                };
                self.skus[idx] = SkuState {
                    inventory_units: next_units,
                    inventory_value_minor: next_value,
                    ..cell
                };
                Ok(())
            },
            FirmEffect::ConsumeInventory { sku, units, cogs_minor } => {
                if (sku as usize) >= MAX_SKUS {
                    return Err(FirmError::UnknownSku { sku });
                }
                let idx = sku as usize;
                let cell = self.skus[idx];
                if units > cell.inventory_units {
                    return Err(
                        FirmError::InventoryShort { have: cell.inventory_units, want: units },
                    );
                }
                let next_units = cell.inventory_units - units;
                let next_value = match cell.inventory_value_minor.checked_sub(cogs_minor) {
                    Some(v) => v,
                    None => return Err(FirmError::Overflow),
                };
                if next_units == 0 && next_value != 0 {
                    return Err(FirmError::Overflow);
                }
                self.skus[idx] = SkuState {
                    inventory_units: next_units,
                    inventory_value_minor: next_value,
                    ..cell
                };
                Ok(())
            },
            FirmEffect::CommitToProject { project_id, amount_minor } => {
                if (project_id as usize) >= MAX_PROJECTS {
                    return Err(FirmError::UnknownProject { project_id });
                }
                let idx = project_id as usize;
                match self.projects[idx] {
                    Some(p) => {
                        if p.status != ProjectStatus::Active {
                            return Err(FirmError::ProjectNotActive { project_id });
                        }
                        let committed = match p.committed_minor.checked_add(amount_minor) {
                            Some(v) => v,
                            None => return Err(FirmError::Overflow),
                        };
                        self.projects[idx] = Some(Project { committed_minor: committed, ..p });
                    },
                    None => {
                        self.projects[idx] = Some(
                            Project {
                                committed_minor: amount_minor,
                                status: ProjectStatus::Active,
                                continue_count: 0,
                            },
                        );
                    },
                }
                Ok(())
            },
            FirmEffect::ContinueProject { project_id } => {
                if (project_id as usize) >= MAX_PROJECTS {
                    return Err(FirmError::UnknownProject { project_id });
                }
                let idx = project_id as usize;
                match self.projects[idx] {
                    Some(p) => {
                        if p.status != ProjectStatus::Active {
                            return Err(FirmError::ProjectNotActive { project_id });
                        }
                        let count = if p.continue_count == u32::MAX {
                            u32::MAX
                        } else {
                            p.continue_count + 1
                        };
                        self.projects[idx] = Some(Project { continue_count: count, ..p });
                        Ok(())
                    },
                    None => Err(FirmError::UnknownProject { project_id }),
                }
            },
            FirmEffect::AbandonProject { project_id } => self.retire_project(
                project_id,
                ProjectStatus::Abandoned,
            ),
            FirmEffect::CompleteProject { project_id } => self.retire_project(
                project_id,
                ProjectStatus::Completed,
            ),
            FirmEffect::ResolveOffer { offer_id, accepted } => {
                if (offer_id as usize) >= MAX_OFFERS {
                    return Err(FirmError::UnknownOffer { offer_id });
                }
                let idx = offer_id as usize;
                match self.offers[idx] {
                    Some(o) => {
                        if o.status != OfferStatus::Open {
                            return Err(FirmError::OfferNotOpen { offer_id });
                        }
                        let status = if accepted {
                            OfferStatus::Accepted
                        } else {
                            OfferStatus::Declined
                        };
                        self.offers[idx] = Some(Offer { status, ..o });
                        Ok(())
                    },
                    None => Err(FirmError::UnknownOffer { offer_id }),
                }
            },
            FirmEffect::OpenPosition { instrument, notional_minor, entry_index_centi } => {
                let mut i: usize = 0;
                while i < MAX_POSITIONS
                    invariant
                        i <= MAX_POSITIONS,
                        self@ == old(self)@,
                        effect == (FirmEffect::OpenPosition {
                            instrument,
                            notional_minor,
                            entry_index_centi,
                        }),
                        self@.positions.len() == MAX_POSITIONS,
                        first_free(self@.positions, i as int) is None,
                    decreases MAX_POSITIONS - i,
                {
                    if self.positions[i].is_none() {
                        proof {
                            assert(first_free(old(self)@.positions, i as int + 1) == Some(i as int));
                        }
                        self.positions[i] = Some(
                            Position {
                                instrument,
                                notional_minor,
                                entry_index_centi,
                                status: PositionStatus::Open,
                            },
                        );
                        proof {
                            lemma_first_free_stable(old(self)@.positions, i as int + 1, MAX_POSITIONS as int);
                        }
                        return Ok(());
                    }
                    i = i + 1;
                }
                Err(FirmError::RegistryFull)
            },
            FirmEffect::ClosePosition { position_id } => {
                if (position_id as usize) >= MAX_POSITIONS {
                    return Err(FirmError::UnknownPosition { position_id });
                }
                let idx = position_id as usize;
                match self.positions[idx] {
                    Some(p) => {
                        if p.status != PositionStatus::Open {
                            return Err(FirmError::PositionNotOpen { position_id });
                        }
                        self.positions[idx] = Some(Position { status: PositionStatus::Closed, ..p });
                        Ok(())
                    },
                    None => Err(FirmError::UnknownPosition { position_id }),
                }
            },
        }
    }

    fn retire_project(&mut self, project_id: u32, status: ProjectStatus) -> (r: Result<
        (),
        FirmError,
    >)
        ensures
            close_project(old(self)@, project_id, status) matches Ok(v) ==> (r is Ok && final(self)@ == v),
            close_project(old(self)@, project_id, status) matches Err(e) ==> (r == Err::<
                (),
                FirmError,
            >(e) && final(self)@ == old(self)@),
    {
        if (project_id as usize) >= MAX_PROJECTS {
            return Err(FirmError::UnknownProject { project_id });
        }
        let idx = project_id as usize;
        match self.projects[idx] {
            Some(p) => {
                if p.status != ProjectStatus::Active {
                    return Err(FirmError::ProjectNotActive { project_id });
                }
                self.projects[idx] = Some(Project { status, ..p });
                Ok(())
            },
            None => Err(FirmError::UnknownProject { project_id }),
        }
    }
}

proof fn lemma_first_free_stable(s: Seq<Option<Position>>, k: int, n: int)
    requires
        1 <= k <= n <= s.len(),
        first_free(s, k) is Some,
    ensures
        first_free(s, n) == first_free(s, k),
    decreases n - k,
{
    if k < n {
        lemma_first_free_stable(s, k, n - 1);
    }
}

pub proof fn lemma_i64_u32_product(a: int, b: int)
    requires
        i64_fits(a),
        0 <= b <= u32::MAX,
    ensures
        -0x4000_0000_0000_0000_0000_0000_0000 <= a * b <= 0x4000_0000_0000_0000_0000_0000_0000,
{
    assert(-0x4000_0000_0000_0000_0000_0000_0000 <= a * b <= 0x4000_0000_0000_0000_0000_0000_0000)
        by (nonlinear_arith)
        requires
            -0x8000_0000_0000_0000 <= a <= 0x7fff_ffff_ffff_ffff,
            0 <= b <= 0xffff_ffff,
    ;
}

/// Saturating i64 addition.
pub open spec fn sat_add(a: int, b: int) -> int {
    if a + b > i64::MAX {
        i64::MAX as int
    } else if a + b < i64::MIN {
        i64::MIN as int
    } else {
        a + b
    }
}

pub fn saturating_add_i64(a: i64, b: i64) -> (r: i64)
    ensures
        r == sat_add(a as int, b as int),
{
    match a.checked_add(b) {
        Some(v) => v,
        None => if b > 0 {
            i64::MAX
        } else {
            i64::MIN
        },
    }
}

/// Open positions with their ids, in ascending id order, among the first `n`.
pub open spec fn open_positions_spec(s: Seq<Option<Position>>, n: int) -> Seq<(u32, Position)>
    decreases n,
{
    if n <= 0 {
        Seq::empty()
    } else {
        let prev = open_positions_spec(s, n - 1);
        match s[n - 1] {
            Some(p) => if p.status == PositionStatus::Open {
                prev.push(((n - 1) as u32, p))
            } else {
                prev
            },
            None => prev,
        }
    }
}

/// Realised profit on closing `position` at `index_centi`, in minor units.
/// Positive = gain. The same arithmetic is the derived unrealised figure
/// the view layer shows, which is never posted.
pub fn position_pnl_minor(position: &Position, index_centi: i64) -> (r: Result<i64, FirmError>)
    ensures
        r == pnl_spec(*position, index_centi),
{
    let delta = (index_centi as i128) - (position.entry_index_centi as i128);
    proof {
        assert(-0xffff_ffff_ffff_ffff <= delta <= 0xffff_ffff_ffff_ffff);
        assert(-0xffff_ffff_ffff_ffff * 0x8000_0000_0000_0000 <= delta
            * position.notional_minor <= 0xffff_ffff_ffff_ffff * 0x8000_0000_0000_0000)
            by (nonlinear_arith)
            requires
                -0xffff_ffff_ffff_ffff <= delta <= 0xffff_ffff_ffff_ffff,
                -0x8000_0000_0000_0000 <= position.notional_minor <= 0x7fff_ffff_ffff_ffff,
        ;
    }
    let num = delta * (position.notional_minor as i128);
    let den: i128 = if position.entry_index_centi >= 1 {
        position.entry_index_centi as i128
    } else {
        1
    };
    let q = match floor_half_up(num, den) {
        Ok(q) => q,
        Err(_) => return Err(FirmError::Overflow),
    };
    if q < i64::MIN as i128 || q > i64::MAX as i128 {
        return Err(FirmError::Overflow);
    }
    Ok(q as i64)
}

/// Emptying a product line releases exactly its carrying value: the cost of
/// selling every unit is the whole value, and consuming it leaves zero.
pub proof fn law_selling_the_last_unit_sweeps_all_value(f: FirmView, sku: u8)
    requires
        firm_view_ok(f),
        sku < MAX_SKUS,
        f.skus[sku as int].inventory_units > 0,
    ensures
        cogs_spec(f.skus[sku as int], f.skus[sku as int].inventory_units) == Ok::<i64, FirmError>(
            f.skus[sku as int].inventory_value_minor,
        ),
        apply_effect_spec(
            f,
            FirmEffect::ConsumeInventory {
                sku,
                units: f.skus[sku as int].inventory_units,
                cogs_minor: f.skus[sku as int].inventory_value_minor,
            },
        ) matches Ok(g) && g.skus[sku as int].inventory_units == 0
            && g.skus[sku as int].inventory_value_minor == 0,
{
}

/// No effect ever leaves an emptied line holding value that it did not
/// already hold: a consumption that would is refused.
pub proof fn law_consumption_never_strands_value(f: FirmView, sku: u8, units: u32, cogs: i64)
    requires
        firm_view_ok(f),
    ensures
        apply_effect_spec(f, FirmEffect::ConsumeInventory { sku, units, cogs_minor: cogs }) matches Ok(
            g,
        ) ==> (g.skus[sku as int].inventory_units == 0 ==> g.skus[sku as int].inventory_value_minor
            == 0),
{
}

/// Terminal states are one-way doors: no effect revives an abandoned or
/// completed project, reopens a resolved offer, or reopens a closed
/// position.
pub proof fn law_terminal_registry_states_are_final(f: FirmView, e: FirmEffect, i: int)
    requires
        firm_view_ok(f),
        0 <= i < MAX_PROJECTS,
        apply_effect_spec(f, e) is Ok,
    ensures
        f.projects[i] matches Some(p) && p.status != ProjectStatus::Active ==> apply_effect_spec(
            f,
            e,
        ).unwrap().projects[i] == f.projects[i],
        f.offers[i] matches Some(o) && o.status != OfferStatus::Open ==> apply_effect_spec(
            f,
            e,
        ).unwrap().offers[i] == f.offers[i],
        f.positions[i] matches Some(p) && p.status == PositionStatus::Closed
            ==> apply_effect_spec(f, e).unwrap().positions[i] == f.positions[i],
{
    match e {
        FirmEffect::OpenPosition { .. } => {
            let k = first_free(f.positions, MAX_POSITIONS as int);
            lemma_first_free_is_free(f.positions, MAX_POSITIONS as int);
        },
        _ => {},
    }
}

proof fn lemma_first_free_is_free(s: Seq<Option<Position>>, n: int)
    requires
        0 <= n <= s.len(),
    ensures
        first_free(s, n) matches Some(i) ==> 0 <= i < n && s[i] is None,
    decreases n,
{
    if n > 0 {
        lemma_first_free_is_free(s, n - 1);
    }
}

} // verus!
