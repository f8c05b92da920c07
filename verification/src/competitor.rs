//! The rival businesses: scripted agents with a pricing strategy, simulated
//! cash and stores, and the shared-market split between them and the player.

use vstd::prelude::*;
use vstd::string::StringExecFns;
use crate::money::{clamp_cash, MONEY_CAP};

verus! {

/// How a competitor prices its goods.
#[derive(Debug, Clone, Copy, PartialEq, Eq, Structural)]
pub enum PricingStrategy {
    /// Undercuts the market to win customers.
    Aggressive,
    /// Matches the market.
    Neutral,
    /// Prices above the market, drawing fewer customers.
    Premium,
}

impl PricingStrategy {
    /// The strategy's price multiplier in milli-units.
    pub open spec fn spec_price_multiplier_milli(self) -> int {
        match self {
            PricingStrategy::Aggressive => 850,
            PricingStrategy::Neutral => 1000,
            PricingStrategy::Premium => 1200,
        }
    }

    /// Returns the strategy's price multiplier in milli-units.
    pub fn price_multiplier_milli(&self) -> (r: u64)
        ensures
            r == self.spec_price_multiplier_milli(),
    {
        match self {
            PricingStrategy::Aggressive => 850,
            PricingStrategy::Neutral => 1000,
            PricingStrategy::Premium => 1200,
        }
    }

    /// The strategy's customer-attraction multiplier in milli-units.
    pub open spec fn spec_attraction_multiplier_milli(self) -> int {
        match self {
            PricingStrategy::Aggressive => 1300,
            PricingStrategy::Neutral => 1000,
            PricingStrategy::Premium => 700,
        }
    }

    /// Returns the strategy's attraction multiplier in milli-units.
    pub fn attraction_multiplier_milli(&self) -> (r: u64)
        ensures
            r == self.spec_attraction_multiplier_milli(),
            700 <= r <= 1300,
    {
        match self {
            PricingStrategy::Aggressive => 1300,
            PricingStrategy::Neutral => 1000,
            PricingStrategy::Premium => 700,
        }
    }

    /// The display name.
    pub fn name(&self) -> (r: &'static str)
        ensures
            r@ == self.spec_strategy_name(),
    {
        match self {
            PricingStrategy::Aggressive => "Aggressive",
            PricingStrategy::Neutral => "Neutral",
            PricingStrategy::Premium => "Premium",
        }
    }

    /// The display name as a character sequence.
    pub open spec fn spec_strategy_name(self) -> Seq<char> {
        match self {
            PricingStrategy::Aggressive => "Aggressive"@,
            PricingStrategy::Neutral => "Neutral"@,
            PricingStrategy::Premium => "Premium"@,
        }
    }
}

/// Something notable a competitor did.
#[derive(Debug, Clone, Copy, PartialEq, Eq, Structural)]
pub enum CompetitorEvent {
    /// The competitor switched to aggressive pricing.
    SwitchedToAggressive { competitor_id: u32 },
    /// The competitor opened a store; the count is its new total.
    OpenedStore { competitor_id: u32, store_count: u32 },
    /// The competitor answered the player's expansion with lower prices.
    CutPrices { competitor_id: u32 },
}

/// A scripted rival business.
pub struct Competitor {
    pub id: u32,
    pub name: String,
    /// How many stores it runs.
    pub store_count: u32,
    /// Average store quality in milli-units; creeps from 1000 toward 1500.
    pub store_quality_milli: u64,
    pub strategy: PricingStrategy,
    /// Simulated cash in cents, driving expansion decisions.
    pub cash: i64,
    /// Its share of market power after the last recomputation, in milli-units.
    pub base_share_milli: u64,
    /// Days since it last opened a store.
    pub days_since_expansion: u32,
}

/// A competitor's weight in the market split: stores, quality and strategy
/// multiplied (milli-squared units).
pub open spec fn spec_market_power(c: Competitor) -> int {
    c.store_count * c.store_quality_milli * c.strategy.spec_attraction_multiplier_milli()
}

/// Where one competitor stands after one day: it books simulated profit,
/// may turn aggressive under a dominant player, may open a store, and its
/// quality creeps upward between expansions.
pub open spec fn spec_competitor_step(c: Competitor, em: int, share: int) -> (
    Competitor,
    Option<CompetitorEvent>,
) {
    let days1: u32 = if c.days_since_expansion < u32::MAX {
        (c.days_since_expansion + 1) as u32
    } else {
        c.days_since_expansion
    };
    let revenue = c.store_count * 20_000 * em * (1000 - share) / 1_000_000;
    let cash1 = clamp_cash(c.cash + revenue - c.store_count * 15_000);
    if share > 400 && c.strategy != PricingStrategy::Aggressive && days1 > 10 {
        (
            Competitor {
                days_since_expansion: days1,
                cash: cash1 as i64,
                strategy: PricingStrategy::Aggressive,
                ..c
            },
            Some(CompetitorEvent::SwitchedToAggressive { competitor_id: c.id }),
        )
    } else if cash1 > 2_000_000 && days1 > 14 {
        let sc1: u32 = if c.store_count < u32::MAX {
            (c.store_count + 1) as u32
        } else {
            c.store_count
        };
        (
            Competitor {
                days_since_expansion: 0,
                cash: (cash1 - 1_000_000) as i64,
                store_count: sc1,
                ..c
            },
            Some(CompetitorEvent::OpenedStore { competitor_id: c.id, store_count: sc1 }),
        )
    } else if days1 > 7 && c.store_quality_milli < 1500 {
        let q1: u64 = if c.store_quality_milli + 10 < 1500 {
            (c.store_quality_milli + 10) as u64
        } else {
            1500
        };
        (
            Competitor {
                days_since_expansion: days1,
                cash: cash1 as i64,
                store_quality_milli: q1,
                ..c
            },
            None,
        )
    } else {
        (Competitor { days_since_expansion: days1, cash: cash1 as i64, ..c }, None)
    }
}

/// How a competitor answers the player opening a store: a neutral rival
/// with cash to spare turns aggressive at once.
pub open spec fn spec_competitor_reaction(c: Competitor) -> (Competitor, Option<CompetitorEvent>) {
    if c.strategy == PricingStrategy::Neutral && c.cash > 500_000 {
        (
            Competitor { strategy: PricingStrategy::Aggressive, ..c },
            Some(CompetitorEvent::CutPrices { competitor_id: c.id }),
        )
    } else {
        (c, None)
    }
}

impl Competitor {
    /// A valid competitor: quality within its band, cash within the cap.
    pub open spec fn wf(self) -> bool {
        &&& 1000 <= self.store_quality_milli <= 1500
        &&& -(MONEY_CAP as int) <= self.cash <= MONEY_CAP
    }

    /// Creates a competitor with standard quality and cash that grows with
    /// its store count.
    pub fn new(id: u32, name: &str, store_count: u32, strategy: PricingStrategy) -> (r: Competitor)
        ensures
            r.id == id,
            r.name@ == name@,
            r.store_count == store_count,
            r.store_quality_milli == 1000,
            r.strategy == strategy,
            r.cash == clamp_cash(1_000_000 + store_count * 500_000),
            r.base_share_milli == 0,
            r.days_since_expansion == 0,
            r.wf(),
    {
        let raw: u128 = 1_000_000u128 + store_count as u128 * 500_000;
        let cash: i64 = if raw > MONEY_CAP as u128 {
            MONEY_CAP as i64
        } else {
            raw as i64
        };
        Competitor {
            id,
            name: String::from_str(name),
            store_count,
            store_quality_milli: 1000,
            strategy,
            cash,
            base_share_milli: 0,
            days_since_expansion: 0,
        }
    }

    /// Returns this competitor's market power (milli-squared units).
    pub fn market_power(&self) -> (r: u64)
        requires
            self.wf(),
        ensures
            r == spec_market_power(*self),
            r <= 0x1_0000_0000u64 * 1500 * 1300,
    {
        proof {
            assert(self.store_count * self.store_quality_milli
                * self.strategy.spec_attraction_multiplier_milli() <= 0x1_0000_0000u64 * 1500
                * 1300 && self.store_count * self.store_quality_milli <= 0x1_0000_0000u64 * 1500)
                by (nonlinear_arith)
                requires
                    self.store_count < 0x1_0000_0000u64,
                    1000 <= self.store_quality_milli <= 1500,
                    700 <= self.strategy.spec_attraction_multiplier_milli() <= 1300,
            ;
        }
        self.store_count as u64 * self.store_quality_milli
            * self.strategy.attraction_multiplier_milli()
    }

    /// Plays one day for this competitor.
    pub fn advance_day(&mut self, economic_multiplier_milli: u64, player_share_milli: u64) -> (r:
        Option<CompetitorEvent>)
        requires
            old(self).wf(),
            500 <= economic_multiplier_milli <= 1600,
            player_share_milli <= 1000,
        ensures
            final(self).wf(),
            *final(self) == spec_competitor_step(
                *old(self),
                economic_multiplier_milli as int,
                player_share_milli as int,
            ).0,
            r == spec_competitor_step(
                *old(self),
                economic_multiplier_milli as int,
                player_share_milli as int,
            ).1,
    {
        if self.days_since_expansion < u32::MAX {
            self.days_since_expansion = self.days_since_expansion + 1;
        }

        proof {
            assert(self.store_count * 20_000 * economic_multiplier_milli * (1000
                - player_share_milli) <= 0x1_0000_0000u64 * 20_000 * 1600 * 1000
                && self.store_count * 20_000 * economic_multiplier_milli <= 0x1_0000_0000u64
                * 20_000 * 1600 && self.store_count * 20_000 <= 0x1_0000_0000u64 * 20_000
                && self.store_count * 20_000 * economic_multiplier_milli * (1000
                - player_share_milli) >= 0 && self.store_count * 15_000 <= 0x1_0000_0000u64
                * 15_000) by (nonlinear_arith)
                requires
                    self.store_count < 0x1_0000_0000u64,
                    500 <= economic_multiplier_milli <= 1600,
                    player_share_milli <= 1000,
            ;
        }
        let revenue: u128 = self.store_count as u128 * 20_000 * economic_multiplier_milli as u128
            * (1000 - player_share_milli) as u128 / 1_000_000;
        let expenses: u128 = self.store_count as u128 * 15_000;
        let balance: i128 = self.cash as i128 + revenue as i128 - expenses as i128;
        let cash1: i64 = if balance > MONEY_CAP as i128 {
            MONEY_CAP as i64
        } else if balance < -(MONEY_CAP as i128) {
            -(MONEY_CAP as i64)
        } else {
            balance as i64
        };
        self.cash = cash1;

        if player_share_milli > 400 && !matches!(self.strategy, PricingStrategy::Aggressive)
            && self.days_since_expansion > 10 {
            self.strategy = PricingStrategy::Aggressive;
            return Some(CompetitorEvent::SwitchedToAggressive { competitor_id: self.id });
        }

        if self.cash > 2_000_000 && self.days_since_expansion > 14 {
            self.cash = self.cash - 1_000_000;
            if self.store_count < u32::MAX {
                self.store_count = self.store_count + 1;
            }
            self.days_since_expansion = 0;
            return Some(
                CompetitorEvent::OpenedStore {
                    competitor_id: self.id,
                    store_count: self.store_count,
                },
            );
        }

        if self.days_since_expansion > 7 && self.store_quality_milli < 1500 {
            self.store_quality_milli = if self.store_quality_milli + 10 < 1500 {
                self.store_quality_milli + 10
            } else {
                1500
            };
        }

        None
    }

    /// Reacts to the player opening a new store.
    pub fn react_to_player_expansion(&mut self) -> (r: Option<CompetitorEvent>)
        requires
            old(self).wf(),
        ensures
            final(self).wf(),
            *final(self) == spec_competitor_reaction(*old(self)).0,
            r == spec_competitor_reaction(*old(self)).1,
    {
        if matches!(self.strategy, PricingStrategy::Neutral) && self.cash > 500_000 {
            self.strategy = PricingStrategy::Aggressive;
            return Some(CompetitorEvent::CutPrices { competitor_id: self.id });
        }
        None
    }
}

/// Builds the rivals a new game starts against.
pub fn default_competitors() -> (r: Vec<Competitor>)
    ensures
        r@.len() == 3,
        forall|i: int| 0 <= i < 3 ==> (#[trigger] r@[i]).wf(),
        forall|i: int|
            0 <= i < 3 ==> (#[trigger] r@[i]).store_quality_milli == 1000 && r@[
                i
            ].base_share_milli == 0 && r@[i].days_since_expansion == 0,
        r@[0].id == 1 && r@[0].store_count == 3 && r@[0].strategy == PricingStrategy::Aggressive
            && r@[0].cash == 2_500_000 && r@[0].name@ == "MegaMart"@,
        r@[1].id == 2 && r@[1].store_count == 2 && r@[1].strategy == PricingStrategy::Premium
            && r@[1].cash == 2_000_000 && r@[1].name@ == "Quality Goods Co"@,
        r@[2].id == 3 && r@[2].store_count == 2 && r@[2].strategy == PricingStrategy::Neutral
            && r@[2].cash == 2_000_000 && r@[2].name@ == "ValueStore"@,
{
    let mut v: Vec<Competitor> = Vec::new();
    v.push(Competitor::new(1, "MegaMart", 3, PricingStrategy::Aggressive));
    v.push(Competitor::new(2, "Quality Goods Co", 2, PricingStrategy::Premium));
    v.push(Competitor::new(3, "ValueStore", 2, PricingStrategy::Neutral));
    v
}

/// The combined store count of a roster of competitors.
pub open spec fn spec_total_stores(s: Seq<Competitor>) -> int
    decreases s.len(),
{
    if s.len() == 0 {
        0
    } else {
        spec_total_stores(s.drop_last()) + s.last().store_count
    }
}

/// The combined market power of a roster of competitors.
pub open spec fn spec_power_sum(s: Seq<Competitor>) -> int
    decreases s.len(),
{
    if s.len() == 0 {
        0
    } else {
        spec_power_sum(s.drop_last()) + spec_market_power(s.last())
    }
}

/// The player's price attractiveness from their average markup
/// (milli-percent): high markups repel, low markups attract.
pub open spec fn spec_player_price_factor(avg_markup_milli_pct: int) -> int {
    if avg_markup_milli_pct > 60_000 {
        700
    } else if avg_markup_milli_pct < 30_000 {
        1300
    } else {
        1000
    }
}

/// The player's market power, on the same milli-squared scale as the
/// competitors'.
pub open spec fn spec_player_power(store_count: int, avg_markup_milli_pct: int) -> int {
    store_count * spec_player_price_factor(avg_markup_milli_pct) * 1000
}

/// The player's market share in milli-units: their power over the total,
/// clamped into [0.05, 0.95]; an even half when nobody holds any power.
pub open spec fn spec_player_share(
    store_count: int,
    avg_markup_milli_pct: int,
    comps: Seq<Competitor>,
) -> int {
    let pp = spec_player_power(store_count, avg_markup_milli_pct);
    let total = pp + spec_power_sum(comps);
    if total > 0 {
        let raw = pp * 1000 / total;
        if raw < 50 {
            50
        } else if raw > 950 {
            950
        } else {
            raw
        }
    } else {
        500
    }
}

/// A rival's base market share against a total power, in milli-units.
pub open spec fn spec_base_share(power: int, total: int) -> int {
    if total > 0 {
        let b = power * 1000 / total;
        if b > 0xFFFF_FFFF_FFFF_FFFFu64 {
            0xFFFF_FFFF_FFFF_FFFFu64 as int
        } else {
            b
        }
    } else {
        0
    }
}

/// The roster after a share recomputation: each rival keeps everything but
/// its recomputed base share.
pub open spec fn spec_competitors_after_shares(
    comps: Seq<Competitor>,
    store_count: int,
    avg_markup_milli_pct: int,
) -> Seq<Competitor> {
    let total = spec_player_power(store_count, avg_markup_milli_pct) + spec_power_sum(comps);
    Seq::new(
        comps.len(),
        |i: int|
            Competitor {
                base_share_milli: spec_base_share(spec_market_power(comps[i]), total) as u64,
                ..comps[i]
            },
    )
}

/// The collected daily events of a roster of competitors.
pub open spec fn spec_step_events(s: Seq<Competitor>, em: int, share: int) -> Seq<CompetitorEvent>
    decreases s.len(),
{
    if s.len() == 0 {
        Seq::empty()
    } else {
        let rest = spec_step_events(s.drop_last(), em, share);
        match spec_competitor_step(s.last(), em, share).1 {
            Some(e) => rest.push(e),
            None => rest,
        }
    }
}

/// The collected reactions of a roster to the player's expansion.
pub open spec fn spec_reaction_events(s: Seq<Competitor>) -> Seq<CompetitorEvent>
    decreases s.len(),
{
    if s.len() == 0 {
        Seq::empty()
    } else {
        let rest = spec_reaction_events(s.drop_last());
        match spec_competitor_reaction(s.last()).1 {
            Some(e) => rest.push(e),
            None => rest,
        }
    }
}

/// The shared market: the rivals and the player's computed share of the
/// customer pool.
pub struct CompetitiveMarket {
    pub competitors: Vec<Competitor>,
    /// The base number of potential customers across all businesses.
    pub total_market_size: u32,
    /// The player's market share in milli-units.
    pub player_market_share_milli: u64,
}

impl CompetitiveMarket {
    /// A valid market: valid rivals, the player's share within its clamp.
    pub open spec fn wf(self) -> bool {
        &&& forall|i: int| 0 <= i < self.competitors@.len() ==> (#[trigger] self.competitors@[i]).wf()
        &&& 50 <= self.player_market_share_milli <= 950
    }

    /// Opens the market a new game starts with: three rivals and a 15%
    /// player share.
    pub fn new() -> (r: CompetitiveMarket)
        ensures
            r.wf(),
            r.competitors@.len() == 3,
            forall|i: int|
                0 <= i < 3 ==> (#[trigger] r.competitors@[i]).store_quality_milli == 1000
                    && r.competitors@[i].base_share_milli == 0
                    && r.competitors@[i].days_since_expansion == 0,
            r.competitors@[0].id == 1 && r.competitors@[0].store_count == 3 && r.competitors@[
                0
            ].strategy == PricingStrategy::Aggressive && r.competitors@[0].cash == 2_500_000,
            r.competitors@[1].id == 2 && r.competitors@[1].store_count == 2 && r.competitors@[
                1
            ].strategy == PricingStrategy::Premium && r.competitors@[1].cash == 2_000_000,
            r.competitors@[2].id == 3 && r.competitors@[2].store_count == 2 && r.competitors@[
                2
            ].strategy == PricingStrategy::Neutral && r.competitors@[2].cash == 2_000_000,
            r.total_market_size == 500,
            r.player_market_share_milli == 150,
    {
        CompetitiveMarket {
            competitors: default_competitors(),
            total_market_size: 500,
            player_market_share_milli: 150,
        }
    }

    /// Recomputes the player's market share and each rival's base share from
    /// store counts, quality, strategies and the player's average markup.
    pub fn calculate_market_shares(&mut self, player_store_count: u32, player_avg_markup_milli_pct: i64)
        requires
            old(self).wf(),
        ensures
            final(self).wf(),
            final(self).player_market_share_milli == spec_player_share(
                player_store_count as int,
                player_avg_markup_milli_pct as int,
                old(self).competitors@,
            ),
            50 <= final(self).player_market_share_milli <= 950,
            final(self).competitors@.len() == old(self).competitors@.len(),
            final(self).competitors@ == spec_competitors_after_shares(
                old(self).competitors@,
                player_store_count as int,
                player_avg_markup_milli_pct as int,
            ),
            final(self).total_market_size == old(self).total_market_size,
    {
        let ghost c0 = self.competitors@;
        let pf: u64 = if player_avg_markup_milli_pct > 60_000 {
            700
        } else if player_avg_markup_milli_pct < 30_000 {
            1300
        } else {
            1000
        };
        proof {
            assert(player_store_count * pf * 1000 <= 0x1_0000_0000u64 * 1300 * 1000
                && player_store_count * pf <= 0x1_0000_0000u64 * 1300 && player_store_count * pf
                * 1000 >= 0) by (nonlinear_arith)
                requires
                    player_store_count < 0x1_0000_0000u64,
                    700 <= pf <= 1300,
            ;
        }
        let player_power: u64 = player_store_count as u64 * pf * 1000;

        let mut power_sum: u128 = 0;
        let mut i: usize = 0;
        while i < self.competitors.len()
            invariant
                i <= c0.len(),
                *self == *old(self),
                c0 == old(self).competitors@,
                old(self).wf(),
                power_sum == spec_power_sum(c0.take(i as int)),
                power_sum <= i * (0x1_0000_0000u64 * 1500 * 1300),
            decreases c0.len() - i,
        {
            proof {
                assert(c0.take(i as int + 1).drop_last() =~= c0.take(i as int));
                assert(c0.take(i as int + 1).last() == c0[i as int]);
            }
            let p: u64 = self.competitors[i].market_power();
            proof {
                assert(power_sum + p <= (i + 1) * (0x1_0000_0000u64 * 1500 * 1300) && power_sum
                    + p <= 0x1_0000_0000_0000_0000u128 * (0x1_0000_0000u64 * 1500 * 1300))
                    by (nonlinear_arith)
                    requires
                        power_sum <= i * (0x1_0000_0000u64 * 1500 * 1300),
                        p <= 0x1_0000_0000u64 * 1500 * 1300,
                        0 <= i < 0xFFFF_FFFF_FFFF_FFFFu128,
                ;
            }
            power_sum = power_sum + p as u128;
            i = i + 1;
        }
        proof {
            assert(c0.take(c0.len() as int) =~= c0);
            assert(power_sum <= 0xFFFF_FFFF_FFFF_FFFFu128 * (0x1_0000_0000u64 * 1500 * 1300))
                by (nonlinear_arith)
                requires
                    power_sum <= i * (0x1_0000_0000u64 * 1500 * 1300),
                    i <= 0xFFFF_FFFF_FFFF_FFFFu128,
            ;
        }

        let total: u128 = player_power as u128 + power_sum;
        let share: u64 = if total > 0 {
            let raw: u128 = player_power as u128 * 1000 / total;
            if raw < 50 {
                50
            } else if raw > 950 {
                950
            } else {
                raw as u64
            }
        } else {
            500
        };
        self.player_market_share_milli = share;

        let mut j: usize = 0;
        while j < self.competitors.len()
            invariant
                j <= self.competitors@.len(),
                self.competitors@.len() == c0.len(),
                old(self).wf(),
                c0 == old(self).competitors@,
                total == spec_player_power(
                    player_store_count as int,
                    player_avg_markup_milli_pct as int,
                ) + spec_power_sum(c0),
                forall|k: int|
                    j <= k < c0.len() ==> #[trigger] self.competitors@[k] == c0[k],
                forall|k: int|
                    0 <= k < j ==> (#[trigger] self.competitors@[k]) == (Competitor {
                        base_share_milli: spec_base_share(
                            spec_market_power(c0[k]),
                            total as int,
                        ) as u64,
                        ..c0[k]
                    }),
                forall|k: int|
                    0 <= k < self.competitors@.len() ==> (#[trigger] self.competitors@[k]).wf(),
                self.player_market_share_milli == share,
                self.total_market_size == old(self).total_market_size,
                50 <= share <= 950,
            decreases c0.len() - j,
        {
            let p: u64 = self.competitors[j].market_power();
            let bs: u64 = if total > 0 {
                let b: u128 = p as u128 * 1000 / total;
                if b > u64::MAX as u128 {
                    u64::MAX
                } else {
                    b as u64
                }
            } else {
                0
            };
            set_base_share(&mut self.competitors, j, bs);
            j = j + 1;
        }
        proof {
            assert(self.competitors@ =~= spec_competitors_after_shares(
                c0,
                player_store_count as int,
                player_avg_markup_milli_pct as int,
            ));
        }
    }

    /// The multiplier the player's share puts on every store's customer
    /// count: twice the share, clamped into [0.3, 1.5].
    pub open spec fn spec_customer_multiplier(self) -> int {
        let m = 2 * self.player_market_share_milli;
        if m < 300 {
            300
        } else if m > 1500 {
            1500
        } else {
            m as int
        }
    }

    /// Returns the player's customer multiplier in milli-units.
    pub fn player_customer_multiplier(&self) -> (r: u64)
        requires
            self.wf(),
        ensures
            r == self.spec_customer_multiplier(),
            300 <= r <= 1500,
    {
        let m: u64 = 2 * self.player_market_share_milli;
        if m < 300 {
            300
        } else if m > 1500 {
            1500
        } else {
            m
        }
    }

    /// Plays one day for every rival and collects the notable events.
    pub fn advance_day(&mut self, economic_multiplier_milli: u64) -> (r: Vec<CompetitorEvent>)
        requires
            old(self).wf(),
            500 <= economic_multiplier_milli <= 1600,
        ensures
            final(self).wf(),
            final(self).competitors@.len() == old(self).competitors@.len(),
            forall|i: int|
                0 <= i < old(self).competitors@.len() ==> (#[trigger] final(self).competitors@[i])
                    == spec_competitor_step(
                    old(self).competitors@[i],
                    economic_multiplier_milli as int,
                    old(self).player_market_share_milli as int,
                ).0,
            r@ == spec_step_events(
                old(self).competitors@,
                economic_multiplier_milli as int,
                old(self).player_market_share_milli as int,
            ),
            final(self).player_market_share_milli == old(self).player_market_share_milli,
            final(self).total_market_size == old(self).total_market_size,
    {
        let ghost c0 = self.competitors@;
        let share: u64 = self.player_market_share_milli;
        let mut events: Vec<CompetitorEvent> = Vec::new();
        let mut i: usize = 0;
        while i < self.competitors.len()
            invariant
                i <= c0.len(),
                old(self).wf(),
                c0 == old(self).competitors@,
                500 <= economic_multiplier_milli <= 1600,
                share == old(self).player_market_share_milli,
                self.competitors@.len() == c0.len(),
                forall|k: int| i <= k < c0.len() ==> #[trigger] self.competitors@[k] == c0[k],
                forall|k: int|
                    0 <= k < i ==> (#[trigger] self.competitors@[k]) == spec_competitor_step(
                        c0[k],
                        economic_multiplier_milli as int,
                        share as int,
                    ).0,
                forall|k: int|
                    0 <= k < self.competitors@.len() ==> (#[trigger] self.competitors@[k]).wf(),
                events@ == spec_step_events(
                    c0.take(i as int),
                    economic_multiplier_milli as int,
                    share as int,
                ),
                self.player_market_share_milli == old(self).player_market_share_milli,
                self.total_market_size == old(self).total_market_size,
            decreases c0.len() - i,
        {
            proof {
                assert(c0.take(i as int + 1).drop_last() =~= c0.take(i as int));
                assert(c0.take(i as int + 1).last() == c0[i as int]);
            }
            let event = step_competitor(&mut self.competitors, i, economic_multiplier_milli, share);
            if let Some(e) = event {
                events.push(e);
            }
            i = i + 1;
        }
        proof {
            assert(c0.take(c0.len() as int) =~= c0);
        }
        events
    }

    /// Returns the combined store count of all rivals, saturating far
    /// beyond any reachable roster.
    pub fn total_competitor_stores(&self) -> (r: u64)
        ensures
            r == if spec_total_stores(self.competitors@) > u64::MAX {
                u64::MAX as int
            } else {
                spec_total_stores(self.competitors@)
            },
    {
        let ghost comps = self.competitors@;
        let mut total: u64 = 0;
        let mut i: usize = 0;
        while i < self.competitors.len()
            invariant
                i <= comps.len(),
                comps == self.competitors@,
                total == if spec_total_stores(comps.take(i as int)) > u64::MAX {
                    u64::MAX as int
                } else {
                    spec_total_stores(comps.take(i as int))
                },
                spec_total_stores(comps.take(i as int)) >= 0,
            decreases comps.len() - i,
        {
            proof {
                assert(comps.take(i as int + 1).drop_last() =~= comps.take(i as int));
                assert(comps.take(i as int + 1).last() == comps[i as int]);
            }
            let c: u64 = self.competitors[i].store_count as u64;
            total = if total > u64::MAX - c {
                u64::MAX
            } else {
                total + c
            };
            i = i + 1;
        }
        proof {
            assert(comps.take(comps.len() as int) =~= comps);
        }
        total
    }

    /// Returns the rival with the greatest market power, favouring the
    /// later one on a tie; nothing when there are no rivals.
    pub fn market_leader(&self) -> (r: Option<&Competitor>)
        requires
            self.wf(),
        ensures
            r is None <==> self.competitors@.len() == 0,
            r matches Some(c) ==> (exists|i: int|
                0 <= i < self.competitors@.len() && self.competitors@[i] == *c) && forall|j: int|
                0 <= j < self.competitors@.len() ==> spec_market_power(
                    #[trigger] self.competitors@[j],
                ) <= spec_market_power(*c),
    {
        if self.competitors.len() == 0 {
            return None;
        }
        let mut best: usize = 0;
        let mut best_power: u64 = self.competitors[0].market_power();
        let mut i: usize = 1;
        while i < self.competitors.len()
            invariant
                self.wf(),
                1 <= i <= self.competitors@.len(),
                best < i,
                best_power == spec_market_power(self.competitors@[best as int]),
                forall|j: int|
                    0 <= j < i ==> spec_market_power(#[trigger] self.competitors@[j])
                        <= best_power,
            decreases self.competitors@.len() - i,
        {
            let p: u64 = self.competitors[i].market_power();
            if p >= best_power {
                best = i;
                best_power = p;
            }
            i = i + 1;
        }
        Some(&self.competitors[best])
    }

    /// Lets every rival react to the player opening a store; returns the
    /// reactions.
    pub fn notify_player_expansion(&mut self) -> (r: Vec<CompetitorEvent>)
        requires
            old(self).wf(),
        ensures
            final(self).wf(),
            final(self).competitors@.len() == old(self).competitors@.len(),
            forall|i: int|
                0 <= i < old(self).competitors@.len() ==> (#[trigger] final(self).competitors@[i])
                    == spec_competitor_reaction(old(self).competitors@[i]).0,
            r@ == spec_reaction_events(old(self).competitors@),
            final(self).player_market_share_milli == old(self).player_market_share_milli,
            final(self).total_market_size == old(self).total_market_size,
    {
        let ghost c0 = self.competitors@;
        let mut events: Vec<CompetitorEvent> = Vec::new();
        let mut i: usize = 0;
        while i < self.competitors.len()
            invariant
                i <= c0.len(),
                old(self).wf(),
                c0 == old(self).competitors@,
                self.competitors@.len() == c0.len(),
                forall|k: int| i <= k < c0.len() ==> #[trigger] self.competitors@[k] == c0[k],
                forall|k: int|
                    0 <= k < i ==> (#[trigger] self.competitors@[k]) == spec_competitor_reaction(
                        c0[k],
                    ).0,
                forall|k: int|
                    0 <= k < self.competitors@.len() ==> (#[trigger] self.competitors@[k]).wf(),
                events@ == spec_reaction_events(c0.take(i as int)),
                self.player_market_share_milli == old(self).player_market_share_milli,
                self.total_market_size == old(self).total_market_size,
            decreases c0.len() - i,
        {
            proof {
                assert(c0.take(i as int + 1).drop_last() =~= c0.take(i as int));
                assert(c0.take(i as int + 1).last() == c0[i as int]);
            }
            let event = react_competitor(&mut self.competitors, i);
            if let Some(e) = event {
                events.push(e);
            }
            i = i + 1;
        }
        proof {
            assert(c0.take(c0.len() as int) =~= c0);
        }
        events
    }
}

/// Writes one rival's recomputed base share.
fn set_base_share(v: &mut Vec<Competitor>, i: usize, base_share_milli: u64)
    requires
        i < old(v)@.len(),
        old(v)@[i as int].wf(),
    ensures
        final(v)@.len() == old(v)@.len(),
        final(v)@[i as int] == (Competitor { base_share_milli, ..old(v)@[i as int] }),
        final(v)@[i as int].wf(),
        forall|k: int| 0 <= k < old(v)@.len() && k != i ==> final(v)@[k] == old(v)@[k],
{
    let c = &mut v[i];

    c.base_share_milli = base_share_milli;
}

/// Plays one day for the rival at an index.
fn step_competitor(v: &mut Vec<Competitor>, i: usize, em: u64, share: u64) -> (r: Option<
    CompetitorEvent,
>)
    requires
        i < old(v)@.len(),
        old(v)@[i as int].wf(),
        500 <= em <= 1600,
        share <= 1000,
    ensures
        final(v)@.len() == old(v)@.len(),
        final(v)@[i as int] == spec_competitor_step(old(v)@[i as int], em as int, share as int).0,
        r == spec_competitor_step(old(v)@[i as int], em as int, share as int).1,
        final(v)@[i as int].wf(),
        forall|k: int| 0 <= k < old(v)@.len() && k != i ==> final(v)@[k] == old(v)@[k],
{
    let c = &mut v[i];
    c.advance_day(em, share)
}

/// Lets the rival at an index react to the player's expansion.
fn react_competitor(v: &mut Vec<Competitor>, i: usize) -> (r: Option<CompetitorEvent>)
    requires
        i < old(v)@.len(),
        old(v)@[i as int].wf(),
    ensures
        final(v)@.len() == old(v)@.len(),
        final(v)@[i as int] == spec_competitor_reaction(old(v)@[i as int]).0,
        r == spec_competitor_reaction(old(v)@[i as int]).1,
        final(v)@[i as int].wf(),
        forall|k: int| 0 <= k < old(v)@.len() && k != i ==> final(v)@[k] == old(v)@[k],
{
    let c = &mut v[i];
    c.react_to_player_expansion()
}

} // verus!
