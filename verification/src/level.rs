//! The round: which level is loaded, the shared counters of a round, what
//! a round has come to, and the upgrades that souls buy.

use vstd::prelude::*;
use crate::unit::{Spawner, UnitPrefab};

verus! {

/// The levels of the game, and the two requests that stand in for a level
/// until they are answered.
#[derive(Clone, Copy, Debug, PartialEq, Eq, Hash, Structural)]
pub enum Level {
    /// Nothing has been decided yet.
    Unknown,
    MainMenu,
    Level0,
    /// A request to load the level just left once more.
    Reload,
    /// A request to load the level after the one just left.
    Next,
}

impl Default for Level {
    fn default() -> (r: Level)
        ensures
            r == Level::Unknown,
    {
        Level::Unknown
    }
}

impl Level {
    /// The level that follows this one.
    pub open spec fn spec_next(self) -> Level {
        match self {
            Level::MainMenu => Level::Level0,
            _ => Level::MainMenu,
        }
    }

    /// The level that follows this one: the first level after the main
    /// menu, the main menu after everything else.
    pub fn next(&self) -> (r: Level)
        ensures
            r == self.spec_next(),
    {
        match self {
            Level::Unknown => Level::MainMenu,
            Level::MainMenu => Level::Level0,
            Level::Level0 => Level::MainMenu,
            Level::Reload => Level::MainMenu,
            Level::Next => Level::MainMenu,
        }
    }

    /// Moves on to the level that follows.
    pub fn load_next(&mut self)
        ensures
            *final(self) == old(self).spec_next(),
    {
        *self = self.next();
    }

    /// Whether this is a request, not a level.
    pub open spec fn is_request(self) -> bool {
        self == Level::Reload || self == Level::Next
    }

    /// The scene that holds the content of this level, where it has any.
    pub fn scene(&self) -> (r: Option<&'static str>)
        ensures
            match self {
                Level::MainMenu | Level::Level0 => r is Some && r.unwrap()@
                    == "scenes/Level0.scn.ron"@,
                _ => r is None,
            },
    {
        match self {
            Level::MainMenu => Some("scenes/Level0.scn.ron"),
            Level::Level0 => Some("scenes/Level0.scn.ron"),
            _ => None,
        }
    }
}

/// The counters of a round: the levels of the four upgrades, the souls
/// gathered in all, the souls in hand, the price of the next upgrade, the
/// morale of the defenders, and the instant at which the round began.
#[derive(Clone, Copy, Debug, PartialEq, Eq, Structural)]
pub struct GameStats {
    pub upgrade_speed: u8,
    pub upgrade_level: u8,
    pub upgrade_circle: u8,
    pub upgrade_appease: u8,
    pub souls_total: u32,
    pub souls_current: u32,
    pub souls_next: u32,
    pub defender_morale: u8,
    pub start_time: u64,
}

impl Default for GameStats {
    fn default() -> (r: GameStats)
        ensures
            r == GameStats::fresh(0),
    {
        GameStats {
            upgrade_speed: 0,
            upgrade_level: 0,
            upgrade_circle: 0,
            upgrade_appease: 0,
            souls_total: 0,
            souls_current: 0,
            souls_next: Self::FIRST_PRICE,
            defender_morale: Self::MAX_MORALE,
            start_time: 0,
        }
    }
}

/// What a round has come to.
#[derive(Clone, Copy, Debug, PartialEq, Eq, Structural)]
pub enum Outcome {
    /// The round goes on.
    Undecided,
    /// The morale of the defenders has reached zero.
    MoraleBroken,
    /// The time limit has been passed.
    TimeUp,
}

/// The four upgrades that souls buy.
#[derive(Clone, Copy, Debug, PartialEq, Eq, Structural)]
pub enum Upgrade {
    /// One more summoning circle.
    Circle,
    /// Faster summoning.
    Speed,
    /// One more kind of unit.
    Level,
    /// An appeasement.
    Appease,
}

impl GameStats {
    /// The morale that the defenders start a round with, and never exceed.
    pub const MAX_MORALE: u8 = 5;

    /// The most summoning circles that can be bought.
    pub const MAX_CIRCLES: u8 = 5;

    /// How long a round lasts at most, in nanoseconds.
    pub const TIME_LIMIT: u64 = 180_000_000_000;

    /// The souls that the first upgrade costs.
    pub const FIRST_PRICE: u32 = 10;

    /// The time that one appeasement stands for, in nanoseconds.
    pub const APPEASEMENT: u64 = 30_000_000_000;

    /// The counters at the start of a round that begins at `now`.
    pub open spec fn fresh(now: u64) -> GameStats {
        GameStats {
            upgrade_speed: 0,
            upgrade_level: 0,
            upgrade_circle: 0,
            upgrade_appease: 0,
            souls_total: 0,
            souls_current: 0,
            souls_next: Self::FIRST_PRICE,
            defender_morale: Self::MAX_MORALE,
            start_time: now,
        }
    }

    /// Whether the morale is within its bounds.
    pub open spec fn well_formed(self) -> bool {
        self.defender_morale <= Self::MAX_MORALE
    }

    /// The instant at which the round's time is up.
    pub open spec fn spec_time_limit(self) -> u64 {
        self.start_time.saturating_add(Self::TIME_LIMIT)
    }

    /// The instant at which the round's time is up: the start of the round
    /// plus the time limit.
    pub fn time_limit(&self) -> (r: u64)
        ensures
            r == self.spec_time_limit(),
    {
        self.start_time.saturating_add(Self::TIME_LIMIT)
    }

    /// What the round has come to at the instant `now`.
    pub open spec fn spec_outcome(self, now: u64) -> Outcome {
        if self.defender_morale == 0 {
            Outcome::MoraleBroken
        } else if self.spec_time_limit() < now {
            Outcome::TimeUp
        } else {
            Outcome::Undecided
        }
    }

    /// What the round has come to at the instant `now`: it is over once the
    /// morale has reached zero, or else once the clock has passed the time
    /// limit.
    pub fn outcome(&self, now: u64) -> (r: Outcome)
        ensures
            r == self.spec_outcome(now),
    {
        if self.defender_morale == 0 {
            Outcome::MoraleBroken
        } else if self.time_limit() < now {
            Outcome::TimeUp
        } else {
            Outcome::Undecided
        }
    }

    /// The level that `upgrade` stands at.
    pub open spec fn level_of(self, upgrade: Upgrade) -> u8 {
        match upgrade {
            Upgrade::Circle => self.upgrade_circle,
            Upgrade::Speed => self.upgrade_speed,
            Upgrade::Level => self.upgrade_level,
            Upgrade::Appease => self.upgrade_appease,
        }
    }

    /// Whether `upgrade` can be bought now: the souls in hand exceed the
    /// price, the upgrade has not reached its last level, and the new level
    /// and the new price can be held.
    pub open spec fn spec_can_purchase(self, upgrade: Upgrade) -> bool {
        &&& self.souls_current > self.souls_next
        &&& self.souls_next + self.souls_next / 2 <= u32::MAX
        &&& self.level_of(upgrade) < u8::MAX
        &&& upgrade == Upgrade::Circle ==> self.upgrade_circle < Self::MAX_CIRCLES
        &&& upgrade == Upgrade::Level ==> self.upgrade_level + 1 < UnitPrefab::spec_cardinality()
    }

    /// Whether `upgrade` can be bought now.
    pub fn can_purchase(&self, upgrade: Upgrade) -> (r: bool)
        ensures
            r == self.spec_can_purchase(upgrade),
    {
        if self.souls_current <= self.souls_next {
            return false;
        }
        if self.souls_next / 2 > u32::MAX - self.souls_next {
            return false;
        }
        match upgrade {
            Upgrade::Circle => self.upgrade_circle < Self::MAX_CIRCLES,
            Upgrade::Speed => self.upgrade_speed < u8::MAX,
            Upgrade::Level => self.upgrade_level < u8::MAX && self.upgrade_level + 1
                < UnitPrefab::cardinality(),
            Upgrade::Appease => self.upgrade_appease < u8::MAX,
        }
    }

    /// `upgrade` where it can be bought now, and nothing where it cannot.
    pub open spec fn spec_offer(self, upgrade: Upgrade) -> Seq<Upgrade> {
        if self.spec_can_purchase(upgrade) {
            seq![upgrade]
        } else {
            Seq::empty()
        }
    }

    /// The upgrades that can be bought now, in the order in which they are
    /// offered.
    pub open spec fn spec_offers(self) -> Seq<Upgrade> {
        self.spec_offer(Upgrade::Circle) + self.spec_offer(Upgrade::Speed) + self.spec_offer(
            Upgrade::Level,
        ) + self.spec_offer(Upgrade::Appease)
    }

    /// The upgrades that can be bought now, in the order in which they are
    /// offered: a summoning circle, faster summoning, a new kind of unit,
    /// an appeasement. While the souls in hand do not exceed the price
    /// there is none.
    pub fn offers(&self) -> (r: Vec<Upgrade>)
        ensures
            r@ == self.spec_offers(),
            self.souls_current <= self.souls_next ==> r@.len() == 0,
    {
        let mut offered: Vec<Upgrade> = Vec::new();
        if self.can_purchase(Upgrade::Circle) {
            offered.push(Upgrade::Circle);
        }
        if self.can_purchase(Upgrade::Speed) {
            offered.push(Upgrade::Speed);
        }
        if self.can_purchase(Upgrade::Level) {
            offered.push(Upgrade::Level);
        }
        if self.can_purchase(Upgrade::Appease) {
            offered.push(Upgrade::Appease);
        }
        offered
    }

    /// The upgrades that are offered at the instant `now`: those that can
    /// be bought while the round is undecided, and none once it is over.
    pub open spec fn spec_offers_at(self, now: u64) -> Seq<Upgrade> {
        if self.spec_outcome(now) == Outcome::Undecided {
            self.spec_offers()
        } else {
            Seq::empty()
        }
    }

    /// The upgrades that are offered at the instant `now`: those that can
    /// be bought, as long as the round is undecided. A round that is over
    /// offers none.
    pub fn offers_at(&self, now: u64) -> (r: Vec<Upgrade>)
        ensures
            r@ == self.spec_offers_at(now),
    {
        match self.outcome(now) {
            Outcome::Undecided => self.offers(),
            _ => Vec::new(),
        }
    }

    /// The counters after `upgrade` has been bought: the price is paid from
    /// the souls in hand, the price rises by half, and the upgrade stands
    /// one level higher.
    pub open spec fn spec_purchased(self, upgrade: Upgrade) -> GameStats {
        let paid = GameStats {
            souls_current: (self.souls_current - self.souls_next) as u32,
            souls_next: (self.souls_next + self.souls_next / 2) as u32,
            ..self
        };
        match upgrade {
            Upgrade::Circle => GameStats { upgrade_circle: (self.upgrade_circle + 1) as u8, ..paid },
            Upgrade::Speed => GameStats { upgrade_speed: (self.upgrade_speed + 1) as u8, ..paid },
            Upgrade::Level => GameStats { upgrade_level: (self.upgrade_level + 1) as u8, ..paid },
            Upgrade::Appease => GameStats {
                upgrade_appease: (self.upgrade_appease + 1) as u8,
                ..paid
            },
        }
    }

    /// Buys `upgrade` where it can be bought, and says whether it was.
    /// Nothing changes where it was not.
    pub fn purchase(&mut self, upgrade: Upgrade) -> (bought: bool)
        ensures
            bought == old(self).spec_can_purchase(upgrade),
            bought ==> *final(self) == old(self).spec_purchased(upgrade),
            !bought ==> *final(self) == *old(self),
    {
        if !self.can_purchase(upgrade) {
            return false;
        }
        self.souls_current = self.souls_current - self.souls_next;
        self.souls_next = self.souls_next + self.souls_next / 2;
        match upgrade {
            Upgrade::Circle => {
                self.upgrade_circle = self.upgrade_circle + 1;
            },
            Upgrade::Speed => {
                self.upgrade_speed = self.upgrade_speed + 1;
            },
            Upgrade::Level => {
                self.upgrade_level = self.upgrade_level + 1;
            },
            Upgrade::Appease => {
                self.upgrade_appease = self.upgrade_appease + 1;
            },
        }
        true
    }
}

/// Answers a request. Once `after` has been entered from `before` at the
/// instant `now`, a request to reload leads back to `before` and a request
/// to advance leads to the level that follows `before`; either way the
/// counters go back to their first values and the round's clock starts at
/// `now`. A level is no request: it leads nowhere and changes nothing.
pub fn reload_level(before: Level, after: Level, stats: &mut GameStats, now: u64) -> (r: Option<Level>)
    ensures
        r == (match after {
            Level::Reload => Some(before),
            Level::Next => Some(before.spec_next()),
            _ => None::<Level>,
        }),
        after.is_request() ==> *final(stats) == GameStats::fresh(now),
        !after.is_request() ==> *final(stats) == *old(stats),
{
    match after {
        Level::Reload => {
            *stats = GameStats::default();
            stats.start_time = now;
            Some(before)
        },
        Level::Next => {
            *stats = GameStats::default();
            stats.start_time = now;
            Some(before.next())
        },
        _ => None,
    }
}

/// Enters `level` at the instant `now`: a round starts, whether `level` is
/// a level or a request. The counters go back to their first values, the
/// round begins at `now`, and the round's first summoning circle is
/// returned. What else a level holds is its scene.
#[allow(unused_variables)]
pub fn load_level(level: Level, stats: &mut GameStats, now: u64) -> (r: Option<Spawner>)
    ensures
        r == Some(Spawner::first()),
        *final(stats) == GameStats::fresh(now),
{
    *stats = GameStats::default();
    stats.start_time = now;
    Some(Spawner::default())
}

/// Where a round stands.
#[derive(Clone, Copy, Debug, PartialEq, Eq, Structural)]
pub enum RoundState {
    /// No level has been entered yet.
    Unresolved,
    /// A round is being played.
    Active,
    /// The round is over: the morale has reached zero.
    LostMorale,
    /// The round is over: the time limit has been passed.
    LostTime,
    /// The next level has been asked for.
    AdvanceRequested,
    /// The same level has been asked for again.
    ReloadRequested,
}

/// Where the round stands at the instant `now`, given the level that is
/// entered and the counters.
pub fn round_state(level: Level, stats: &GameStats, now: u64) -> (r: RoundState)
    ensures
        r == (match level {
            Level::Unknown => RoundState::Unresolved,
            Level::Reload => RoundState::ReloadRequested,
            Level::Next => RoundState::AdvanceRequested,
            _ => match stats.spec_outcome(now) {
                Outcome::Undecided => RoundState::Active,
                Outcome::MoraleBroken => RoundState::LostMorale,
                Outcome::TimeUp => RoundState::LostTime,
            },
        }),
{
    match level {
        Level::Unknown => RoundState::Unresolved,
        Level::Reload => RoundState::ReloadRequested,
        Level::Next => RoundState::AdvanceRequested,
        _ => match stats.outcome(now) {
            Outcome::Undecided => RoundState::Active,
            Outcome::MoraleBroken => RoundState::LostMorale,
            Outcome::TimeUp => RoundState::LostTime,
        },
    }
}

/// A round that is over stays over: as long as the counters are not reset,
/// no later instant finds it undecided again.
pub proof fn lemma_lost_stays_lost(stats: GameStats, now: u64, later: u64)
    requires
        now <= later,
        stats.spec_outcome(now) != Outcome::Undecided,
    ensures
        stats.spec_outcome(later) != Outcome::Undecided,
{
}

/// A round that has just been loaded is being played: entering a level
/// leaves the morale at its full value and the time limit ahead.
pub proof fn lemma_loaded_round_is_active(now: u64)
    ensures
        GameStats::fresh(now).well_formed(),
        GameStats::fresh(now).spec_outcome(now) == Outcome::Undecided,
{
}

} // verus!
