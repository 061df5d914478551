//! Hearts of a player, and which heart icons change when they are lost or
//! won back.

use vstd::prelude::*;

verus! {

/// Hearts of a new player.
pub const FULL_HEALTH: u32 = 20;

/// Falling slower than this many blocks per second does not hurt.
pub const SAFE_FALL_SPEED: u32 = 15;

/// The hearts a player has, out of `max`.
#[derive(Clone, Copy, Debug, PartialEq, Eq, Structural)]
pub struct Health {
    pub hearts: u32,
    pub max: u32,
}

/// The numbers of the hearts above `low` up to `high`, ascending; heart
/// number one is the first heart.
pub open spec fn hearts_between(low: int, high: int) -> Seq<u32> {
    if high > low {
        Seq::new((high - low) as nat, |i: int| (low + i + 1) as u32)
    } else {
        Seq::empty()
    }
}

/// The hearts left of `hearts` after `damage`.
pub open spec fn damaged(hearts: u32, damage: u32) -> u32 {
    if damage >= hearts {
        0
    } else {
        (hearts - damage) as u32
    }
}

/// The hearts that `healing` makes of `hearts`, where `max` is the most.
pub open spec fn healed(hearts: u32, healing: u32, max: u32) -> u32 {
    if hearts + healing >= max {
        max
    } else {
        (hearts + healing) as u32
    }
}

fn count_up(low: u32, high: u32) -> (r: Vec<u32>)
    ensures
        r@ == hearts_between(low as int, high as int),
{
    let mut numbers: Vec<u32> = Vec::new();
    let mut heart: u32 = low;
    while heart < high
        invariant
            low <= heart || high <= low,
            heart <= high || high <= low,
            heart == low || low < high,
            numbers@ == hearts_between(low as int, heart as int),
        decreases high - heart,
    {
        numbers.push(heart + 1);
        heart = heart + 1;
        assert(numbers@ =~= hearts_between(low as int, heart as int));
    }
    assert(numbers@ =~= hearts_between(low as int, high as int));
    numbers
}

impl Health {
    /// Takes `damage` hearts away, down to none. Returns the numbers of the
    /// hearts that were lost, whose icons are to be hidden.
    pub fn take_damage(&mut self, damage: u32) -> (hidden: Vec<u32>)
        ensures
            final(self).hearts == damaged(old(self).hearts, damage),
            final(self).max == old(self).max,
            hidden@ == hearts_between(final(self).hearts as int, old(self).hearts as int),
    {
        let before: u32 = self.hearts;
        self.hearts = if damage >= before {
            0
        } else {
            before - damage
        };
        count_up(self.hearts, before)
    }

    /// Gives `healing` hearts back, up to `max`. Returns the numbers of the
    /// hearts that were won, whose icons are to be shown.
    pub fn heal(&mut self, healing: u32) -> (shown: Vec<u32>)
        ensures
            final(self).hearts == healed(old(self).hearts, healing, old(self).max),
            final(self).max == old(self).max,
            shown@ == hearts_between(old(self).hearts as int, final(self).hearts as int),
    {
        let before: u32 = self.hearts;
        let sum: u64 = before as u64 + healing as u64;
        self.hearts = if sum >= self.max as u64 {
            self.max
        } else {
            sum as u32
        };
        count_up(before, self.hearts)
    }
}

impl Default for Health {
    /// Full health.
    fn default() -> (r: Self)
        ensures
            r == (Health { hearts: 20, max: 20 }),
    {
        Health { hearts: FULL_HEALTH, max: FULL_HEALTH }
    }
}

/// The damage that a player has coming from the fall they are in.
#[derive(Clone, Copy, Debug, PartialEq, Eq, Structural)]
pub struct FallDamage(pub u32);

/// The damage of hitting the ground at `speed` thousandths of a block per
/// second: the whole blocks per second, counted up to `u32::MAX` at most,
/// less the safe speed.
pub open spec fn impact(speed: int) -> u32 {
    let whole = if speed / 1000 >= u32::MAX {
        u32::MAX as int
    } else {
        speed / 1000
    };
    if whole <= SAFE_FALL_SPEED {
        0
    } else {
        (whole - SAFE_FALL_SPEED) as u32
    }
}

/// The pending damage after a position update with vertical velocity
/// `velocity`, in thousandths of a block per second: it is cleared once the
/// fall has stopped, and set anew while the player falls.
pub open spec fn fall_after(pending: u32, velocity: i64) -> u32 {
    if pending != 0 && velocity > -100 {
        0
    } else if velocity < 0 {
        impact(-velocity)
    } else {
        pending
    }
}

impl FallDamage {
    /// Follows one position update of the player.
    pub fn update(&mut self, velocity: i64)
        ensures
            final(self).0 == fall_after(old(self).0, velocity),
    {
        if self.0 != 0 && velocity > -100 {
            self.0 = 0;
        } else if velocity < 0 {
            let speed: u64 = if velocity == i64::MIN {
                9223372036854775808
            } else {
                (-velocity) as u64
            };
            let whole: u32 = if speed / 1000 >= u32::MAX as u64 {
                u32::MAX
            } else {
                (speed / 1000) as u32
            };
            self.0 = if whole <= SAFE_FALL_SPEED {
                0
            } else {
                whole - SAFE_FALL_SPEED
            };
        }
    }
}

impl Default for FallDamage {
    /// No damage pending.
    fn default() -> (r: Self)
        ensures
            r.0 == 0,
    {
        FallDamage(0)
    }
}

/// What belongs to the health of a player.
#[derive(Clone, Copy, Debug, PartialEq, Eq, Structural)]
pub struct HealthBundle {
    pub health: Health,
    pub fall_damage: FallDamage,
}

impl HealthBundle {
    /// The bundle of a player with the given health who is not falling.
    pub fn from_health(health: Health) -> (r: Self)
        ensures
            r.health == health,
            r.fall_damage.0 == 0,
    {
        HealthBundle { health, fall_damage: FallDamage(0) }
    }
}

impl Default for HealthBundle {
    /// Full health, not falling.
    fn default() -> (r: Self)
        ensures
            r.health == (Health { hearts: 20, max: 20 }),
            r.fall_damage.0 == 0,
    {
        HealthBundle { health: Health { hearts: FULL_HEALTH, max: FULL_HEALTH }, fall_damage: FallDamage(0) }
    }
}

/// A change to the health of a player.
#[derive(Clone, Copy, Debug, PartialEq, Eq, Structural)]
pub enum HealthChange {
    Damage(u32),
    Heal(u32),
}

/// What the interface of a player is to show after a change of health.
#[derive(Clone, Debug)]
pub struct InterfaceUpdate {
    /// Numbers of the hearts to hide.
    pub hidden: Vec<u32>,
    /// Numbers of the hearts to show.
    pub visible: Vec<u32>,
    /// Whether to show the death screen.
    pub death_screen: bool,
}

/// Applies a change to the health of a player and tells what the interface
/// is to show: the hearts lost or won, and the death screen once damage has
/// left no heart.
pub fn change_health(health: &mut Health, change: HealthChange) -> (update: InterfaceUpdate)
    ensures
        final(health).max == old(health).max,
        match change {
            HealthChange::Damage(damage) => {
                &&& final(health).hearts == damaged(old(health).hearts, damage)
                &&& update.hidden@ == hearts_between(
                    final(health).hearts as int,
                    old(health).hearts as int,
                )
                &&& update.visible@ == Seq::<u32>::empty()
                &&& update.death_screen == (final(health).hearts == 0)
            },
            HealthChange::Heal(healing) => {
                &&& final(health).hearts == healed(old(health).hearts, healing, old(health).max)
                &&& update.visible@ == hearts_between(
                    old(health).hearts as int,
                    final(health).hearts as int,
                )
                &&& update.hidden@ == Seq::<u32>::empty()
                &&& !update.death_screen
            },
        },
{
    match change {
        HealthChange::Damage(damage) => {
            let hidden = health.take_damage(damage);
            InterfaceUpdate { hidden, visible: Vec::new(), death_screen: health.hearts == 0 }
        },
        HealthChange::Heal(healing) => {
            let visible = health.heal(healing);
            InterfaceUpdate { hidden: Vec::new(), visible, death_screen: false }
        },
    }
}

} // verus!
