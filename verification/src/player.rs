//! The player's body: health, armour, and the feedback that a hit leaves on screen.
use vstd::prelude::*;

use crate::space::Point;
use crate::ticks::{count_down, left};

verus! {

/// Full health, in thousandths of a point.
pub const PLAYER_MAX_HEALTH: u32 = 100_000;

/// Full armour, in thousandths of a point.
pub const PLAYER_MAX_ARMOR: u32 = 100_000;

/// How long a hit keeps the health display up.
pub const HUD_SHOW_TIME: u32 = 1800;

/// How long the health display takes to fade at the end.
pub const HUD_FADE_TAIL: u32 = 600;

/// The strongest flash: half of full strength, which would be twice as many units.
pub const FLASH_MAX: u32 = 120_000;

/// How much of the flash goes in one tick.
pub const FLASH_DECAY: u32 = 500;

#[derive(Clone, Copy, PartialEq, Eq, Debug, Structural)]
pub struct Player {
    /// Where the player's feet are; nowhere outside a hunt.
    pub pos: Option<Point>,
    /// Which way the player looks.
    pub yaw: i32,
    pub pitch: i32,
    pub health: u32,
    pub armor: u32,
    pub dead: bool,
    pub invulnerable: bool,
    pub invisible: bool,
    /// Time until the player comes back.
    pub respawn: u32,
    pub damage_flash: u32,
    pub hud_show_timer: u32,
}

pub open spec fn min_of(a: u32, b: u32) -> u32 {
    if a < b {
        a
    } else {
        b
    }
}

/// The flash that a hit of `dmg` leaves: one fortieth of full strength per point.
pub open spec fn flash_of(dmg: u32) -> u32 {
    if 6 * dmg >= FLASH_MAX {
        FLASH_MAX
    } else {
        (6 * dmg) as u32
    }
}

impl Player {
    /// Dead exactly when the health is gone, and nothing above its maximum.
    pub open spec fn wf(self) -> bool {
        &&& self.dead == (self.health == 0)
        &&& self.health <= PLAYER_MAX_HEALTH
        &&& self.armor <= PLAYER_MAX_ARMOR
        &&& self.damage_flash <= FLASH_MAX
        &&& self.hud_show_timer <= HUD_SHOW_TIME
    }

    /// A fresh body, with the two cheats and the position as they are.
    pub open spec fn healed(self) -> Player {
        Player {
            health: PLAYER_MAX_HEALTH,
            armor: 0,
            dead: false,
            damage_flash: 0,
            hud_show_timer: 0,
            ..self
        }
    }

    /// After `dmg`: the armour takes what it can, the health the rest.
    pub open spec fn hurt(self, dmg: u32) -> Player {
        if self.dead || self.invulnerable {
            self
        } else {
            let absorbed = min_of(self.armor, dmg);
            let health = left(self.health, (dmg - absorbed) as u32);
            Player {
                armor: (self.armor - absorbed) as u32,
                health,
                dead: health == 0,
                damage_flash: flash_of(dmg),
                hud_show_timer: HUD_SHOW_TIME,
                ..self
            }
        }
    }

    /// After `dt` without a hit.
    pub open spec fn settled(self, dt: u32) -> Player {
        Player {
            damage_flash: if self.damage_flash <= dt * FLASH_DECAY {
                0
            } else {
                (self.damage_flash - dt * FLASH_DECAY) as u32
            },
            hud_show_timer: left(self.hud_show_timer, dt),
            ..self
        }
    }

    /// A player at full health who is nowhere yet.
    pub open spec fn fresh() -> Player {
        Player {
            pos: None,
            yaw: 0,
            pitch: 0,
            health: PLAYER_MAX_HEALTH,
            armor: 0,
            dead: false,
            invulnerable: false,
            invisible: false,
            respawn: 0,
            damage_flash: 0,
            hud_show_timer: 0,
        }
    }

    pub fn new() -> (p: Player)
        ensures
            p.wf(),
            p == Player::fresh(),
    {
        Player {
            pos: None,
            yaw: 0,
            pitch: 0,
            health: PLAYER_MAX_HEALTH,
            armor: 0,
            dead: false,
            invulnerable: false,
            invisible: false,
            respawn: 0,
            damage_flash: 0,
            hud_show_timer: 0,
        }
    }

    pub fn heal(&mut self)
        ensures
            *final(self) == old(self).healed(),
            old(self).wf() ==> final(self).wf(),
    {
        self.health = PLAYER_MAX_HEALTH;
        self.armor = 0;
        self.dead = false;
        self.damage_flash = 0;
        self.hud_show_timer = 0;
    }

    /// Takes a hit.
    pub fn take_damage(&mut self, dmg: u32)
        ensures
            *final(self) == old(self).hurt(dmg),
            old(self).wf() ==> final(self).wf(),
    {
        if self.dead || self.invulnerable {
            return ;
        }
        let absorbed: u32 = if self.armor < dmg {
            self.armor
        } else {
            dmg
        };
        self.armor = self.armor - absorbed;
        self.health = count_down(self.health, dmg - absorbed);
        self.damage_flash = if 6 * (dmg as u64) >= FLASH_MAX as u64 {
            FLASH_MAX
        } else {
            6 * dmg
        };
        self.hud_show_timer = HUD_SHOW_TIME;
        if self.health == 0 {
            self.dead = true;
        }
    }

    /// Lets the feedback of the last hit fade.
    pub fn settle(&mut self, dt: u32)
        ensures
            *final(self) == old(self).settled(dt),
            old(self).wf() ==> final(self).wf(),
    {
        let gone: u64 = dt as u64 * FLASH_DECAY as u64;
        self.damage_flash = if self.damage_flash as u64 <= gone {
            0
        } else {
            (self.damage_flash as u64 - gone) as u32
        };
        self.hud_show_timer = count_down(self.hud_show_timer, dt);
    }

    /// How visible the health display is, out of [`HUD_FADE_TAIL`].
    pub fn hud_alpha(&self) -> (a: u32)
        ensures
            a == min_of(self.hud_show_timer, HUD_FADE_TAIL),
    {
        if self.hud_show_timer > HUD_FADE_TAIL {
            HUD_FADE_TAIL
        } else {
            self.hud_show_timer
        }
    }
}

/// A hit that lands costs exactly its damage, armour first, as far as there is any to lose.
pub proof fn damage_is_paid_in_full(p: Player, dmg: u32)
    requires
        p.wf(),
        !p.dead,
        !p.invulnerable,
    ensures
        dmg <= p.health + p.armor ==> p.hurt(dmg).health + p.hurt(dmg).armor == p.health + p.armor
            - dmg,
        dmg > p.health + p.armor ==> p.hurt(dmg).dead && p.hurt(dmg).armor == 0,
        p.hurt(dmg).health < p.health ==> p.hurt(dmg).armor == 0,
        p.hurt(dmg).dead <==> dmg >= p.health + p.armor,
{
}

/// The dead and the invulnerable lose nothing.
pub proof fn some_players_cannot_be_hurt(p: Player, dmg: u32)
    requires
        p.dead || p.invulnerable,
    ensures
        p.hurt(dmg) == p,
{
}

/// Armour takes damage before health does. A hit shows: the flash is six times the damage up to
/// its limit, and the readout comes up for a second and a half.
pub proof fn armour_takes_damage_first(p: Player, dmg: u32)
    requires
        !p.dead,
        !p.invulnerable,
    ensures
        ({
            let q = p.hurt(dmg);
            &&& dmg <= p.armor ==> q.armor == p.armor - dmg && q.health == p.health
            &&& dmg > p.armor ==> q.armor == 0
            &&& p.armor < dmg && dmg - p.armor < p.health ==> q.health == p.health - (dmg
                - p.armor)
            &&& p.armor < dmg && dmg - p.armor >= p.health ==> q.health == 0
            &&& q.dead <==> q.health == 0
            &&& dmg <= 20_000 ==> q.damage_flash == 6 * dmg
            &&& dmg > 20_000 ==> q.damage_flash == 120_000
            &&& q.hud_show_timer == 1800
            &&& q.pos == p.pos && q.yaw == p.yaw && q.pitch == p.pitch && q.invisible
                == p.invisible && q.invulnerable == p.invulnerable && q.respawn == p.respawn
        }),
{
}

/// The dead and the invulnerable are not hurt at all.
pub proof fn hits_on_the_dead_and_the_invulnerable_do_nothing(p: Player, dmg: u32)
    ensures
        p.dead || p.invulnerable ==> p.hurt(dmg) == p,
{
}

/// Healing gives full health without armour, and takes the marks of the last hit away.
pub proof fn healing_starts_over(p: Player)
    ensures
        ({
            let q = p.healed();
            &&& q.health == 100_000 && q.armor == 0 && !q.dead && q.damage_flash == 0
                && q.hud_show_timer == 0
            &&& q.pos == p.pos && q.yaw == p.yaw && q.pitch == p.pitch && q.invulnerable
                == p.invulnerable && q.invisible == p.invisible && q.respawn == p.respawn
        }),
{
}

/// The marks of a hit fade with time, the flash by half a point of strength a tick, and nothing
/// else changes.
pub proof fn marks_of_a_hit_fade(p: Player, dt: u32)
    ensures
        ({
            let q = p.settled(dt);
            &&& p.damage_flash >= 500 * dt ==> q.damage_flash == p.damage_flash - 500 * dt
            &&& p.damage_flash < 500 * dt ==> q.damage_flash == 0
            &&& p.hud_show_timer >= dt ==> q.hud_show_timer == p.hud_show_timer - dt
            &&& p.hud_show_timer < dt ==> q.hud_show_timer == 0
            &&& q == (Player {
                damage_flash: q.damage_flash,
                hud_show_timer: q.hud_show_timer,
                ..p
            })
        }),
{
}

/// A new player is nowhere, whole, without armour, and neither invulnerable nor invisible.
pub proof fn a_new_player_is_whole()
    ensures
        Player::fresh().pos is None && Player::fresh().health == 100_000 && Player::fresh().armor
            == 0,
        !Player::fresh().dead && !Player::fresh().invulnerable && !Player::fresh().invisible,
        Player::fresh().damage_flash == 0 && Player::fresh().hud_show_timer == 0
            && Player::fresh().respawn == 0,
{
}

/// The lesser of two numbers is one of them and above neither.
pub proof fn the_lesser_is_one_of_the_two(a: u32, b: u32)
    ensures
        min_of(a, b) <= a && min_of(a, b) <= b,
        min_of(a, b) == a || min_of(a, b) == b,
{
}

} // verus!
