//! The player's weapons: owning, buying, and switching between them.
use vstd::prelude::*;

use crate::ticks::{advance, later};

verus! {

/// How long a switch takes, down and up again.
pub const SWITCH_TIME: u32 = 480;

/// A weapon of the arsenal as the player holds it.
#[derive(Clone, Copy, PartialEq, Eq, Debug, Structural)]
pub struct Gun {
    pub magazine: u32,
    pub reserve: u32,
    pub magazine_size: u32,
    pub price: u32,
    pub ammo_price: u32,
    pub reloading: bool,
    /// Empty hands.
    pub unarmed: bool,
}

/// The first entry of the arsenal, from `from` on, that is empty hands; the first of all when
/// there is none.
pub open spec fn bare_hands(guns: Seq<Gun>, from: int) -> int
    decreases guns.len() - from,
{
    if from < 0 || from >= guns.len() {
        0
    } else if guns[from].unarmed {
        from
    } else {
        bare_hands(guns, from + 1)
    }
}

/// The arsenal at the start: full when everything is owned, without a round otherwise.
pub open spec fn stocked(guns: Seq<Gun>, own_all: bool) -> Seq<Gun> {
    guns.map_values(
        |g: Gun|
            if own_all {
                g
            } else {
                Gun { magazine: 0, reserve: 0, ..g }
            },
    )
}

pub struct Armory {
    pub guns: Vec<Gun>,
    pub owned: Vec<bool>,
    pub credits: u32,
    /// The weapon in hand.
    pub index: usize,
    pub switching: bool,
    pub switch_target: usize,
    pub switch_timer: u32,
    pub switch_swapped: bool,
    /// Whether the weapon in hand has changed since anyone asked.
    pub models_dirty: bool,
    /// What a kill pays.
    pub bounty: u32,
    /// How many magazines one purchase of ammunition holds.
    pub ammo_mags: u32,
}

/// `from + step`, wrapped around at `n`.
pub open spec fn around(from: usize, step: int, n: nat) -> int {
    (from + step) % n as int
}

/// Whether `i` is the first owned weapon after `from`.
pub open spec fn is_next_owned(owned: Seq<bool>, from: usize, i: int) -> bool {
    exists|step: int|
        1 <= step < owned.len() && i == #[trigger] around(from, step, owned.len()) && owned[i]
            && forall|s: int|
            1 <= s < step ==> !owned[#[trigger] around(from, s, owned.len())]
}

fn wrapped(from: usize, step: usize, n: usize) -> (i: usize)
    requires
        from < n,
        step < n,
    ensures
        i == around(from, step as int, n as nat),
        i < n,
        step > 0 ==> i != from,
{
    let room: usize = n - from;
    if step < room {
        proof {
            vstd::arithmetic::div_mod::lemma_small_mod((from + step) as nat, n as nat);
        }
        from + step
    } else {
        proof {
            vstd::arithmetic::div_mod::lemma_fundamental_div_mod_converse(
                from + step,
                n as int,
                1,
                step - room,
            );
        }
        step - room
    }
}

fn find_bare_hands(guns: &Vec<Gun>) -> (i: usize)
    requires
        guns@.len() > 0,
    ensures
        i == bare_hands(guns@, 0),
        i < guns@.len(),
{
    let mut k: usize = 0;
    while k < guns.len()
        invariant
            k <= guns@.len(),
            guns@.len() > 0,
            bare_hands(guns@, 0) == bare_hands(guns@, k as int),
        decreases guns@.len() - k,
    {
        if guns[k].unarmed {
            return k;
        }
        k = k + 1;
    }
    0
}

/// How many weapons are owned.
pub open spec fn owned_count(owned: Seq<bool>) -> nat
    decreases owned.len(),
{
    if owned.len() == 0 {
        0
    } else {
        owned_count(owned.drop_last()) + if owned.last() {
            1nat
        } else {
            0nat
        }
    }
}

fn count_owned(owned: &Vec<bool>) -> (n: usize)
    ensures
        n == owned_count(owned@),
{
    let mut n: usize = 0;
    let mut k: usize = 0;
    assert(owned@.take(0) =~= Seq::empty());
    while k < owned.len()
        invariant
            n <= k <= owned@.len(),
            n == owned_count(owned@.take(k as int)),
        decreases owned@.len() - k,
    {
        assert(owned@.take(k + 1).drop_last() =~= owned@.take(k as int));
        if owned[k] {
            n = n + 1;
        }
        k = k + 1;
    }
    assert(owned@.take(k as int) =~= owned@);
    n
}

/// When only `from` may be owned, at most one is.
proof fn lemma_count_of_one(owned: Seq<bool>, from: int)
    requires
        forall|j: int| 0 <= j < owned.len() && j != from ==> !owned[j],
    ensures
        owned_count(owned) <= 1,
        !(0 <= from < owned.len()) ==> owned_count(owned) == 0,
    decreases owned.len(),
{
    if owned.len() > 0 {
        lemma_count_of_one(owned.drop_last(), from);
    }
}

/// With two or more owned, a scan around from `from` comes upon one.
proof fn lemma_another_is_met(owned: Seq<bool>, from: usize)
    requires
        from < owned.len(),
        forall|s: int|
            1 <= s < owned.len() ==> !owned[#[trigger] around(from, s, owned.len())],
    ensures
        owned_count(owned) < 2,
{
    let n = owned.len() as int;
    assert forall|j: int| 0 <= j < owned.len() && j != from implies !owned[j] by {
        let s = if j > from {
            j - from
        } else {
            j - from + n
        };
        if j > from {
            vstd::arithmetic::div_mod::lemma_small_mod(j as nat, n as nat);
        } else {
            vstd::arithmetic::div_mod::lemma_fundamental_div_mod_converse(j + n, n, 1, j);
        }
        assert(around(from, s, owned.len()) == j);
    }
    lemma_count_of_one(owned, from as int);
}

/// What starting a switch does: nothing during a switch or with fewer than two weapons, otherwise it
/// goes to the next owned one, from the top of the dip, and a reload in hand is cancelled.
pub open spec fn switch_begins(before: Armory, after: Armory) -> bool {
    if before.switching || owned_count(before.owned@) < 2 {
        after == before
    } else {
        &&& is_next_owned(before.owned@, before.index, after.switch_target as int)
        &&& after.switch_target != before.index
        &&& after.guns@ == before.guns@.update(
            before.index as int,
            Gun { reloading: false, ..before.guns@[before.index as int] },
        )
        &&& after == (Armory {
            guns: after.guns,
            switching: true,
            switch_target: after.switch_target,
            switch_timer: 0,
            switch_swapped: false,
            ..before
        })
    }
}

impl Armory {
    pub open spec fn wf(self) -> bool {
        &&& self.guns@.len() == self.owned@.len()
        &&& self.index < self.guns@.len()
        &&& self.switching ==> self.switch_target < self.guns@.len()
    }

    /// An arsenal with empty hands in hand, where it has that entry. With `own_all` everything
    /// is owned and full; otherwise nothing else is owned, and nothing is loaded.
    pub fn new(guns: Vec<Gun>, own_all: bool, bounty: u32, ammo_mags: u32) -> (a: Armory)
        requires
            guns@.len() > 0,
        ensures
            a.wf(),
            a.guns@ == stocked(guns@, own_all),
            a.owned@ == Seq::new(guns@.len(), |i: int| own_all || i == a.index),
            a.credits == 0,
            a.index == bare_hands(guns@, 0),
            !a.switching,
            a.switch_target == 0,
            a.switch_timer == 0,
            !a.switch_swapped,
            !a.models_dirty,
            a.bounty == bounty,
            a.ammo_mags == ammo_mags,
    {
        let hand: usize = find_bare_hands(&guns);
        let mut owned: Vec<bool> = Vec::new();
        let mut stock: Vec<Gun> = Vec::new();
        let mut k: usize = 0;
        while k < guns.len()
            invariant
                k <= guns@.len(),
                owned@.len() == k,
                stock@.len() == k,
                forall|i: int| 0 <= i < k ==> #[trigger] owned@[i] == (own_all || i == hand),
                forall|i: int| 0 <= i < k ==> #[trigger] stock@[i] == stocked(guns@, own_all)[i],
            decreases guns@.len() - k,
        {
            let mut g: Gun = guns[k];
            if !own_all {
                g.magazine = 0;
                g.reserve = 0;
            }
            stock.push(g);
            owned.push(own_all || k == hand);
            k = k + 1;
        }
        assert(owned@ =~= Seq::new(guns@.len(), |i: int| own_all || i == hand));
        assert(stock@ =~= stocked(guns@, own_all));
        Armory {
            guns: stock,
            owned,
            credits: 0,
            index: hand,
            switching: false,
            switch_target: 0,
            switch_timer: 0,
            switch_swapped: false,
            models_dirty: false,
            bounty,
            ammo_mags,
        }
    }

    pub open spec fn owns(self, i: int) -> bool {
        0 <= i < self.owned@.len() && self.owned@[i]
    }

    pub fn owns_weapon(&self, i: usize) -> (b: bool)
        ensures
            b == self.owns(i as int),
    {
        i < self.owned.len() && self.owned[i]
    }

    /// Rounds in the magazine and in reserve.
    pub fn weapon_ammo(&self, i: usize) -> (a: Option<(u32, u32)>)
        ensures
            a == if i < self.guns@.len() {
                Some((self.guns@[i as int].magazine, self.guns@[i as int].reserve))
            } else {
                None
            },
    {
        if i < self.guns.len() {
            Some((self.guns[i].magazine, self.guns[i].reserve))
        } else {
            None
        }
    }

    /// Whether weapon `i` is for sale and affordable.
    pub open spec fn can_buy(self, i: usize) -> bool {
        i < self.owned@.len() && !self.owned@[i as int] && self.credits >= self.guns@[i as int].price
    }

    /// Buys a weapon. Refused for one that does not exist, is owned already, or costs too
    /// much.
    pub fn buy_weapon(&mut self, i: usize) -> (bought: bool)
        requires
            old(self).wf(),
        ensures
            bought == old(self).can_buy(i),
            bought ==> final(self).owned@ == old(self).owned@.update(i as int, true),
            bought ==> final(self).credits == old(self).credits - old(self).guns@[i as int].price,
            !bought ==> *final(self) == *old(self),
            *final(self) == (Armory {
                owned: final(self).owned,
                credits: final(self).credits,
                ..*old(self)
            }),
            final(self).wf(),
    {
        if i >= self.owned.len() || self.owned[i] {
            return false;
        }
        let price: u32 = self.guns[i].price;
        if self.credits < price {
            return false;
        }
        self.credits = self.credits - price;
        self.owned.set(i, true);
        true
    }

    /// Whether ammunition for weapon `i` is for sale and affordable.
    pub open spec fn can_buy_ammo(self, i: usize) -> bool {
        i < self.guns@.len() && self.owned@[i as int] && self.credits
            >= self.guns@[i as int].ammo_price
    }

    /// The rounds that one purchase adds for weapon `i`.
    pub open spec fn rounds_bought(self, i: usize) -> int {
        self.guns@[i as int].magazine_size * self.ammo_mags
    }

    /// Buys ammunition. Refused for a weapon that does not exist or is not owned, and when it
    /// costs too much.
    pub fn buy_ammo(&mut self, i: usize) -> (bought: bool)
        requires
            old(self).wf(),
            old(self).can_buy_ammo(i) ==> old(self).guns@[i as int].reserve + old(
                self).rounds_bought(i) <= u32::MAX,
        ensures
            bought == old(self).can_buy_ammo(i),
            bought ==> final(self).guns@ == old(self).guns@.update(
                i as int,
                Gun {
                    reserve: (old(self).guns@[i as int].reserve + old(self).rounds_bought(
                        i,
                    )) as u32,
                    ..old(self).guns@[i as int]
                },
            ),
            bought ==> final(self).credits == old(self).credits
                - old(self).guns@[i as int].ammo_price,
            !bought ==> *final(self) == *old(self),
            *final(self) == (Armory {
                guns: final(self).guns,
                credits: final(self).credits,
                ..*old(self)
            }),
            final(self).wf(),
    {
        if i >= self.guns.len() || !self.owned[i] {
            return false;
        }
        let mut g: Gun = self.guns[i];
        if self.credits < g.ammo_price {
            return false;
        }
        self.credits = self.credits - g.ammo_price;
        proof {
            assert(g.magazine_size * self.ammo_mags >= 0) by (nonlinear_arith)
                requires
                    g.magazine_size >= 0,
                    self.ammo_mags >= 0,
            ;
        }
        let rounds: u32 = g.magazine_size * self.ammo_mags;
        g.reserve = g.reserve + rounds;
        self.guns.set(i, g);
        true
    }

    /// Pays the bounty of a kill, as far as the purse counts.
    pub fn award_kill(&mut self)
        ensures
            *final(self) == (Armory {
                credits: later(old(self).credits, old(self).bounty),
                ..*old(self)
            }),
    {
        self.credits = advance(self.credits, self.bounty);
    }

    /// The next owned weapon after `from`, in order and around the end; none when fewer than two
    /// are owned.
    pub fn next_owned(&self, from: usize) -> (next: Option<usize>)
        requires
            self.wf(),
            from < self.guns@.len(),
        ensures
            next is None <==> owned_count(self.owned@) < 2,
            next matches Some(i) ==> i < self.guns@.len() && i != from && is_next_owned(
                self.owned@,
                from,
                i as int,
            ),
    {
        if count_owned(&self.owned) < 2 {
            return None;
        }
        let n: usize = self.guns.len();
        let mut step: usize = 1;
        while step < n
            invariant
                self.wf(),
                n == self.guns@.len(),
                from < n,
                1 <= step,
                owned_count(self.owned@) >= 2,
                forall|s: int|
                    1 <= s < step ==> !self.owned@[#[trigger] around(from, s, self.owned@.len())],
            decreases n - step,
        {
            let i: usize = wrapped(from, step, n);
            if self.owned[i] {
                assert(i == around(from, step as int, self.owned@.len()));
                return Some(i);
            }
            step = step + 1;
        }
        proof {
            lemma_another_is_met(self.owned@, from);
        }
        None
    }

    /// Starts to switch to the next owned weapon, which cancels a reload in hand. Nothing
    /// happens during a switch, or with fewer than two weapons.
    pub fn begin_switch(&mut self)
        requires
            old(self).wf(),
        ensures
            final(self).wf(),
            switch_begins(*old(self), *final(self)),
    {
        if self.switching {
            return ;
        }
        let target: usize = match self.next_owned(self.index) {
            Some(i) => i,
            None => return,
        };
        let mut g: Gun = self.guns[self.index];
        g.reloading = false;
        self.guns.set(self.index, g);
        self.switching = true;
        self.switch_target = target;
        self.switch_timer = 0;
        self.switch_swapped = false;
    }

    /// The switch a time `dt` later: the weapons change hands at the bottom of the dip, once,
    /// and it ends when the new one is up.
    pub open spec fn switch_stepped(self, dt: u32) -> Armory {
        if !self.switching {
            self
        } else {
            let now = later(self.switch_timer, dt);
            let swap = !self.switch_swapped && 2 * now >= SWITCH_TIME;
            Armory {
                switch_timer: now,
                index: if swap {
                    self.switch_target
                } else {
                    self.index
                },
                switch_swapped: self.switch_swapped || swap,
                models_dirty: self.models_dirty || swap,
                switching: now < SWITCH_TIME,
                ..self
            }
        }
    }

    /// Runs a switch for a time `dt`; tells whether the weapons changed hands.
    pub fn switch_step(&mut self, dt: u32) -> (swapped: bool)
        requires
            old(self).wf(),
        ensures
            *final(self) == old(self).switch_stepped(dt),
            swapped == (old(self).switching && !old(self).switch_swapped && 2 * later(
                old(self).switch_timer,
                dt,
            ) >= SWITCH_TIME),
            final(self).wf(),
    {
        if !self.switching {
            return false;
        }
        self.switch_timer = advance(self.switch_timer, dt);
        let mut swapped: bool = false;
        if !self.switch_swapped && 2 * (self.switch_timer as u64) >= SWITCH_TIME as u64 {
            self.index = self.switch_target;
            self.models_dirty = true;
            self.switch_swapped = true;
            swapped = true;
        }
        if self.switch_timer >= SWITCH_TIME {
            self.switching = false;
        }
        swapped
    }

    /// Tells whether the weapon in hand changed, once.
    pub fn take_models_dirty(&mut self) -> (dirty: bool)
        ensures
            dirty == old(self).models_dirty,
            *final(self) == (Armory { models_dirty: false, ..*old(self) }),
    {
        let dirty: bool = self.models_dirty;
        self.models_dirty = false;
        dirty
    }
}

/// A switch that has run its time has put the new weapon in hand and is over, whether it ran
/// in one step or in two.
pub proof fn a_switch_ends_with_the_new_weapon(a: Armory, dt1: u32, dt2: u32)
    requires
        a.switching,
        !a.switch_swapped,
        a.switch_timer == 0,
        dt1 + dt2 <= u32::MAX,
        dt1 + dt2 >= SWITCH_TIME,
    ensures
        a.switch_stepped(dt1).switch_stepped(dt2).index == a.switch_target,
        !a.switch_stepped(dt1).switch_stepped(dt2).switching,
        a.switch_stepped(dt1).switch_stepped(dt2).models_dirty,
{
}

/// The weapons change hands once per switch: after the change, steps only raise the new one.
pub proof fn weapons_change_hands_once(a: Armory, dt: u32)
    requires
        a.switch_swapped,
    ensures
        a.switch_stepped(dt).index == a.index,
        a.switch_stepped(dt).models_dirty == a.models_dirty,
{
}

/// Whether a setting that was given as text is switched on.
pub fn is_on(value: &String) -> (b: bool)
    ensures
        b == (value@ == "1"@ || value@ == "on"@ || value@ == "yes"@ || value@ == "true"@),
{
    *value == "1".to_owned() || *value == "on".to_owned() || *value == "yes".to_owned() || *value
        == "true".to_owned()
}

/// The player starts with the first bare hands of the arsenal, or with its first entry where it
/// has none.
pub proof fn one_starts_empty_handed(guns: Seq<Gun>, from: int, k: int)
    requires
        0 <= from,
    ensures
        from <= k < guns.len() && guns[k].unarmed && (forall|j: int|
            from <= j < k ==> !(#[trigger] guns[j]).unarmed) ==> bare_hands(guns, from) == k,
        (forall|j: int| from <= j < guns.len() ==> !(#[trigger] guns[j]).unarmed) ==> bare_hands(
            guns,
            from,
        ) == 0,
    decreases guns.len() - from,
{
    if from < guns.len() && !guns[from].unarmed {
        one_starts_empty_handed(guns, from + 1, k);
    }
}

/// What is not handed over stocked starts without a round; nothing else about a weapon differs.
pub proof fn weapons_start_empty(guns: Seq<Gun>, own_all: bool, i: int)
    requires
        0 <= i < guns.len(),
    ensures
        stocked(guns, own_all).len() == guns.len(),
        own_all ==> stocked(guns, own_all)[i] == guns[i],
        !own_all ==> stocked(guns, own_all)[i].magazine == 0 && stocked(guns, own_all)[i].reserve
            == 0 && stocked(guns, own_all)[i] == (Gun { magazine: 0, reserve: 0, ..guns[i] }),
{
}

/// The weapons owned are counted one by one.
pub proof fn owned_weapons_are_counted(owned: Seq<bool>)
    ensures
        owned_count(owned) == owned.filter(|b: bool| b).len(),
    decreases owned.len(),
{
    reveal(Seq::filter);
    if owned.len() > 0 {
        owned_weapons_are_counted(owned.drop_last());
    }
}

/// The next weapon is owned, and none that lies between, going up and around the end, is.
pub proof fn the_next_weapon_is_the_next_one_owned(owned: Seq<bool>, from: usize, i: int, j: int)
    requires
        from < owned.len(),
        is_next_owned(owned, from, i),
        0 <= j < owned.len(),
    ensures
        0 <= i < owned.len() && i != from && owned[i],
        from < j < i ==> !owned[j],
        i < from && (j > from || j < i) ==> !owned[j],
{
    let n = owned.len() as int;
    let step = choose|step: int|
        1 <= step < owned.len() && i == #[trigger] around(from, step, owned.len()) && owned[i]
            && forall|s: int| 1 <= s < step ==> !owned[#[trigger] around(from, s, owned.len())];
    lemma_around(from, step, owned.len());
    let s = if j > from {
        j - from
    } else {
        j - from + n
    };
    if j != from {
        lemma_around(from, s, owned.len());
        assert(around(from, s, owned.len()) == j);
    }
}

proof fn lemma_around(from: usize, step: int, n: nat)
    requires
        from < n,
        1 <= step < n,
    ensures
        around(from, step, n) == (if from + step < n {
            from + step
        } else {
            from + step - n
        }),
{
    if from + step < n {
        vstd::arithmetic::div_mod::lemma_small_mod((from + step) as nat, n);
    } else {
        vstd::arithmetic::div_mod::lemma_fundamental_div_mod_converse(
            from + step,
            n as int,
            1,
            from + step - n,
        );
    }
}

/// A switch begins when none is under way and there are two weapons: towards an owned one other
/// than that in hand, whose reload is broken off. Otherwise nothing happens.
pub proof fn a_switch_begins_between_two_weapons(before: Armory, after: Armory)
    requires
        before.wf(),
        switch_begins(before, after),
    ensures
        before.switching || before.owned@.filter(|b: bool| b).len() < 2 ==> after == before,
        !before.switching && before.owned@.filter(|b: bool| b).len() >= 2 ==> {
            &&& after.switching && after.switch_timer == 0 && !after.switch_swapped
            &&& after.switch_target < before.owned@.len() && after.switch_target != before.index
            &&& before.owned@[after.switch_target as int]
            &&& after.index == before.index && after.credits == before.credits
            &&& !after.guns@[before.index as int].reloading
            &&& after.guns@.len() == before.guns@.len()
            &&& forall|i: int|
                0 <= i < before.guns@.len() && i != before.index ==> #[trigger] after.guns@[i]
                    == before.guns@[i]
        },
{
    owned_weapons_are_counted(before.owned@);
    if !before.switching && owned_count(before.owned@) >= 2 {
        the_next_weapon_is_the_next_one_owned(
            before.owned@,
            before.index,
            after.switch_target as int,
            0,
        );
    }
}

/// A switch takes 0.4 s; halfway through, once, the weapon in hand becomes the one switched to.
pub proof fn a_switch_swaps_halfway(a: Armory, dt: u32)
    requires
        a.switch_timer + dt <= u32::MAX,
    ensures
        !a.switching ==> a.switch_stepped(dt) == a,
        a.switching ==> {
            let b = a.switch_stepped(dt);
            let half = a.switch_timer + dt >= 240;
            &&& b.switch_timer == a.switch_timer + dt
            &&& b.switching <==> a.switch_timer + dt < 480
            &&& !a.switch_swapped && half ==> b.index == a.switch_target && b.switch_swapped
                && b.models_dirty
            &&& a.switch_swapped || !half ==> b.index == a.index && b.switch_swapped
                == a.switch_swapped && b.models_dirty == a.models_dirty
            &&& b.guns@ == a.guns@ && b.owned@ == a.owned@ && b.credits == a.credits
                && b.switch_target == a.switch_target
        },
{
}

/// A weapon can be bought once, and ammunition for it only after that, by whoever has the price.
pub proof fn things_can_be_bought_by_who_can_pay(a: Armory, i: usize)
    requires
        a.wf(),
    ensures
        a.can_buy(i) <==> i < a.guns@.len() && !a.owned@[i as int] && a.guns@[i as int].price
            <= a.credits,
        a.can_buy_ammo(i) <==> i < a.guns@.len() && a.owned@[i as int]
            && a.guns@[i as int].ammo_price <= a.credits,
        i < a.guns@.len() ==> a.rounds_bought(i) == a.guns@[i as int].magazine_size * a.ammo_mags,
        a.owns(i as int) <==> i < a.owned@.len() && a.owned@[i as int],
{
}

} // verus!
