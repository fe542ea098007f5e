//! The placed objects of a level, which live in a `hecs` world, and what a shot does to them.
use hecs::World as EcsWorld;
use vstd::prelude::*;

use crate::combat::{zone_at, zone_damage, HitReport, Spark, SPARK_TTL};
use crate::hunter::Hunter;
use crate::space::Point;
use crate::world::World;

verus! {

/// What is left of an object that can be shot to pieces, in thousandths of a point.
#[derive(Clone, Copy, Debug)]
pub struct Health(pub i64);

/// Marks an object that was shot to pieces. It stays where it is, charred and solid.
#[derive(Clone, Copy, Debug)]
pub struct Destroyed;

/// Which mesh an object is drawn with.
#[derive(Clone, Copy, Debug)]
pub struct Renderable(pub u32);

/// Where an object stands.
#[derive(Clone, Copy, Debug)]
pub struct Transform(pub Point);

/// Marks a weapon on the floor, by its number in the arsenal.
#[derive(Clone, Copy, Debug)]
pub struct Pickup(pub u32);

/// Marks a sentry gun.
#[derive(Clone, Copy, Debug)]
pub struct Turret;

/// Marks a door.
#[derive(Clone, Copy, Debug)]
pub struct Door;

/// The components of one object.
pub struct ObjectView {
    pub health: Option<i64>,
    pub destroyed: bool,
    pub mesh: Option<u32>,
    pub spot: Option<Point>,
    pub pickup: Option<u32>,
    pub turret: bool,
    pub door: bool,
}

#[verifier::external_type_specification]
#[verifier::external_body]
pub struct ExEcsWorld(EcsWorld);

/// The live objects of a `hecs::World`, by the bits of their handles, with the components
/// above that each has.
pub uninterp spec fn objects_in(w: EcsWorld) -> Map<u64, ObjectView>;

/// `hecs::World::new`: a world without objects.
#[verifier::external_body]
pub(crate) fn empty_ecs() -> (w: EcsWorld)
    ensures
        forall|e: u64| !objects_in(w).contains_key(e),
{
    EcsWorld::new()
}

/// `EntityRef::has` through `hecs::World::entity`: whether the object exists and has the
/// component `Destroyed`. Bits that are no handle name no object.
#[verifier::external_body]
fn is_destroyed(w: &EcsWorld, e: u64) -> (b: bool)
    ensures
        b == (objects_in(*w).contains_key(e) && objects_in(*w)[e].destroyed),
{
    match hecs::Entity::from_bits(e) {
        Some(id) => w.entity(id).is_ok_and(|r| r.has::<Destroyed>()),
        None => false,
    }
}

/// `hecs::World::query_one_mut` for `&Health`: the value of the component, if the object
/// exists and has it. Nothing in the world changes.
#[verifier::external_body]
fn health_of(w: &mut EcsWorld, e: u64) -> (hp: Option<i64>)
    ensures
        objects_in(*final(w)) == objects_in(*old(w)),
        hp == if objects_in(*old(w)).contains_key(e) {
            objects_in(*old(w))[e].health
        } else {
            None
        },
{
    match hecs::Entity::from_bits(e) {
        Some(id) => w.query_one_mut::<&Health>(id).ok().map(|h| h.0),
        None => None,
    }
}

/// `hecs::World::query_one_mut` for `&mut Health`: writes the component of an object that has
/// it; any other object, and every other component, stays as it is.
#[verifier::external_body]
fn set_health(w: &mut EcsWorld, e: u64, hp: i64)
    ensures
        objects_in(*final(w)) == if objects_in(*old(w)).contains_key(e) && objects_in(
            *old(w),
        )[e].health is Some {
            objects_in(*old(w)).insert(
                e,
                ObjectView { health: Some(hp), ..objects_in(*old(w))[e] },
            )
        } else {
            objects_in(*old(w))
        },
{
    if let Some(id) = hecs::Entity::from_bits(e) {
        if let Ok(h) = w.query_one_mut::<&mut Health>(id) {
            h.0 = hp;
        }
    }
}

/// `hecs::World::query_one_mut` for `&Renderable`: the mesh of the object, if it exists and
/// has one. Nothing in the world changes.
#[verifier::external_body]
fn mesh_of(w: &mut EcsWorld, e: u64) -> (mesh: Option<u32>)
    ensures
        objects_in(*final(w)) == objects_in(*old(w)),
        mesh == if objects_in(*old(w)).contains_key(e) {
            objects_in(*old(w))[e].mesh
        } else {
            None
        },
{
    match hecs::Entity::from_bits(e) {
        Some(id) => w.query_one_mut::<&Renderable>(id).ok().map(|m| m.0),
        None => None,
    }
}

/// `hecs::World::insert_one` of `Destroyed`: an object that exists then has that component and
/// its others as before; without such an object nothing changes.
#[verifier::external_body]
fn mark_destroyed(w: &mut EcsWorld, e: u64)
    ensures
        objects_in(*final(w)) == if objects_in(*old(w)).contains_key(e) {
            objects_in(*old(w)).insert(
                e,
                ObjectView { destroyed: true, ..objects_in(*old(w))[e] },
            )
        } else {
            objects_in(*old(w))
        },
{
    if let Some(id) = hecs::Entity::from_bits(e) {
        let _ = w.insert_one(id, Destroyed);
    }
}

/// Whether `ids` lists, each once, the objects that lie on the floor as weapons.
pub open spec fn lists_pickups(m: Map<u64, ObjectView>, ids: Seq<u64>) -> bool {
    ids.no_duplicates() && forall|e: u64|
        #[trigger] ids.contains(e) <==> m.contains_key(e) && m[e].spot is Some && m[e].pickup is Some
}

/// Whether `ids` lists, each once, the sentry guns.
pub open spec fn lists_turrets(m: Map<u64, ObjectView>, ids: Seq<u64>) -> bool {
    ids.no_duplicates() && forall|e: u64|
        #[trigger] ids.contains(e) <==> m.contains_key(e) && m[e].spot is Some && m[e].turret
}

/// Whether `ids` lists, each once, the doors.
pub open spec fn lists_doors(m: Map<u64, ObjectView>, ids: Seq<u64>) -> bool {
    ids.no_duplicates() && forall|e: u64|
        #[trigger] ids.contains(e) <==> m.contains_key(e) && m[e].spot is Some && m[e].door
}

/// `hecs::World::query_mut` for `Transform` and `Pickup`: one entry for each object that has
/// both, in no particular order. Nothing in the world changes.
#[verifier::external_body]
fn query_pickups(w: &mut EcsWorld) -> (out: Vec<(Point, u32)>)
    ensures
        objects_in(*final(w)) == objects_in(*old(w)),
        exists|ids: Seq<u64>| #[trigger]
            lists_pickups(objects_in(*old(w)), ids) && out@ == ids.map_values(
                |e: u64| (objects_in(*old(w))[e].spot->0, objects_in(*old(w))[e].pickup->0),
            ),
{
    w.query_mut::<(&Transform, &Pickup)>().into_iter().map(|(t, p)| (t.0, p.0)).collect()
}

/// `hecs::World::query_mut` for `Transform` and `Turret`: one entry for each object that has
/// both, in no particular order. Nothing in the world changes.
#[verifier::external_body]
fn query_turrets(w: &mut EcsWorld) -> (out: Vec<Point>)
    ensures
        objects_in(*final(w)) == objects_in(*old(w)),
        exists|ids: Seq<u64>| #[trigger]
            lists_turrets(objects_in(*old(w)), ids) && out@ == ids.map_values(
                |e: u64| objects_in(*old(w))[e].spot->0,
            ),
{
    w.query_mut::<(&Transform, &Turret)>().into_iter().map(|(t, _)| t.0).collect()
}

/// `hecs::World::query_mut` for `Transform` and `Door`: one entry for each object that has
/// both, in no particular order. Nothing in the world changes.
#[verifier::external_body]
fn query_doors(w: &mut EcsWorld) -> (out: Vec<Point>)
    ensures
        objects_in(*final(w)) == objects_in(*old(w)),
        exists|ids: Seq<u64>| #[trigger]
            lists_doors(objects_in(*old(w)), ids) && out@ == ids.map_values(
                |e: u64| objects_in(*old(w))[e].spot->0,
            ),
{
    w.query_mut::<(&Transform, &Door)>().into_iter().map(|(t, _)| t.0).collect()
}

/// Where the weapons, the sentry guns and the doors of a level stand.
pub struct AuthoredObjects {
    pub pickups: Vec<(Point, u32)>,
    pub turrets: Vec<Point>,
    pub doors: Vec<Point>,
}

/// What becomes of an object that is shot.
#[derive(Clone, Copy, PartialEq, Eq, Debug, Structural)]
pub enum PropHit {
    /// The capsule belongs to no object any more.
    Stale,
    /// The object was shot to pieces before.
    Husk,
    /// It still stands.
    Standing,
    /// It goes to pieces now; the mesh tells how it blows up.
    Destroyed(Option<u32>),
}

/// The object that a capsule belongs to.
pub open spec fn owner_of(colliders: Map<u64, u64>, collider: u64) -> Option<u64> {
    if colliders.contains_key(collider) {
        Some(colliders[collider])
    } else {
        None
    }
}

/// `hp` less `damage`, as far down as it can be counted.
pub open spec fn worn(hp: i64, damage: u32) -> i64 {
    if hp - damage < i64::MIN {
        i64::MIN
    } else {
        (hp - damage) as i64
    }
}

/// What a shot of `damage` makes of object `e`: the outcome, and the objects after it.
pub open spec fn prop_shot(m: Map<u64, ObjectView>, e: u64, damage: u32) -> (
    PropHit,
    Map<u64, ObjectView>,
) {
    if !m.contains_key(e) {
        (PropHit::Standing, m)
    } else if m[e].destroyed {
        (PropHit::Husk, m)
    } else {
        match m[e].health {
            None => (PropHit::Standing, m),
            Some(hp) => {
                let after = ObjectView { health: Some(worn(hp, damage)), ..m[e] };
                if worn(hp, damage) > 0 {
                    (PropHit::Standing, m.insert(e, after))
                } else {
                    (
                        PropHit::Destroyed(m[e].mesh),
                        m.insert(e, ObjectView { destroyed: true, ..after }),
                    )
                }
            },
        }
    }
}

/// A husk cannot be damaged, and it cannot blow up a second time.
pub proof fn an_object_goes_to_pieces_once(m: Map<u64, ObjectView>, e: u64, d1: u32, d2: u32)
    requires
        prop_shot(m, e, d1).0 is Destroyed,
    ensures
        prop_shot(prop_shot(m, e, d1).1, e, d2).0 == PropHit::Husk,
        prop_shot(prop_shot(m, e, d1).1, e, d2).1 == prop_shot(m, e, d1).1,
{
}

/// What a shot of the player met first.
#[derive(Clone, Copy, PartialEq, Eq, Debug, Structural)]
pub enum RayHit {
    Nothing,
    /// A hunter's capsule, so high above its feet, on that body part.
    Enemy { collider: u64, height: i64, part: Option<usize> },
    /// The capsule of a placed object.
    Prop { collider: u64, point: Point },
    /// The level itself; the point lies just off the surface.
    Surface { point: Point },
}

/// What a shot of the player did.
#[derive(Clone, Copy, PartialEq, Eq, Debug, Structural)]
pub enum ShotEffect {
    Nothing,
    Hunter(usize, HitReport),
    Prop(PropHit),
    Spark,
}

/// Whether `i` is the living hunter with that capsule, the first if there are several.
pub open spec fn has_collider(hs: Seq<Hunter>, collider: u64, i: int) -> bool {
    0 <= i < hs.len() && hs[i].collider == collider && !hs[i].dead && forall|j: int|
        0 <= j < i ==> !((#[trigger] hs[j]).collider == collider && !hs[j].dead)
}

impl World {
    fn owner(&self, collider: u64) -> (e: Option<u64>)
        ensures
            e == owner_of(self.prop_colliders@, collider),
    {
        broadcast use vstd::std_specs::hash::group_hash_axioms;

        match self.prop_colliders.get(&collider) {
            Some(e) => Some(*e),
            None => None,
        }
    }

    /// Shoots a placed object. There is a spark either way; a destroyed object only sparks.
    pub fn hit_prop(&mut self, collider: u64, point: Point, damage: u32) -> (hit: PropHit)
        ensures
            final(self).sparks@ == old(self).sparks@.push(Spark { pos: point, ttl: SPARK_TTL }),
            match owner_of(old(self).prop_colliders@, collider) {
                None => hit == PropHit::Stale && objects_in(final(self).ecs) == objects_in(
                    old(self).ecs,
                ),
                Some(e) => hit == prop_shot(objects_in(old(self).ecs), e, damage).0 && objects_in(
                    final(self).ecs,
                ) == prop_shot(objects_in(old(self).ecs), e, damage).1,
            },
            *final(self) == (World {
                sparks: final(self).sparks,
                ecs: final(self).ecs,
                ..*old(self)
            }),
    {
        self.sparks.push(Spark { pos: point, ttl: SPARK_TTL });
        let e: u64 = match self.owner(collider) {
            Some(e) => e,
            None => return PropHit::Stale,
        };
        if is_destroyed(&self.ecs, e) {
            return PropHit::Husk;
        }
        let hp: i64 = match health_of(&mut self.ecs, e) {
            Some(hp) => hp,
            None => return PropHit::Standing,
        };
        let after: i64 = if hp < i64::MIN + damage as i64 {
            i64::MIN
        } else {
            hp - damage as i64
        };
        set_health(&mut self.ecs, e, after);
        if after > 0 {
            return PropHit::Standing;
        }
        let mesh: Option<u32> = mesh_of(&mut self.ecs, e);
        mark_destroyed(&mut self.ecs, e);
        proof {
            let m = objects_in(old(self).ecs);
            assert(objects_in(self.ecs) =~= prop_shot(m, e, damage).1);
        }
        PropHit::Destroyed(mesh)
    }

    /// What a shot of the player does to what it met: a living hunter is hit, a placed object is
    /// hit, and the level sparks.
    pub open spec fn is_hitscan(
        before: World,
        hit: RayHit,
        damage: u32,
        after: World,
        effect: ShotEffect,
    ) -> bool {
        match hit {
            RayHit::Nothing => effect == ShotEffect::Nothing && after == before,
            RayHit::Surface { point } => effect == ShotEffect::Spark && after.sparks@
                == before.sparks@.push(Spark { pos: point, ttl: SPARK_TTL })
                && after == (World { sparks: after.sparks, ..before }),
            RayHit::Prop { collider, point } => {
                &&& after.sparks@ == before.sparks@.push(
                    Spark { pos: point, ttl: SPARK_TTL },
                )
                &&& match owner_of(before.prop_colliders@, collider) {
                    None => effect == ShotEffect::Prop(PropHit::Stale) && objects_in(
                        after.ecs,
                    ) == objects_in(before.ecs),
                    Some(e) => effect == ShotEffect::Prop(
                        prop_shot(objects_in(before.ecs), e, damage).0,
                    ) && objects_in(after.ecs) == prop_shot(
                        objects_in(before.ecs),
                        e,
                        damage,
                    ).1,
                }
                &&& after == (World {
                    sparks: after.sparks,
                    ecs: after.ecs,
                    ..before
                })
            },
            RayHit::Enemy { collider, height, part } => {
                &&& effect is Nothing || effect is Hunter
                &&& effect is Nothing ==> after == before && forall|i: int|
                    !has_collider(before.hunters@, collider, i)
                &&& effect matches ShotEffect::Hunter(i, rep) ==> {
                    let h = Hunter { hit_part: part, ..before.hunters@[i as int] };
                    let zone = zone_at(
                        height as int,
                        before.bodies.height_of(h.body as int),
                    );
                    let out = before.hit_outcome(
                        before.char_rng,
                        h,
                        zone,
                        zone_damage(damage, zone),
                        false,
                    );
                    &&& has_collider(before.hunters@, collider, i as int)
                    &&& rep == out.0
                    &&& after.hunters@ == before.hunters@.update(i as int, out.1)
                    &&& after.char_rng == out.2
                    &&& after.arms == if rep.died {
                        (crate::arms::Armory {
                            credits: crate::ticks::later(
                                before.arms.credits,
                                before.arms.bounty,
                            ),
                            ..before.arms
                        })
                    } else {
                        before.arms
                    }
                }
                &&& after == (World {
                    hunters: after.hunters,
                    char_rng: after.char_rng,
                    arms: after.arms,
                    ..before
                })
            },
        }
    }

    /// Routes a shot of the player to what it met: a living hunter is hit, a placed object is
    /// hit, and the level sparks.
    pub fn fire_hitscan(&mut self, hit: RayHit, damage: u32) -> (effect: ShotEffect)
        requires
            hit matches RayHit::Enemy { height, .. } ==> -0x1_0000_0000 <= height <= 0x1_0000_0000,
        ensures
            World::is_hitscan(*old(self), hit, damage, *final(self), effect),
    {
        match hit {
            RayHit::Nothing => ShotEffect::Nothing,
            RayHit::Surface { point } => {
                self.sparks.push(Spark { pos: point, ttl: SPARK_TTL });
                ShotEffect::Spark
            },
            RayHit::Prop { collider, point } => ShotEffect::Prop(
                self.hit_prop(collider, point, damage),
            ),
            RayHit::Enemy { collider, height, part } => {
                let mut k: usize = 0;
                while k < self.hunters.len()
                    invariant
                        k <= self.hunters@.len(),
                        *self == *old(self),
                        hit == (RayHit::Enemy { collider, height, part }),
                        -0x1_0000_0000 <= height <= 0x1_0000_0000,
                        forall|j: int|
                            0 <= j < k ==> !((#[trigger] self.hunters@[j]).collider == collider
                                && !self.hunters@[j].dead),
                    decreases self.hunters@.len() - k,
                {
                    if self.hunters[k].collider == collider && !self.hunters[k].dead {
                        assert(has_collider(self.hunters@, collider, k as int));
                        return match self.hit_enemy_with(k, height, damage, part) {
                            Some(rep) => ShotEffect::Hunter(k, rep),
                            None => ShotEffect::Nothing,
                        };
                    }
                    k = k + 1;
                }
                ShotEffect::Nothing
            },
        }
    }

    /// Where the placed objects that the navigation report asks about stand.
    pub fn authored_objects(&mut self) -> (o: AuthoredObjects)
        ensures
            objects_in(final(self).ecs) == objects_in(old(self).ecs),
            *final(self) == (World { ecs: final(self).ecs, ..*old(self) }),
            exists|ids: Seq<u64>| #[trigger]
                lists_pickups(objects_in(old(self).ecs), ids) && o.pickups@ == ids.map_values(
                    |e: u64|
                        (
                            objects_in(old(self).ecs)[e].spot->0,
                            objects_in(old(self).ecs)[e].pickup->0,
                        ),
                ),
            exists|ids: Seq<u64>| #[trigger]
                lists_turrets(objects_in(old(self).ecs), ids) && o.turrets@ == ids.map_values(
                    |e: u64| objects_in(old(self).ecs)[e].spot->0,
                ),
            exists|ids: Seq<u64>| #[trigger]
                lists_doors(objects_in(old(self).ecs), ids) && o.doors@ == ids.map_values(
                    |e: u64| objects_in(old(self).ecs)[e].spot->0,
                ),
    {
        let pickups: Vec<(Point, u32)> = query_pickups(&mut self.ecs);
        let turrets: Vec<Point> = query_turrets(&mut self.ecs);
        let doors: Vec<Point> = query_doors(&mut self.ecs);
        AuthoredObjects { pickups, turrets, doors }
    }
}

/// A shot takes its damage off the health of an object that has any and still stands. At no
/// health left the object goes to pieces; anything else about it, and every other object, stays.
pub proof fn a_shot_wears_an_object_down(m: Map<u64, ObjectView>, e: u64, damage: u32, other: u64)
    requires
        other != e,
    ensures
        ({
            let (hit, after) = prop_shot(m, e, damage);
            &&& after.contains_key(other) == m.contains_key(other)
            &&& m.contains_key(other) ==> after[other] == m[other]
            &&& after.contains_key(e) == m.contains_key(e)
            &&& !m.contains_key(e) ==> hit == PropHit::Standing
            &&& m.contains_key(e) && m[e].destroyed ==> hit == PropHit::Husk && after[e] == m[e]
            &&& m.contains_key(e) && !m[e].destroyed && m[e].health is None ==> hit
                == PropHit::Standing && after[e] == m[e]
            &&& m.contains_key(e) && !m[e].destroyed ==> (m[e].health matches Some(hp) ==> {
                &&& hp > damage ==> hit == PropHit::Standing && after[e] == (ObjectView {
                    health: Some((hp - damage) as i64),
                    ..m[e]
                })
                &&& hp <= damage ==> hit == PropHit::Destroyed(m[e].mesh) && after[e].destroyed
                    && after[e] == (ObjectView {
                    health: after[e].health,
                    destroyed: true,
                    ..m[e]
                })
                &&& hp <= damage && hp >= 0 ==> after[e].health == Some((hp - damage) as i64)
            })
        }),
{
}

/// A shot that meets nothing changes nothing; one that meets a surface or an object leaves a spark
/// there, lit for 144 ticks.
pub proof fn shots_leave_sparks(
    before: World,
    hit: RayHit,
    damage: u32,
    after: World,
    effect: ShotEffect,
)
    requires
        World::is_hitscan(before, hit, damage, after, effect),
    ensures
        hit is Nothing ==> after == before,
        (hit matches RayHit::Surface { point } ==> after.sparks@ == before.sparks@.push(
            Spark { pos: point, ttl: 144 },
        ) && after.hunters == before.hunters && after.ecs == before.ecs),
        (hit matches RayHit::Prop { collider, point } ==> after.sparks@ == before.sparks@.push(
            Spark { pos: point, ttl: 144 },
        ) && after.hunters == before.hunters),
        hit is Enemy ==> after.sparks == before.sparks && after.ecs == before.ecs,
        after.player == before.player && after.level == before.level,
{
}

/// A shot at a hunter is taken by a living one with that collider, and by nobody else; it is
/// taken by none only where no living hunter has it.
pub proof fn a_shot_is_taken_by_the_hunter_it_met(
    before: World,
    hit: RayHit,
    damage: u32,
    after: World,
    effect: ShotEffect,
    j: int,
)
    requires
        World::is_hitscan(before, hit, damage, after, effect),
        hit is Enemy,
        0 <= j < before.hunters@.len(),
    ensures
        ({
            let (hs, then) = (before.hunters@, after.hunters@);
            let collider = hit->Enemy_collider;
            &&& then.len() == hs.len()
            &&& effect is Nothing || effect is Hunter
            &&& effect is Nothing ==> !(hs[j].collider == collider && !hs[j].dead)
            &&& effect matches ShotEffect::Hunter(i, _) ==> {
                &&& i < hs.len() && hs[i as int].collider == collider && !hs[i as int].dead
                &&& j != i ==> then[j] == hs[j]
            }
            &&& effect matches ShotEffect::Hunter(i, rep) ==> {
                &&& rep.died <==> then[i as int].dead
                &&& then[i as int].hit_part == hit->Enemy_part
                &&& !rep.died ==> after.arms == before.arms
                &&& rep.died && before.arms.credits + before.arms.bounty <= u32::MAX
                    ==> after.arms.credits == before.arms.credits + before.arms.bounty
            }
        }),
{
    if effect is Nothing {
        assert(forall|i: int| !has_collider(before.hunters@, hit->Enemy_collider, i));
        lemma_someone_has_it_first(before.hunters@, hit->Enemy_collider, j);
    }
}

proof fn lemma_someone_has_it_first(hs: Seq<Hunter>, collider: u64, j: int)
    requires
        0 <= j < hs.len(),
        forall|i: int| !has_collider(hs, collider, i),
    ensures
        !(hs[j].collider == collider && !hs[j].dead),
    decreases j,
{
    assert forall|i: int| 0 <= i < j implies !((#[trigger] hs[i]).collider == collider
        && !hs[i].dead) by {
        lemma_someone_has_it_first(hs, collider, i);
    }
    assert(!has_collider(hs, collider, j));
}

/// The collider of a placed object leads to that object, and any other to none.
pub proof fn colliders_lead_to_their_objects(colliders: Map<u64, u64>, c: u64, e: u64)
    ensures
        owner_of(colliders.insert(c, e), c) == Some(e),
        owner_of(colliders.remove(c), c) is None,
        owner_of(colliders, c) == Some(e) ==> colliders.contains_key(c) && colliders[c] == e,
{
}

/// The pickups, turrets and doors that are listed are the placed objects of that sort, each once.
pub proof fn placed_objects_are_listed(
    m: Map<u64, ObjectView>,
    pickups: Seq<u64>,
    turrets: Seq<u64>,
    doors: Seq<u64>,
    e: u64,
)
    requires
        lists_pickups(m, pickups),
        lists_turrets(m, turrets),
        lists_doors(m, doors),
    ensures
        pickups.contains(e) <==> m.contains_key(e) && m[e].spot is Some && m[e].pickup is Some,
        turrets.contains(e) <==> m.contains_key(e) && m[e].spot is Some && m[e].turret,
        doors.contains(e) <==> m.contains_key(e) && m[e].spot is Some && m[e].door,
        pickups.no_duplicates() && turrets.no_duplicates() && doors.no_duplicates(),
{
}

} // verus!
