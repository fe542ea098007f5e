use hunt_world::arms::Gun;
use hunt_world::combat::ClipTables;
use hunt_world::hunter::AiMode;
use hunt_world::props::{
    Destroyed, Door, Health, Pickup, PropHit, RayHit, Renderable, ShotEffect, Transform, Turret,
};
use hunt_world::settings::Bodies;
use hunt_world::space::Point;
use hunt_world::world::{Assets, World};

fn at(x: i32) -> Point {
    Point { x, y: 0, z: 0 }
}

fn world() -> World {
    World::new(Assets {
        bodies: Bodies::none(),
        tables: ClipTables {
            injuries: vec![],
            deaths: vec![],
            torso: 0,
            head_flinches: 1,
            torso_flinches: 1,
            leg_flinches: 1,
            death_clips: 1,
        },
        guns: vec![Gun {
            magazine: 0,
            reserve: 0,
            magazine_size: 0,
            price: 0,
            ammo_price: 0,
            reloading: false,
            unarmed: true,
        }],
        own_all: true,
        bounty: 1,
        ammo_mags: 1,
        ai_mode: AiMode::Ours,
        unarmed_hunters: false,
        anim_debug: false,
    })
}

#[test]
fn an_object_goes_to_pieces_once_and_leaves_a_husk() {
    let mut w = world();
    let crate_ = w.ecs.spawn((Health(25_000), Renderable(3), Transform(at(5))));
    let other = w.ecs.spawn((Health(25_000), Renderable(4)));
    w.prop_colliders.insert(77, crate_.to_bits().get());
    w.prop_colliders.insert(78, other.to_bits().get());
    assert_eq!(w.hit_prop(77, at(1), 10_000), PropHit::Standing);
    assert_eq!(w.ecs.get::<&Health>(crate_).unwrap().0, 15_000);
    assert_eq!(w.hit_prop(77, at(1), 15_000), PropHit::Destroyed(Some(3)));
    assert!(w.ecs.get::<&Destroyed>(crate_).is_ok());
    assert_eq!(w.hit_prop(77, at(1), 15_000), PropHit::Husk);
    assert_eq!(w.ecs.get::<&Health>(crate_).unwrap().0, 0);
    assert_eq!(w.ecs.get::<&Health>(other).unwrap().0, 25_000);
    assert!(w.ecs.get::<&Destroyed>(other).is_err());
    assert_eq!(w.sparks.len(), 3, "a spark either way");
}

#[test]
fn stale_capsules_and_tough_objects_only_spark() {
    let mut w = world();
    let rock = w.ecs.spawn((Renderable(1),));
    let gone = w.ecs.spawn((Health(1),));
    w.prop_colliders.insert(1, rock.to_bits().get());
    w.prop_colliders.insert(2, gone.to_bits().get());
    w.prop_colliders.insert(3, 0);
    w.ecs.despawn(gone).unwrap();
    assert_eq!(w.hit_prop(9, at(0), 1), PropHit::Stale);
    assert_eq!(w.hit_prop(1, at(0), 1), PropHit::Standing);
    assert_eq!(w.hit_prop(2, at(0), 1), PropHit::Standing);
    assert_eq!(w.hit_prop(3, at(0), 1), PropHit::Standing);
    assert!(w.ecs.get::<&Destroyed>(rock).is_err());
    let bare = w.ecs.spawn((Health(5),));
    w.prop_colliders.insert(4, bare.to_bits().get());
    assert_eq!(w.hit_prop(4, at(0), 6), PropHit::Destroyed(None));
}

#[test]
fn a_shot_goes_to_what_it_met() {
    let mut w = world();
    let e = w.ecs.spawn((Health(5_000), Renderable(8)));
    w.prop_colliders.insert(5, e.to_bits().get());
    assert_eq!(w.fire_hitscan(RayHit::Nothing, 5_000), ShotEffect::Nothing);
    assert_eq!(w.fire_hitscan(RayHit::Surface { point: at(3) }, 5_000), ShotEffect::Spark);
    assert_eq!(w.sparks[0].pos, at(3));
    assert_eq!(
        w.fire_hitscan(RayHit::Prop { collider: 5, point: at(4) }, 5_000),
        ShotEffect::Prop(PropHit::Destroyed(Some(8)))
    );
    assert_eq!(
        w.fire_hitscan(RayHit::Enemy { collider: 5, height: 0, part: None }, 5_000),
        ShotEffect::Nothing
    );
}

#[test]
fn the_placed_objects_are_found_where_they_stand() {
    let mut w = world();
    let none = w.authored_objects();
    assert!(none.pickups.is_empty() && none.turrets.is_empty() && none.doors.is_empty());
    w.ecs.spawn((Transform(at(1)), Pickup(7)));
    w.ecs.spawn((Transform(at(2)), Pickup(8), Renderable(1)));
    w.ecs.spawn((Pickup(9),));
    w.ecs.spawn((Transform(at(3)), Turret));
    w.ecs.spawn((Transform(at(4)), Door));
    w.ecs.spawn((Transform(at(5)),));
    let mut found = w.authored_objects();
    found.pickups.sort_by_key(|p| p.1);
    assert_eq!(found.pickups, vec![(at(1), 7), (at(2), 8)]);
    assert_eq!(found.turrets, vec![at(3)]);
    assert_eq!(found.doors, vec![at(4)]);
}
