use lazy_archdemon::entity::{lookup, Entity, UnitState};
use lazy_archdemon::fx::{despawn_timer, DespawnTimer, FxLibrary};
use lazy_archdemon::geometry::Vec3;
use lazy_archdemon::projectile::{
    aim, deal_damage, fly, shoot_dumb, shoot_homing, Damage, DumbProjectile, HomingProjectile,
    ProjectilePrefab, ProjectileTarget, RayProjectile, AIM_HEIGHT,
};
use lazy_archdemon::tower::{
    acquire_target, find_target, look_at_target, Heading, Shot, Target, Targetter, Tower,
};
use lazy_archdemon::unit::Health;

fn at(x: i32, y: i32, z: i32) -> Vec3 {
    Vec3 { x, y, z }
}

fn unit(id: u64, position: Vec3, progress: u64, health: i64) -> UnitState {
    UnitState { entity: Entity(id), position, progress, health: Health(health) }
}

fn healths(units: &Vec<UnitState>) -> Vec<i64> {
    units.iter().map(|u| u.health.0).collect()
}

const UP: Vec3 = Vec3 { x: 0, y: 1000, z: 0 };

#[test]
fn lookup_finds_the_first_of_that_name() {
    let units = vec![
        unit(4, at(0, 0, 0), 0, 1),
        unit(7, at(1, 0, 0), 0, 1),
        unit(7, at(2, 0, 0), 0, 1),
    ];
    assert_eq!(lookup(&units, Entity(4)), Some(0));
    assert_eq!(lookup(&units, Entity(7)), Some(1));
    assert_eq!(lookup(&units, Entity(5)), None);
    assert_eq!(lookup(&vec![], Entity(5)), None);
}

#[test]
fn defaults_of_the_tower() {
    assert_eq!(Targetter::default(), Targetter { range: 10_000 });
    assert_eq!(
        Tower::default(),
        Tower { projectile: ProjectilePrefab::Arrow, cooldown: 1_000_000_000, height: 1000, next: 0 }
    );
}

#[test]
fn find_target_takes_the_unit_that_has_come_furthest() {
    let units = vec![
        unit(1, at(1000, 0, 0), 500, 1),
        unit(2, at(2000, 0, 0), 900, 1),
        unit(3, at(3000, 0, 0), 700, 1),
    ];
    let found = find_target(at(0, 0, 0), &Targetter { range: 10_000 }, &units);
    assert_eq!(found, Some(Target(Entity(2))));
}

#[test]
fn find_target_leaves_out_what_is_out_of_reach() {
    let units = vec![
        unit(1, at(1000, 0, 0), 500, 1),
        unit(2, at(20_000, 0, 0), 900, 1),
        unit(3, at(3000, 0, 0), 700, 1),
    ];
    let found = find_target(at(0, 0, 0), &Targetter { range: 10_000 }, &units);
    assert_eq!(found, Some(Target(Entity(3))));
}

#[test]
fn find_target_takes_the_first_of_equals() {
    let units = vec![
        unit(1, at(1000, 0, 0), 100, 1),
        unit(2, at(2000, 0, 0), 900, 1),
        unit(3, at(3000, 0, 0), 900, 1),
    ];
    let found = find_target(at(0, 0, 0), &Targetter { range: 10_000 }, &units);
    assert_eq!(found, Some(Target(Entity(2))));
}

#[test]
fn find_target_takes_a_unit_at_the_start_of_its_path() {
    let units = vec![unit(1, at(1000, 0, 0), 0, 1)];
    let found = find_target(at(0, 0, 0), &Targetter { range: 10_000 }, &units);
    assert_eq!(found, Some(Target(Entity(1))));
}

#[test]
fn find_target_sees_nothing_at_the_edge_of_its_reach() {
    let units = vec![unit(1, at(10_000, 0, 0), 500, 1), unit(2, at(0, 0, -10_001), 900, 1)];
    assert_eq!(find_target(at(0, 0, 0), &Targetter { range: 10_000 }, &units), None);
    assert_eq!(find_target(at(0, 0, 0), &Targetter { range: 10_000 }, &vec![]), None);
    let nearer = vec![unit(1, at(9_999, 0, 0), 500, 1)];
    assert_eq!(
        find_target(at(0, 0, 0), &Targetter { range: 10_000 }, &nearer),
        Some(Target(Entity(1)))
    );
}

#[test]
fn a_tower_that_has_a_target_keeps_it() {
    let units = vec![unit(1, at(1000, 0, 0), 500, 1), unit(2, at(2000, 0, 0), 900, 1)];
    let reach = Targetter { range: 10_000 };
    let engaged = Some(Target(Entity(1)));
    assert_eq!(acquire_target(engaged, at(0, 0, 0), &reach, &units), engaged);
    // Even one that is gone: it is forgotten at the next attempt to fire.
    let stale = Some(Target(Entity(77)));
    assert_eq!(acquire_target(stale, at(0, 0, 0), &reach, &units), stale);
    assert_eq!(acquire_target(stale, at(0, 0, 0), &reach, &vec![]), stale);
}

#[test]
fn a_tower_without_a_target_picks_one() {
    let units = vec![unit(1, at(1000, 0, 0), 500, 1), unit(2, at(2000, 0, 0), 900, 1)];
    let reach = Targetter { range: 10_000 };
    assert_eq!(acquire_target(None, at(0, 0, 0), &reach, &units), Some(Target(Entity(2))));
    assert_eq!(acquire_target(None, at(50_000, 0, 0), &reach, &units), None);
}

#[test]
fn look_at_target_leaves_heights_aside() {
    let units = vec![unit(1, at(3000, 9000, -4000), 0, 1)];
    assert_eq!(
        look_at_target(&Target(Entity(1)), at(1000, 0, 1000), &units),
        Some(Heading { x: 2000, z: -5000 })
    );
    assert_eq!(look_at_target(&Target(Entity(2)), at(1000, 0, 1000), &units), None);
}

#[test]
fn look_at_target_across_the_whole_lattice() {
    let units = vec![unit(1, at(i32::MAX, 0, i32::MIN), 0, 1)];
    assert_eq!(
        look_at_target(&Target(Entity(1)), at(i32::MIN, 0, i32::MAX), &units),
        Some(Heading { x: 0xffff_ffff, z: -0xffff_ffff })
    );
}

#[test]
fn tower_rests_until_the_clock_has_passed_its_time() {
    let units = vec![unit(1, at(1000, 0, 0), 0, 1)];
    let mut tower = Tower { next: 5_000, ..Tower::default() };
    let targetter = Targetter::default();
    let target = Target(Entity(1));
    assert_eq!(tower.shoot(&targetter, &target, at(0, 0, 0), UP, &units, 4_999), Shot::Resting);
    assert_eq!(tower.shoot(&targetter, &target, at(0, 0, 0), UP, &units, 5_000), Shot::Resting);
    assert_eq!(tower.next, 5_000);
    let shot = tower.shoot(&targetter, &target, at(0, 0, 0), UP, &units, 5_001);
    assert!(matches!(shot, Shot::Fire { .. }));
}

#[test]
fn tower_fires_and_rests_for_its_cooldown() {
    let units = vec![unit(8, at(0, 0, 0), 0, 1), unit(1, at(1000, 200, 3000), 0, 1)];
    let mut tower =
        Tower { projectile: ProjectilePrefab::Bomb, cooldown: 750, height: 1500, next: 10 };
    let reach = Targetter { range: 4000 };
    let shot = tower.shoot(&reach, &Target(Entity(1)), at(0, 100, 0), UP, &units, 1000);
    assert_eq!(
        shot,
        Shot::Fire {
            prefab: ProjectilePrefab::Bomb,
            flight: ProjectileTarget {
                entity: Entity(1),
                target: at(1000, 200, 3000),
                pos: at(0, 1600, 0),
            },
        }
    );
    assert_eq!(
        tower,
        Tower { projectile: ProjectilePrefab::Bomb, cooldown: 750, height: 1500, next: 1750 }
    );
}

#[test]
fn tower_that_leans_fires_from_where_its_top_is() {
    let units = vec![unit(1, at(1000, 0, 0), 0, 1)];
    let mut tower = Tower { height: 2000, ..Tower::default() };
    let shot = tower.shoot(
        &Targetter::default(),
        &Target(Entity(1)),
        at(0, 0, 0),
        at(600, 800, 0),
        &units,
        1,
    );
    assert_eq!(
        shot,
        Shot::Fire {
            prefab: ProjectilePrefab::Arrow,
            flight: ProjectileTarget {
                entity: Entity(1),
                target: at(1000, 0, 0),
                pos: at(1200, 1600, 0),
            },
        }
    );
}

#[test]
fn tower_forgets_a_target_that_is_gone() {
    let units = vec![unit(1, at(1000, 0, 0), 0, 1)];
    let mut tower = Tower::default();
    let before = tower;
    let shot = tower.shoot(&Targetter::default(), &Target(Entity(2)), at(0, 0, 0), UP, &units, 1);
    assert_eq!(shot, Shot::Forget);
    assert_eq!(tower, before);
}

#[test]
fn tower_forgets_a_target_out_of_reach() {
    let units = vec![unit(1, at(10_000, 0, 0), 0, 1)];
    let mut tower = Tower::default();
    let before = tower;
    let shot = tower.shoot(&Targetter::default(), &Target(Entity(1)), at(0, 0, 0), UP, &units, 1);
    assert_eq!(shot, Shot::Forget);
    assert_eq!(tower, before);
}

#[test]
fn tower_keeps_a_stale_target_while_it_rests() {
    let mut tower = Tower { next: 100, ..Tower::default() };
    let shot = tower.shoot(&Targetter::default(), &Target(Entity(1)), at(0, 0, 0), UP, &vec![], 50);
    assert_eq!(shot, Shot::Resting);
}

#[test]
fn tower_ready_time_stops_at_the_end_of_the_clock() {
    let units = vec![unit(1, at(1000, 0, 0), 0, 1)];
    let mut tower = Tower { cooldown: u64::MAX, ..Tower::default() };
    let shot = tower.shoot(&Targetter::default(), &Target(Entity(1)), at(0, 0, 0), UP, &units, 17);
    assert!(matches!(shot, Shot::Fire { .. }));
    assert_eq!(tower.next, u64::MAX);
}

#[test]
fn damage_defaults_and_amounts() {
    assert_eq!(Damage::default(), Damage::Physical(20_000));
    assert_eq!(Damage::Physical(5).amount(), 5);
    assert_eq!(Damage::Magical(6).amount(), 6);
    assert_eq!(Damage::Explosive(7, 8).amount(), 7);
}

#[test]
fn projectile_defaults() {
    assert_eq!(
        HomingProjectile::default(),
        HomingProjectile { damage: Damage::Physical(10_000), speed: 20_000 }
    );
    assert_eq!(
        DumbProjectile::default(),
        DumbProjectile { damage: Damage::Explosive(10_000, 4_000), speed: 20_000 }
    );
    assert_eq!(
        RayProjectile::default(),
        RayProjectile { damage: Damage::Magical(10_000), duration: 1_000_000_000 }
    );
    assert_eq!(ProjectilePrefab::default(), ProjectilePrefab::Arrow);
}

#[test]
fn projectile_scenes() {
    assert_eq!(ProjectilePrefab::Arrow.path(), "scenes/Arrow.scn.ron");
    assert_eq!(ProjectilePrefab::Bomb.path(), "scenes/Bomb.scn.ron");
}

#[test]
fn projectile_target_holds_what_it_is_given() {
    let flight = ProjectileTarget::new(Entity(5), at(1, 2, 3), at(4, 5, 6));
    assert_eq!(flight, ProjectileTarget { entity: Entity(5), target: at(1, 2, 3), pos: at(4, 5, 6) });
}

#[test]
fn physical_damage_is_taken_from_the_target_alone() {
    let mut units = vec![
        unit(1, at(0, 0, 0), 0, 100_000),
        unit(2, at(0, 0, 0), 0, 100_000),
        unit(3, at(0, 0, 0), 0, 100_000),
    ];
    deal_damage(at(0, 0, 0), Damage::Physical(20_000), Entity(2), &mut units);
    assert_eq!(healths(&units), vec![100_000, 80_000, 100_000]);
    deal_damage(at(0, 0, 0), Damage::Magical(90_000), Entity(2), &mut units);
    assert_eq!(healths(&units), vec![100_000, -10_000, 100_000]);
}

#[test]
fn damage_to_a_target_that_is_gone_falls_on_nobody() {
    let mut units = vec![unit(1, at(0, 0, 0), 0, 100_000), unit(2, at(0, 0, 0), 0, 100_000)];
    let before = units.clone();
    deal_damage(at(0, 0, 0), Damage::Physical(20_000), Entity(9), &mut units);
    assert_eq!(units, before);
    deal_damage(at(0, 0, 0), Damage::Magical(20_000), Entity(9), &mut units);
    assert_eq!(units, before);
}

#[test]
fn damage_touches_nothing_but_health() {
    let mut units = vec![unit(1, at(5, 6, 7), 321, 100_000)];
    deal_damage(at(0, 0, 0), Damage::Physical(1), Entity(1), &mut units);
    assert_eq!(units, vec![unit(1, at(5, 6, 7), 321, 99_999)]);
}

#[test]
fn explosion_reaches_all_within_its_radius_and_nobody_beyond() {
    let mut units = vec![
        unit(1, at(3_999, 0, 0), 0, 100_000),
        unit(2, at(4_000, 0, 0), 0, 100_000),
        unit(3, at(0, 0, -4_001), 0, 100_000),
        unit(4, at(0, 0, 0), 0, 100_000),
        unit(5, at(2_000, 2_000, 2_000), 0, 100_000),
        unit(6, at(2_400, 2_400, 2_400), 0, 100_000),
    ];
    // The target is none of them, and is out of reach for that matter.
    deal_damage(at(0, 0, 0), Damage::Explosive(10_000, 4_000), Entity(77), &mut units);
    assert_eq!(healths(&units), vec![90_000, 100_000, 100_000, 90_000, 90_000, 100_000]);
}

#[test]
fn explosion_away_from_its_target_spares_it() {
    let mut units = vec![unit(1, at(50_000, 0, 0), 0, 100_000), unit(2, at(100, 0, 0), 0, 100_000)];
    deal_damage(at(0, 0, 0), Damage::Explosive(10_000, 4_000), Entity(1), &mut units);
    assert_eq!(healths(&units), vec![100_000, 90_000]);
}

#[test]
fn explosion_without_radius_reaches_nobody() {
    let mut units = vec![unit(1, at(0, 0, 0), 0, 100_000)];
    deal_damage(at(0, 0, 0), Damage::Explosive(10_000, 0), Entity(1), &mut units);
    assert_eq!(healths(&units), vec![100_000]);
}

#[test]
fn health_stops_at_the_least_value() {
    assert_eq!(Health(i64::MIN + 5).after_hit(10), Health(i64::MIN));
    assert_eq!(Health(i64::MIN + 10).after_hit(10), Health(i64::MIN));
    assert_eq!(Health(i64::MIN + 11).after_hit(10), Health(i64::MIN + 1));
    assert_eq!(Health(0).after_hit(u32::MAX), Health(-(u32::MAX as i64)));
    assert_eq!(Health(i64::MAX).after_hit(0), Health(i64::MAX));
}

#[test]
fn aim_is_a_little_above_the_target() {
    assert_eq!(AIM_HEIGHT, 300);
    assert_eq!(aim(at(1000, 2000, 3000)), at(1000, 2300, 3000));
    assert_eq!(aim(at(0, i32::MAX - 300, 0)), at(0, i32::MAX, 0));
    assert_eq!(aim(at(0, i32::MAX - 299, 0)), at(0, i32::MAX, 0));
    assert_eq!(aim(at(0, i32::MIN, 0)), at(0, i32::MIN + 300, 0));
}

#[test]
fn fly_moves_by_the_step() {
    assert_eq!(fly(at(0, 0, 0), at(10_000, 0, 0), 2000), Some(at(2000, 0, 0)));
    assert_eq!(fly(at(0, 0, 0), at(3000, 4000, 0), 1000), Some(at(600, 800, 0)));
    assert_eq!(fly(at(0, 0, 0), at(-3000, -4000, 12_000), 1300), Some(at(-300, -400, 1200)));
    assert_eq!(fly(at(100, 100, 100), at(100, 100, 1100), 0), Some(at(100, 100, 100)));
}

#[test]
fn fly_rounds_toward_where_it_is() {
    // The way is 1732 long, rounded down; a step of 1000 covers 1000/1732 of
    // each coordinate.
    assert_eq!(fly(at(0, 0, 0), at(1000, -1000, 1000), 1000), Some(at(577, -577, 577)));
}

#[test]
fn fly_arrives_only_when_the_step_is_longer_than_the_way() {
    assert_eq!(fly(at(0, 0, 0), at(3000, 4000, 0), 5001), None);
    assert_eq!(fly(at(0, 0, 0), at(3000, 4000, 0), 5000), Some(at(3000, 4000, 0)));
    assert_eq!(fly(at(0, 0, 0), at(3000, 4000, 0), 4999), Some(at(2999, 3999, 0)));
    assert_eq!(fly(at(7, 7, 7), at(7, 7, 7), 0), Some(at(7, 7, 7)));
    assert_eq!(fly(at(7, 7, 7), at(7, 7, 7), 1), None);
}

#[test]
fn fly_with_a_huge_step_arrives() {
    let far = at(i32::MAX, i32::MAX, i32::MAX);
    let near = at(i32::MIN, i32::MIN, i32::MIN);
    assert_eq!(fly(near, far, u64::MAX), None);
    assert_eq!(fly(near, far, 0x2_0000_0000), None);
    assert_eq!(fly(near, far, 7_439_101_571), Some(far));
    assert_eq!(fly(near, far, 7_439_101_572), None);
}

#[test]
fn fly_never_passes_its_aim() {
    let from = at(-50, 70, 10_000);
    let to = at(900, -300, 9_000);
    for step in 0..1500u64 {
        match fly(from, to, step) {
            Some(p) => {
                assert!(from.x <= p.x && p.x <= to.x);
                assert!(to.y <= p.y && p.y <= from.y);
                assert!(to.z <= p.z && p.z <= from.z);
            }
            None => assert!((step as u128) * (step as u128) > from.distance_squared(&to)),
        }
    }
}

#[test]
fn dumb_projectile_moves_toward_where_the_target_stood() {
    let bomb = DumbProjectile::default();
    let flight = ProjectileTarget::new(Entity(1), at(10_000, -300, 0), at(0, 0, 0));
    let mut units = vec![unit(1, at(500, 0, 0), 0, 100_000)];
    let mut position = at(0, 0, 0);
    // A tenth of a second at twenty units a second: two units.
    let despawn = shoot_dumb(&bomb, &flight, &mut position, 100_000_000, &mut units);
    assert!(!despawn);
    assert_eq!(position, at(2000, 0, 0));
    assert_eq!(healths(&units), vec![100_000]);
}

#[test]
fn dumb_projectile_arrives_and_explodes_where_it_is() {
    let bomb = DumbProjectile::default();
    let flight = ProjectileTarget::new(Entity(1), at(10_000, -300, 0), at(0, 0, 0));
    let mut units = vec![
        unit(1, at(12_000, 0, 0), 0, 100_000),
        unit(2, at(8_000, 0, 0), 0, 100_000),
        unit(3, at(3_000, 0, 0), 0, 100_000),
    ];
    let mut position = at(9_000, 0, 0);
    let despawn = shoot_dumb(&bomb, &flight, &mut position, 100_000_000, &mut units);
    assert!(despawn);
    assert_eq!(position, at(9_000, 0, 0));
    assert_eq!(healths(&units), vec![90_000, 90_000, 100_000]);
}

#[test]
fn dumb_projectile_does_not_follow() {
    let arrow = DumbProjectile { damage: Damage::Physical(30_000), speed: 1000 };
    let flight = ProjectileTarget::new(Entity(1), at(0, -300, 5_000), at(0, 0, 0));
    // The target has walked away since.
    let mut units = vec![unit(1, at(90_000, 0, 0), 0, 100_000)];
    let mut position = at(0, 0, 0);
    assert!(!shoot_dumb(&arrow, &flight, &mut position, 1_000_000_000, &mut units));
    assert_eq!(position, at(0, 0, 1000));
    let mut position = at(0, 0, 4_500);
    assert!(shoot_dumb(&arrow, &flight, &mut position, 1_000_000_000, &mut units));
    assert_eq!(healths(&units), vec![70_000]);
}

#[test]
fn dumb_projectile_whose_target_is_gone_still_arrives() {
    let arrow = DumbProjectile { damage: Damage::Physical(30_000), speed: 1000 };
    let flight = ProjectileTarget::new(Entity(1), at(0, -300, 0), at(0, 0, 0));
    let mut units = vec![unit(2, at(0, 0, 0), 0, 100_000)];
    let mut position = at(0, 0, 10);
    assert!(shoot_dumb(&arrow, &flight, &mut position, 1_000_000_000, &mut units));
    assert_eq!(healths(&units), vec![100_000]);
}

#[test]
fn homing_projectile_follows_its_target() {
    let arrow = HomingProjectile::default();
    let flight = ProjectileTarget::new(Entity(1), at(10_000, 0, 0), at(0, 0, 0));
    // The target has moved since the launch.
    let mut units = vec![unit(2, at(0, 0, 0), 0, 100_000), unit(1, at(0, -300, 10_000), 0, 100_000)];
    let mut position = at(0, 0, 0);
    let despawn = shoot_homing(&arrow, &flight, &mut position, 100_000_000, &mut units);
    assert!(!despawn);
    assert_eq!(position, at(0, 0, 2000));
    assert_eq!(healths(&units), vec![100_000, 100_000]);
}

#[test]
fn homing_projectile_hits_its_target() {
    let arrow = HomingProjectile::default();
    let flight = ProjectileTarget::new(Entity(1), at(10_000, 0, 0), at(0, 0, 0));
    let mut units = vec![unit(2, at(0, 0, 9_000), 0, 100_000), unit(1, at(0, -300, 10_000), 0, 100_000)];
    let mut position = at(0, 0, 9_000);
    let despawn = shoot_homing(&arrow, &flight, &mut position, 100_000_000, &mut units);
    assert!(despawn);
    assert_eq!(position, at(0, 0, 9_000));
    assert_eq!(healths(&units), vec![100_000, 90_000]);
}

#[test]
fn homing_projectile_whose_target_is_gone_harms_nobody() {
    let flight = ProjectileTarget::new(Entity(1), at(10, 0, 0), at(0, 0, 0));
    let before = vec![unit(2, at(0, 0, 0), 0, 100_000), unit(3, at(10, 0, 0), 0, 5)];
    for damage in [Damage::Physical(9), Damage::Magical(9), Damage::Explosive(9, 50_000)] {
        let mut units = before.clone();
        let mut position = at(1, 0, 0);
        let missile = HomingProjectile { damage, speed: 20_000 };
        let despawn = shoot_homing(&missile, &flight, &mut position, 1_000_000_000, &mut units);
        assert!(despawn);
        assert_eq!(position, at(1, 0, 0));
        assert_eq!(units, before);
    }
}

#[test]
fn ray_goes_when_its_time_is_up() {
    let ray = RayProjectile::default();
    let timer = ray.setup_ray(5_000_000_000);
    assert_eq!(timer, DespawnTimer(6_000_000_000));
    assert!(!timer.expired(5_999_999_999));
    assert!(!timer.expired(6_000_000_000));
    assert!(timer.expired(6_000_000_001));
    assert_eq!(RayProjectile { duration: u64::MAX, ..ray }.setup_ray(1), DespawnTimer(u64::MAX));
}

#[test]
fn despawn_timer_lists_what_has_run_out() {
    let timers = vec![
        (Entity(1), DespawnTimer(100)),
        (Entity(2), DespawnTimer(50)),
        (Entity(3), DespawnTimer(99)),
        (Entity(4), DespawnTimer(0)),
    ];
    assert_eq!(despawn_timer(&timers, 100), vec![Entity(2), Entity(3), Entity(4)]);
    assert_eq!(despawn_timer(&timers, 0), vec![]);
    assert_eq!(despawn_timer(&timers, 101), vec![Entity(1), Entity(2), Entity(3), Entity(4)]);
    assert_eq!(despawn_timer(&vec![], 101), vec![]);
    assert_eq!(DespawnTimer::default(), DespawnTimer(0));
}

#[test]
fn effects_and_their_scenes() {
    assert_eq!(FxLibrary::default(), FxLibrary::Death);
    assert_eq!(FxLibrary::Death.path(), "scenes/DeathFx.scn.ron");
    assert_eq!(FxLibrary::Explosion.path(), "scenes/Explosion.scn.ron");
}
