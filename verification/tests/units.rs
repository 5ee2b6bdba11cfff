use faction_motion::allegiance::Faction;
use faction_motion::camera::update_camera_focus;
use faction_motion::fx::Vec2Fx;
use faction_motion::grid::Grid;
use faction_motion::kinematic::{Mover, Position, Velocity, Acceleration, Dampening, Mass, SelfMoving};
use faction_motion::player::{LocalPlayerBundle, PlayerBundle, Player, update_local_player_controlled};
use faction_motion::unit::{
    HP, Invulnerability, Radius, UnitBundleWithFaction, UnitBundleWithoutFaction,
    tick_down_invulnerability,
};

#[test]
fn hp_lifecycle() {
    let mut hp = HP::new(30_000, 100_000);
    assert!(hp.is_alive());
    assert!(!hp.is_dead());
    hp.heal(50_000);
    assert_eq!(hp.value, 80_000);
    hp.heal(50_000);
    assert_eq!(hp.value, 100_000); // clamped at the maximum
    let mut hp = HP::new(-5, 100);
    assert!(hp.is_dead());
    hp.refill();
    assert_eq!(hp.value, 100);
    assert!(hp.is_alive());
    let full = HP::full(250);
    assert_eq!((full.value, full.max), (250, 250));
}

#[test]
fn invulnerability_counts_down_and_stops_at_zero() {
    let mut windows = vec![Invulnerability::new(2500), Invulnerability::new(300)];
    tick_down_invulnerability(&mut windows, 1000);
    assert_eq!(windows[0].remaining, 1500);
    assert_eq!(windows[1].remaining, 0);
    tick_down_invulnerability(&mut windows, 1000);
    assert_eq!(windows[0].remaining, 500);
    assert_eq!(windows[1].remaining, 0);
    let spent: Invulnerability = Default::default();
    assert_eq!(spent.remaining, 0);
}

#[test]
fn unit_bundles_use_the_diameter_as_cross_section() {
    let unit = UnitBundleWithoutFaction::new(HP::full(100_000), Radius(5000));
    assert_eq!(unit.kinematic.cross_section_size.0, 10_000);
    assert_eq!(unit.hp.value, 100_000);
    let with_faction = UnitBundleWithFaction::new(Faction::A, HP::full(100_000), Radius(5000));
    assert_eq!(with_faction.faction, Faction::A);
    assert_eq!(with_faction.unit.kinematic.cross_section_size.0, 10_000);
    let local = LocalPlayerBundle::new(PlayerBundle { player: Player, unit: with_faction });
    assert_eq!(local.player.unit.faction, Faction::A);
}

fn controlled_mover() -> Mover {
    Mover {
        position: Position(Vec2Fx { x: 0, y: 0 }),
        velocity: Velocity(Vec2Fx { x: 0, y: 0 }),
        acceleration: Some(Acceleration(Vec2Fx { x: 0, y: 0 })),
        dampening: Some(Dampening { max_acc: 0 }),
        mass: Mass(1000),
        self_moving: Some(SelfMoving { accel: 2_000_000 }),
        decelerating: None,
        moving_to: None,
        following: None,
        moving_in: None,
        cross_section_size: None,
        experience_drag: None,
        position_changed: false,
    }
}

#[test]
fn no_input_means_brake_and_removes_thrust() {
    let mut m = controlled_mover();
    update_local_player_controlled(&mut m, true, false, false, false);
    assert!(m.moving_in.is_some());
    update_local_player_controlled(&mut m, false, false, false, false);
    assert!(m.moving_in.is_none());
    assert!(m.decelerating.is_some());
}

#[test]
fn input_means_thrust_along_the_normalized_key_direction() {
    let mut m = controlled_mover();
    // only right: unit x
    update_local_player_controlled(&mut m, false, false, false, true);
    let dir = m.moving_in.unwrap().dir;
    assert_eq!((dir.x, dir.y), (1000, 0));
    assert!(m.decelerating.is_none());
    // up and right: the diagonal unit
    update_local_player_controlled(&mut m, true, false, false, true);
    let dir = m.moving_in.unwrap().dir;
    assert_eq!((dir.x, dir.y), (707, 707));
    // left and right cancel; up wins alone
    update_local_player_controlled(&mut m, true, true, false, true);
    let dir = m.moving_in.unwrap().dir;
    assert_eq!((dir.x, dir.y), (0, 1000));
}

#[test]
fn grid_snaps_to_the_nearest_cell_corner() {
    let grid = Grid { cell_size: 1000, cell_count: (8, 6), cell_subdivision: 4 };
    let (cx, cy) = grid.get_closest_discrete_position(Vec2Fx { x: 1499, y: -1500 });
    assert_eq!((cx, cy), (1, -2)); // halves round away from zero
    let snapped = grid.get_closest_position(Vec2Fx { x: 1499, y: -1500 });
    assert_eq!((snapped.x, snapped.y), (1000, -2000));
    assert_eq!(grid.width(), 8000);
    assert_eq!(grid.height(), 6000);
    let size = grid.size();
    assert_eq!((size.x, size.y), (8000, 6000));
    assert_eq!(grid.subdivision_offset(), 250);
}

#[test]
fn camera_focus_is_one_fifth_toward_the_mouse() {
    let focus = update_camera_focus(Vec2Fx { x: 0, y: 0 }, Vec2Fx { x: 10_000, y: -5_000 });
    assert_eq!((focus.x, focus.y), (2_000, -1_000));
    let stay = update_camera_focus(Vec2Fx { x: 400, y: 400 }, Vec2Fx { x: 400, y: 400 });
    assert_eq!((stay.x, stay.y), (400, 400));
}
