use faction_motion::fx::{Vec2Fx, isqrt, length, mulfx, halffx, tdiv, normalize_or_zero};
use faction_motion::kinematic::{
    Acceleration, Dampening, Decelerating, ExperienceDrag, FluidDensity, Following, FullKinematic,
    Mass, Mover, MovingIn, MovingTo, Position, SelfMoving, SymmeticFullKinematic, Velocity,
    CrossSectionSize, drag_acceleration, drift_step, integrate_motion, seek_acceleration,
    thrust_acceleration, tick, update_decelerating, update_drag_symmetric, update_following,
    update_kinematic, update_movement, update_moving_in_dir, update_moving_to_dest,
};

fn resting_mover() -> Mover {
    Mover {
        position: Position(Vec2Fx { x: 0, y: 0 }),
        velocity: Velocity(Vec2Fx { x: 0, y: 0 }),
        acceleration: Some(Acceleration(Vec2Fx { x: 0, y: 0 })),
        dampening: Some(Dampening { max_acc: 0 }),
        mass: Mass(1000),
        self_moving: None,
        decelerating: None,
        moving_to: None,
        following: None,
        moving_in: None,
        cross_section_size: None,
        experience_drag: None,
        position_changed: false,
    }
}

#[test]
fn fixed_point_operations_are_exact() {
    assert_eq!(mulfx(1500, 2000), 3000);
    assert_eq!(mulfx(-1500, 500), -750);
    assert_eq!(mulfx(1, 1), 0); // truncation toward zero
    assert_eq!(mulfx(-1, 999), 0);
    assert_eq!(halffx(5), 2);
    assert_eq!(halffx(-5), -2);
    assert_eq!(tdiv(-7, 2), -3);
    assert_eq!(tdiv(7, 2), 3);
    assert_eq!(isqrt(0), 0);
    assert_eq!(isqrt(1), 1);
    assert_eq!(isqrt(2_000_000), 1414);
    assert_eq!(length(Vec2Fx { x: 3000, y: 4000 }), 5000);
    assert_eq!(length(Vec2Fx { x: -3000, y: 4000 }), 5000);
    let unit = normalize_or_zero(Vec2Fx { x: 100_000, y: 0 });
    assert_eq!((unit.x, unit.y), (1000, 0));
    let diag = normalize_or_zero(Vec2Fx { x: 1000, y: -1000 });
    assert_eq!((diag.x, diag.y), (707, -707));
    let zero = normalize_or_zero(Vec2Fx { x: 0, y: 0 });
    assert_eq!((zero.x, zero.y), (0, 0));
}

#[test]
fn integrator_rest_is_unchanged_for_any_dt() {
    for dt in [0i64, 1, 7, 1000, 30_000] {
        let (pos, vel) = integrate_motion(
            Vec2Fx { x: 0, y: 0 },
            Vec2Fx { x: 0, y: 0 },
            Vec2Fx { x: 0, y: 0 },
            0,
            dt,
        );
        assert_eq!((pos.x, pos.y), (0, 0));
        assert_eq!((vel.x, vel.y), (0, 0));
    }
}

#[test]
fn dampening_removes_exactly_the_requested_speed_on_an_axis() {
    // speed 5, dampening 2 per second, one second: speed drops to exactly 3
    let (pos, vel) = integrate_motion(
        Vec2Fx { x: 0, y: 0 },
        Vec2Fx { x: 5000, y: 0 },
        Vec2Fx { x: 0, y: 0 },
        2000,
        1000,
    );
    assert_eq!((vel.x, vel.y), (3000, 0));
    // trapezoidal position update: dt * (v + dv/2) = 5 - 1 = 4
    assert_eq!((pos.x, pos.y), (4000, 0));
}

#[test]
fn dampening_never_reverses_velocity() {
    // requested reduction far exceeds the speed: velocity stops at zero
    let (_, vel) = integrate_motion(
        Vec2Fx { x: 0, y: 0 },
        Vec2Fx { x: 5000, y: 0 },
        Vec2Fx { x: 0, y: 0 },
        10_000_000,
        1000,
    );
    assert_eq!((vel.x, vel.y), (0, 0));
    // off-axis: a 3-4-5 triangle fully damped lands exactly on zero
    let (_, vel) = integrate_motion(
        Vec2Fx { x: 0, y: 0 },
        Vec2Fx { x: 3000, y: -4000 },
        Vec2Fx { x: 0, y: 0 },
        10_000_000,
        1000,
    );
    assert_eq!((vel.x, vel.y), (0, 0));
    // partial damping keeps the signs of both components
    let (_, vel) = integrate_motion(
        Vec2Fx { x: 0, y: 0 },
        Vec2Fx { x: 3000, y: -4000 },
        Vec2Fx { x: 0, y: 0 },
        2000,
        1000,
    );
    assert!(vel.x >= 0 && vel.x <= 3000);
    assert!(vel.y <= 0 && vel.y >= -4000);
}

#[test]
fn drift_moves_by_exactly_velocity_times_dt() {
    let pos = drift_step(Vec2Fx { x: 100, y: -200 }, Vec2Fx { x: 2000, y: -1000 }, 500);
    assert_eq!((pos.x, pos.y), (100 + 1000, -200 - 500));
}

#[test]
fn update_movement_only_touches_non_accelerating_entities() {
    let drifting = Mover {
        acceleration: None,
        velocity: Velocity(Vec2Fx { x: 2000, y: 0 }),
        dampening: None,
        ..resting_mover()
    };
    let accelerating = Mover {
        velocity: Velocity(Vec2Fx { x: 2000, y: 0 }),
        ..resting_mover()
    };
    let mut movers = vec![drifting, accelerating];
    update_movement(&mut movers, 1000);
    assert_eq!(movers[0].position.0.x, 2000);
    assert!(movers[0].position_changed);
    assert_eq!(movers[1].position.0.x, 0); // untouched: it has an accumulator
}

#[test]
fn seek_contribution_points_at_the_destination() {
    let da = seek_acceleration(
        Vec2Fx { x: 0, y: 0 },
        Vec2Fx { x: 100_000, y: 0 },
        10_000,
    );
    assert_eq!((da.x, da.y), (10_000, 0));
    // already there: no contribution
    let still = seek_acceleration(Vec2Fx { x: 7, y: 7 }, Vec2Fx { x: 7, y: 7 }, 10_000);
    assert_eq!((still.x, still.y), (0, 0));
}

#[test]
fn thrust_contribution_scales_the_direction() {
    let da = thrust_acceleration(Vec2Fx { x: 707, y: 707 }, 2000);
    assert_eq!((da.x, da.y), (1414, 1414));
}

#[test]
fn drag_contribution_matches_the_quadratic_formula() {
    // 0.5 * density 1 * speed^2 (10^2) * cross-section 4 * coefficient 1 / mass 2 = 100
    let accel = drag_acceleration(Vec2Fx { x: 10_000, y: 0 }, 2000, 4000, 1000, 1000);
    assert_eq!(accel, 100_000);
    // at rest there is no drag
    assert_eq!(drag_acceleration(Vec2Fx { x: 0, y: 0 }, 2000, 4000, 1000, 1000), 0);
}

#[test]
fn update_drag_symmetric_accumulates_dampening() {
    let mut movers = vec![Mover {
        velocity: Velocity(Vec2Fx { x: 10_000, y: 0 }),
        mass: Mass(2000),
        cross_section_size: Some(CrossSectionSize(4000)),
        experience_drag: Some(ExperienceDrag { coeff: 1000 }),
        ..resting_mover()
    }];
    update_drag_symmetric(&mut movers, FluidDensity(1000));
    assert_eq!(movers[0].dampening.unwrap().max_acc, 100_000);
}

#[test]
fn update_decelerating_requests_full_propulsion_as_dampening() {
    let mut movers = vec![Mover {
        self_moving: Some(SelfMoving { accel: 2000 }),
        decelerating: Some(Decelerating),
        ..resting_mover()
    }];
    update_decelerating(&mut movers);
    assert_eq!(movers[0].dampening.unwrap().max_acc, 2000);
}

#[test]
fn update_following_refreshes_dest_only_when_the_target_moved() {
    let follower = Mover {
        moving_to: Some(MovingTo { dest: Vec2Fx { x: 1, y: 1 } }),
        following: Some(Following { target: 1 }),
        ..resting_mover()
    };
    let moved_target = Mover {
        position: Position(Vec2Fx { x: 42, y: 43 }),
        position_changed: true,
        ..resting_mover()
    };
    let mut movers = vec![follower, moved_target];
    update_following(&mut movers);
    let dest = movers[0].moving_to.unwrap().dest;
    assert_eq!((dest.x, dest.y), (42, 43));

    let still_follower = Mover {
        moving_to: Some(MovingTo { dest: Vec2Fx { x: 1, y: 1 } }),
        following: Some(Following { target: 1 }),
        ..resting_mover()
    };
    let still_target = Mover {
        position: Position(Vec2Fx { x: 42, y: 43 }),
        position_changed: false,
        ..resting_mover()
    };
    let mut movers = vec![still_follower, still_target];
    update_following(&mut movers);
    let dest = movers[0].moving_to.unwrap().dest;
    assert_eq!((dest.x, dest.y), (1, 1));
}

#[test]
fn update_moving_in_dir_accumulates_thrust() {
    let mut movers = vec![Mover {
        self_moving: Some(SelfMoving { accel: 5000 }),
        moving_in: Some(MovingIn { dir: Vec2Fx { x: 1000, y: 0 } }),
        ..resting_mover()
    }];
    update_moving_in_dir(&mut movers);
    assert_eq!(movers[0].acceleration.unwrap().0.x, 5000);
}

#[test]
fn update_kinematic_drains_the_accumulators() {
    let mut movers = vec![Mover {
        velocity: Velocity(Vec2Fx { x: 1000, y: 0 }),
        acceleration: Some(Acceleration(Vec2Fx { x: 2000, y: 0 })),
        dampening: Some(Dampening { max_acc: 500 }),
        ..resting_mover()
    }];
    update_kinematic(&mut movers, 1000);
    let m = movers[0];
    assert_eq!(m.acceleration.unwrap().0, Vec2Fx { x: 0, y: 0 });
    assert_eq!(m.dampening.unwrap().max_acc, 0);
    // dv = 2 - 0.5 = 1.5, dp = 1 * (1 + 0.75) = 1.75
    assert_eq!(m.velocity.0.x, 2500);
    assert_eq!(m.position.0.x, 1750);
    assert!(m.position_changed);
}

#[test]
fn seek_scenario_one_tick_from_rest() {
    // entity at the origin at rest, propulsion 10, destination (100, 0):
    // after one second the velocity is (10, 0) and the position (5, 0)
    let mut movers = vec![Mover {
        self_moving: Some(SelfMoving { accel: 10_000 }),
        moving_to: Some(MovingTo { dest: Vec2Fx { x: 100_000, y: 0 } }),
        ..resting_mover()
    }];
    tick(&mut movers, FluidDensity(0), 1000);
    let m = movers[0];
    assert_eq!((m.velocity.0.x, m.velocity.0.y), (10_000, 0));
    assert_eq!((m.position.0.x, m.position.0.y), (5_000, 0));
    assert_eq!(m.acceleration.unwrap().0, Vec2Fx { x: 0, y: 0 });
    assert_eq!(m.dampening.unwrap().max_acc, 0);
}

#[test]
fn zero_dt_tick_is_a_no_op_on_motion() {
    let start = Mover {
        velocity: Velocity(Vec2Fx { x: 3000, y: -4000 }),
        self_moving: Some(SelfMoving { accel: 10_000 }),
        moving_to: Some(MovingTo { dest: Vec2Fx { x: 100_000, y: 0 } }),
        ..resting_mover()
    };
    let mut movers = vec![start];
    tick(&mut movers, FluidDensity(0), 0);
    let m = movers[0];
    assert_eq!((m.position.0.x, m.position.0.y), (0, 0));
    assert_eq!((m.velocity.0.x, m.velocity.0.y), (3000, -4000));
}

#[test]
fn bundles_spawn_movers_with_the_right_capabilities() {
    let bundle: SymmeticFullKinematic = Default::default();
    let mover = bundle.mover();
    assert_eq!(mover.mass.0, 1000);
    assert_eq!(mover.cross_section_size.unwrap().0, 1000);
    assert!(mover.acceleration.is_some());
    assert!(mover.dampening.is_some());
    assert!(mover.self_moving.is_none());
}

#[test]
fn accumulators_sum_contributions_and_drain() {
    let mut acc = Acceleration(Vec2Fx { x: 100, y: -50 });
    acc.accumulate(Vec2Fx { x: 25, y: 25 });
    acc.accumulate(Vec2Fx { x: 1, y: 1 });
    assert_eq!((acc.0.x, acc.0.y), (126, -24));
    acc.reset();
    assert_eq!((acc.0.x, acc.0.y), (0, 0));
    let mut damp = Dampening { max_acc: 0 };
    damp.accumulate(300);
    damp.accumulate(700);
    assert_eq!(damp.max_acc, 1000);
    damp.reset();
    assert_eq!(damp.max_acc, 0);
}

#[test]
fn full_kinematic_bundle_carries_no_cross_section() {
    let bundle: FullKinematic = Default::default();
    let mover = bundle.mover();
    assert!(mover.cross_section_size.is_none());
    assert!(mover.experience_drag.is_some());
    assert_eq!(mover.mass.0, 1000);
}
