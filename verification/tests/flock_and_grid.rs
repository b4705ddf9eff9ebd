use grid_spaces::flock::{
    assign_all, centroid, find_friend_and_enemy, interact_all, interact_pair, isqrt, move_all,
    move_step, normalize_or_zero, peers, spawn_boids, update_all_relationships, Boid, Vec3Fx,
};
use grid_spaces::grid::{
    grid_cell_geometry, proportional_sizes, setup_grid, weight_total, MeshGridState,
};
use grid_spaces::oslog::{init, layer, OsLayer, OsLogger};

#[test]
fn peers_drops_only_self() {
    let ids: Vec<u64> = vec![5, 9, 5, 7];
    let r = peers(&ids, 5);
    assert_eq!(r, vec![9, 7]);
    let ids2: Vec<u64> = vec![1, 2, 3];
    assert_eq!(peers(&ids2, 4), vec![1, 2, 3]);
}

#[test]
fn friend_and_enemy_distinct_among_three() {
    let ids: Vec<u64> = vec![1, 2, 3];
    for _ in 0..50 {
        let mut boid = Boid { friend: None, enemy: None };
        find_friend_and_enemy(1, &ids, &mut boid);
        let f = boid.friend.unwrap();
        let e = boid.enemy.unwrap();
        assert!(f == 2 || f == 3);
        assert!(e == 2 || e == 3);
        assert_ne!(f, 1);
        assert_ne!(e, 1);
        assert_ne!(f, e);
    }
}

#[test]
fn single_peer_becomes_friend() {
    let ids: Vec<u64> = vec![1, 2];
    let mut boid = Boid { friend: None, enemy: Some(9) };
    find_friend_and_enemy(1, &ids, &mut boid);
    assert_eq!(boid.friend, Some(2));
    assert_eq!(boid.enemy, None);
}

#[test]
fn lone_boid_keeps_relationships() {
    let ids: Vec<u64> = vec![7];
    let mut boid = Boid { friend: Some(3), enemy: Some(4) };
    find_friend_and_enemy(7, &ids, &mut boid);
    assert_eq!(boid.friend, Some(3));
    assert_eq!(boid.enemy, Some(4));
}

#[test]
fn whole_flock_assignment_is_sound() {
    let ids: Vec<u64> = vec![10, 20, 30, 40];
    let mut boids = vec![Boid { friend: None, enemy: None }; 4];
    assign_all(&ids, &mut boids);
    for (i, b) in boids.iter().enumerate() {
        let me = ids[i];
        let f = b.friend.unwrap();
        let e = b.enemy.unwrap();
        assert!(ids.contains(&f) && f != me);
        assert!(ids.contains(&e) && e != me);
        assert_ne!(f, e);
    }
    // the periodic update keeps the relationships sound
    for _ in 0..200 {
        update_all_relationships(&ids, &mut boids);
    }
    for (i, b) in boids.iter().enumerate() {
        let me = ids[i];
        if let Some(f) = b.friend {
            assert!(ids.contains(&f) && f != me);
        }
        if let Some(e) = b.enemy {
            assert!(ids.contains(&e) && e != me);
        }
        if let (Some(f), Some(e)) = (b.friend, b.enemy) {
            assert_ne!(f, e);
        }
    }
}

#[test]
fn spawned_boids_sit_in_the_spawn_box() {
    let spawned = spawn_boids(25);
    assert_eq!(spawned.len(), 25);
    for s in &spawned {
        assert!(s.position.x >= -400_000 && s.position.x < -100_000);
        assert!(s.position.y >= -300_000 && s.position.y < -200_000);
        assert_eq!(s.position.z, 1_000);
        assert_eq!(s.boid.friend, None);
        assert_eq!(s.boid.enemy, None);
        assert_eq!(s.movement, Vec3Fx { x: 0, y: 0, z: 0 });
        assert_eq!(s.last_position, s.position);
    }
}

#[test]
fn integer_square_roots() {
    assert_eq!(isqrt(0), 0);
    assert_eq!(isqrt(1), 1);
    assert_eq!(isqrt(24), 4);
    assert_eq!(isqrt(25), 5);
    assert_eq!(isqrt(u64::MAX), 4_294_967_295);
}

#[test]
fn unit_vector_of_a_three_four_triangle() {
    let u = normalize_or_zero(Vec3Fx { x: 3_000, y: -4_000, z: 0 });
    assert_eq!(u, Vec3Fx { x: 600, y: -800, z: 0 });
    let z = normalize_or_zero(Vec3Fx { x: 0, y: 0, z: 0 });
    assert_eq!(z, Vec3Fx { x: 0, y: 0, z: 0 });
}

#[test]
fn friends_attract_and_enemies_repel() {
    let p1 = Vec3Fx { x: 1_000, y: 0, z: 0 };
    let p2 = Vec3Fx { x: 0, y: 0, z: 0 };
    let b1 = Boid { friend: Some(2), enemy: None };
    let b2 = Boid { friend: None, enemy: None };
    let (m1, m2) = interact_pair(1, 2, p1, p2, &b1, &b2, 1000);
    // boid 1 steps a full second toward its friend, who stands to its left
    assert_eq!(m1, Vec3Fx { x: -100_000, y: 0, z: 0 });
    assert_eq!(m2, Vec3Fx { x: 0, y: 0, z: 0 });

    // an enemy in the same place pushes boid 1 the other way
    let b1e = Boid { friend: None, enemy: Some(2) };
    let (m1e, _) = interact_pair(1, 2, p1, p2, &b1e, &b2, 1000);
    assert_eq!(m1e, Vec3Fx { x: 20_000, y: 0, z: 0 });
}

#[test]
fn centroid_is_the_rounded_mean() {
    let positions = vec![
        Vec3Fx { x: 0, y: 0, z: 0 },
        Vec3Fx { x: 2, y: 3, z: -2 },
    ];
    let c = centroid(&positions);
    assert_eq!(c, Vec3Fx { x: 1, y: 1, z: -1 });
}

#[test]
fn move_step_adds_movement_and_center_pull() {
    let pos = Vec3Fx { x: 0, y: 0, z: 0 };
    let movement = Vec3Fx { x: 10, y: 0, z: 0 };
    let center = Vec3Fx { x: 4_000, y: -8_000, z: 0 };
    let next = move_step(pos, movement, center, 1000);
    // a quarter of the distance to the center per second
    assert_eq!(next, Vec3Fx { x: 1_010, y: -2_000, z: 0 });
}

#[test]
fn mutual_friends_pull_together() {
    let ids: Vec<u64> = vec![1, 2];
    let positions = vec![Vec3Fx { x: 1_000, y: 0, z: 0 }, Vec3Fx { x: 0, y: 0, z: 0 }];
    let boids = vec![
        Boid { friend: Some(2), enemy: None },
        Boid { friend: Some(1), enemy: None },
    ];
    let mut movements = vec![Vec3Fx { x: 0, y: 0, z: 0 }; 2];
    interact_all(&ids, &positions, &boids, &mut movements, 1000);
    assert_eq!(movements[0], Vec3Fx { x: -100_000, y: 0, z: 0 });
    assert_eq!(movements[1], Vec3Fx { x: 100_000, y: 0, z: 0 });
}

#[test]
fn the_flock_frame_integrates_and_resets() {
    let mut positions = vec![Vec3Fx { x: 0, y: 0, z: 0 }, Vec3Fx { x: 2_000, y: 0, z: 0 }];
    let mut movements = vec![Vec3Fx { x: 10, y: 0, z: 0 }, Vec3Fx { x: 0, y: 0, z: 0 }];
    let mut last = vec![Vec3Fx { x: 9, y: 9, z: 9 }; 2];
    move_all(&mut positions, &mut movements, &mut last, 1000);
    // the center sits at x = 1000; each boid moves a quarter of its
    // distance to it per second
    assert_eq!(positions[0], Vec3Fx { x: 260, y: 0, z: 0 });
    assert_eq!(positions[1], Vec3Fx { x: 1_750, y: 0, z: 0 });
    assert_eq!(movements[0], Vec3Fx { x: 0, y: 0, z: 0 });
    assert_eq!(last[0], Vec3Fx { x: 0, y: 0, z: 0 });
    assert_eq!(last[1], Vec3Fx { x: 2_000, y: 0, z: 0 });
}

#[test]
fn equal_weights_share_space_equally() {
    let weights: Vec<u64> = vec![1, 1, 1, 1];
    let sizes = proportional_sizes(&weights, 100);
    assert_eq!(sizes, vec![25, 25, 25, 25]);
}

#[test]
fn uneven_weights_still_sum_to_available_space() {
    let weights: Vec<u64> = vec![1000, 1000, 2000];
    let sizes = proportional_sizes(&weights, 999);
    assert_eq!(sizes.iter().sum::<u64>(), 999);
    assert_eq!(sizes, vec![249, 250, 500]);

    let weights2: Vec<u64> = vec![7, 13, 3, 11, 2];
    let sizes2 = proportional_sizes(&weights2, 1_234_567);
    assert_eq!(sizes2.iter().sum::<u64>(), 1_234_567);
}

#[test]
fn weight_total_sums() {
    let weights: Vec<u64> = vec![3, 4, 5];
    assert_eq!(weight_total(&weights), 12);
}

#[test]
fn initial_grid_has_one_double_column() {
    let mut state = MeshGridState { cols: Vec::new(), rows: Vec::new() };
    setup_grid(&mut state);
    assert_eq!(state.cols.len(), 64);
    assert_eq!(state.rows.len(), 64);
    assert!(state.cols[..63].iter().all(|&w| w == 1_000));
    assert_eq!(state.cols[63], 2_000);
    assert!(state.rows.iter().all(|&w| w == 1_000));
}

#[test]
fn cell_geometry_walks_left_to_right_and_top_down() {
    let cols: Vec<u64> = vec![10_000, 10_000];
    let rows: Vec<u64> = vec![20_000];
    let cells = grid_cell_geometry(&cols, &rows, 40_000, 60_000);
    assert_eq!(cells.len(), 2);
    let a = cells[0];
    assert_eq!((a.row, a.col), (0, 0));
    assert_eq!(a.center_x, -20_000 + 5_000);
    assert_eq!(a.center_y, 30_000 - 10_000);
    assert_eq!((a.width, a.height), (10_000, 20_000));
    let b = cells[1];
    assert_eq!((b.row, b.col), (0, 1));
    // one cell plus one gap further right
    assert_eq!(b.center_x, -20_000 + 10_000 + 4_000 + 5_000);
    assert_eq!(b.center_y, 20_000);
}

#[test]
fn dummy_logger_is_inert() {
    let logger = OsLogger::new().with_subsystem("app").with_category("ui");
    assert_eq!(logger, OsLogger);
    assert_eq!(OsLogger::default(), OsLogger);
    init();
    assert_eq!(layer(), OsLayer::new());
    assert_eq!(OsLayer::default(), OsLayer);
}
