use voxel_ray::chunk::RaytraceChunk;
use voxel_ray::fx::FX_ONE;
use voxel_ray::ray::{Ray3, Vec3fx, Vec3i};
use voxel_ray::raycast::{Axis, Face};

fn fx(v: f64) -> i64 {
    (v * FX_ONE as f64) as i64
}

fn ray(px: f64, py: f64, pz: f64, dx: f64, dy: f64, dz: f64) -> Ray3 {
    Ray3::new(
        Vec3fx::new(fx(px), fx(py), fx(pz)),
        Vec3fx::new(fx(dx), fx(dy), fx(dz)),
    )
}

#[test]
fn origin_inside_solid_hits_immediately() {
    let mut chunk = RaytraceChunk::new();
    chunk.set(10, 11, 12, 99);
    let r = ray(10.5, 11.5, 12.5, 0.3, -0.8, 0.52);
    let hit = chunk.raycast(r, 200 * FX_ONE).expect("must hit");
    assert_eq!(hit.coord, Vec3i { x: 10, y: 11, z: 12 });
    assert_eq!(hit.id, 99);
    assert_eq!(hit.face, None);
    assert_eq!(hit.distance, 0);
    // any direction, even a zero one
    let r2 = ray(10.5, 11.5, 12.5, 0.0, 0.0, 0.0);
    let hit2 = chunk.raycast(r2, 200 * FX_ONE).expect("must hit");
    assert_eq!(hit2.face, None);
    assert_eq!(hit2.distance, 0);
}

#[test]
fn empty_grid_never_hits() {
    let chunk = RaytraceChunk::new();
    let rays = [
        ray(32.0, 32.0, 32.0, 0.0, -1.0, 0.0),
        ray(0.5, 0.5, 0.5, 1.0, 0.7, 0.3),
        ray(100.0, 32.0, 32.0, -1.0, 0.0, 0.0),
        ray(-5.0, -5.0, -5.0, 1.0, 1.0, 1.0),
        ray(63.9, 63.9, 63.9, -0.2, -0.4, -0.9),
    ];
    for r in rays.iter() {
        assert!(chunk.raycast(*r, 400 * FX_ONE).is_none());
        assert!(chunk.raycast(*r, FX_ONE / 2).is_none());
    }
}

#[test]
fn single_cell_straight_down() {
    let mut chunk = RaytraceChunk::new();
    chunk.set(32, 32, 32, 1);
    let r = ray(32.0, 100.0, 32.0, 0.0, -1.0, 0.0);
    let hit = chunk.raycast(r, 200 * FX_ONE).expect("must hit");
    assert_eq!(hit.coord, Vec3i { x: 32, y: 32, z: 32 });
    assert_eq!(hit.id, 1);
    assert_eq!(hit.face, Some(Face::PosY));
    // analytically 67 (100 - 32 - 1), within 1e-3 of a cell
    let expected = 67 * FX_ONE;
    assert!((hit.distance - expected).abs() <= 66, "distance {}", hit.distance);
}

#[test]
fn rays_aimed_away_never_enter() {
    let mut chunk = RaytraceChunk::new();
    // a fully solid wall so any entering ray would hit
    for x in 0..64 {
        for z in 0..64 {
            chunk.set(x, 32, z, 1);
        }
    }
    assert!(chunk.raycast(ray(-10.0, 32.0, 32.0, -1.0, 0.0, 0.0), 400 * FX_ONE).is_none());
    assert!(chunk.raycast(ray(70.0, 32.0, 32.0, 1.0, 0.0, 0.0), 400 * FX_ONE).is_none());
    assert!(chunk.raycast(ray(32.0, -3.0, 32.0, 0.0, -1.0, 0.0), 400 * FX_ONE).is_none());
    assert!(chunk.raycast(ray(32.0, 70.0, 32.0, 0.0, 1.0, 0.0), 400 * FX_ONE).is_none());
    assert!(chunk.raycast(ray(32.0, 32.0, -9.0, 0.0, 0.0, -1.0), 400 * FX_ONE).is_none());
    assert!(chunk.raycast(ray(32.0, 32.0, 99.0, 0.0, 0.0, 1.0), 400 * FX_ONE).is_none());
    // outside on two axes, aimed away on both
    assert!(chunk.raycast(ray(-10.0, 70.0, 32.0, -0.5, 0.5, 0.0), 400 * FX_ONE).is_none());
    // outside with a zero component on the outside axis can never enter
    assert!(chunk.raycast(ray(-10.0, 32.0, 32.0, 0.0, -1.0, 0.0), 400 * FX_ONE).is_none());
}

#[test]
fn budget_gates_the_same_hit() {
    let mut chunk = RaytraceChunk::new();
    chunk.set(32, 32, 32, 5);
    let r = ray(32.0, 100.0, 32.0, 0.0, -1.0, 0.0);
    let hit = chunk.raycast(r, 200 * FX_ONE).expect("must hit");

    // a budget below the hit distance misses
    assert!(chunk.raycast(r, 66 * FX_ONE).is_none());
    // a budget exactly at the hit distance still misses
    assert!(chunk.raycast(r, hit.distance).is_none());
    // one tick past the threshold finds the identical hit
    let hit2 = chunk.raycast(r, hit.distance + 1).expect("must hit");
    assert_eq!(hit2.coord, hit.coord);
    assert_eq!(hit2.face, hit.face);
    assert_eq!(hit2.distance, hit.distance);
    // and a much larger budget reports it unchanged
    let hit3 = chunk.raycast(r, 65000 * FX_ONE).expect("must hit");
    assert_eq!(hit3.coord, hit.coord);
    assert_eq!(hit3.face, hit.face);
    assert_eq!(hit3.distance, hit.distance);
}

#[test]
fn diagonal_and_axis_faces() {
    let mut chunk = RaytraceChunk::new();
    chunk.set(10, 10, 10, 3);
    // approach along +X
    let hit = chunk
        .raycast(ray(5.5, 10.5, 10.5, 1.0, 0.0, 0.0), 100 * FX_ONE)
        .expect("must hit");
    assert_eq!(hit.face, Some(Face::NegX));
    assert_eq!(hit.coord, Vec3i { x: 10, y: 10, z: 10 });
    // approach along -Z
    let hit = chunk
        .raycast(ray(10.5, 10.5, 15.5, 0.0, 0.0, -1.0), 100 * FX_ONE)
        .expect("must hit");
    assert_eq!(hit.face, Some(Face::PosZ));
}

#[test]
fn entry_clip_reports_crossed_plane() {
    let mut chunk = RaytraceChunk::new();
    // wall on the X = 0 boundary layer
    for y in 0..64 {
        for z in 0..64 {
            chunk.set(0, y, z, 2);
        }
    }
    // from outside on -X straight in: immediate hit after clipping, face -X
    let hit = chunk
        .raycast(ray(-4.0, 30.5, 30.5, 1.0, 0.0, 0.0), 100 * FX_ONE)
        .expect("must hit");
    assert_eq!(hit.coord, Vec3i { x: 0, y: 30, z: 30 });
    assert_eq!(hit.face, Some(Face::NegX));
    // distance is the clip distance: 4 cells, within 1e-3
    assert!((hit.distance - 4 * FX_ONE).abs() <= 66);
}

#[test]
fn hit_cell_is_the_cell_before_the_hit() {
    let mut chunk = RaytraceChunk::new();
    chunk.set(32, 32, 32, 5);
    let r = ray(32.0, 100.0, 32.0, 0.0, -1.0, 0.0);
    let hit = chunk.raycast(r, 200 * FX_ONE).expect("must hit");
    // entered through +Y: the empty cell passed through lies above
    assert_eq!(hit.get_hit_cell(), Vec3i { x: 32, y: 33, z: 32 });

    // a faceless hit names its own cell
    chunk.set(10, 10, 10, 4);
    let inside = chunk
        .raycast(ray(10.5, 10.5, 10.5, 0.0, -1.0, 0.0), 200 * FX_ONE)
        .expect("must hit");
    assert_eq!(inside.face, None);
    assert_eq!(inside.get_hit_cell(), Vec3i { x: 10, y: 10, z: 10 });
}

#[test]
fn hit_point_is_clamped_into_the_adjacent_cell() {
    let mut chunk = RaytraceChunk::new();
    chunk.set(32, 32, 32, 5);
    let r = ray(32.0, 100.0, 32.0, 0.0, -1.0, 0.0);
    let hit = chunk.raycast(r, 200 * FX_ONE).expect("must hit");
    let p = hit.get_hit_point(r, Face::PosY);
    // the raw point sits on the cell corner; the clamp pulls it just inside
    // the neighboring cell (32, 33, 32), margin 64 ticks on each side
    assert_eq!(p.x, 32 * FX_ONE + 64);
    assert_eq!(p.y, 33 * FX_ONE + 64);
    assert_eq!(p.z, 32 * FX_ONE + 64);
}

#[test]
fn face_helpers() {
    assert_eq!(Face::PosX.axis(), Axis::X);
    assert_eq!(Face::NegY.axis(), Axis::Y);
    assert_eq!(Face::PosZ.axis(), Axis::Z);
    assert_eq!(Face::NegZ.axis(), Axis::Z);
    assert_eq!(Face::PosY.normal(), Vec3i { x: 0, y: 1, z: 0 });
    assert_eq!(Face::NegX.normal(), Vec3i { x: -1, y: 0, z: 0 });
    assert_eq!(Face::PosX.index(), 0);
    assert_eq!(Face::PosY.index(), 1);
    assert_eq!(Face::PosZ.index(), 2);
    assert_eq!(Face::NegX.index(), 3);
    assert_eq!(Face::NegY.index(), 4);
    assert_eq!(Face::NegZ.index(), 5);
    assert_eq!(Face::from_direction(Vec3fx::new(fx(0.9), fx(0.1), fx(0.0))), Face::PosX);
    assert_eq!(Face::from_direction(Vec3fx::new(fx(-0.9), fx(0.1), fx(0.0))), Face::NegX);
    assert_eq!(Face::from_direction(Vec3fx::new(fx(0.1), fx(-0.9), fx(0.2))), Face::NegY);
    assert_eq!(Face::from_direction(Vec3fx::new(fx(0.1), fx(0.2), fx(0.9))), Face::PosZ);
    // exact ties prefer X over Y and over Z
    assert_eq!(Face::from_direction(Vec3fx::new(fx(0.5), fx(0.5), fx(0.5))), Face::PosX);
    assert_eq!(Face::from_direction(Vec3fx::new(fx(0.0), fx(0.5), fx(0.5))), Face::PosY);
}

#[test]
fn ray_helpers() {
    let r = ray(1.0, 2.0, 3.0, 0.5, -0.25, 1.0);
    let inv = r.invert_dir();
    assert_eq!(inv.pos, r.pos);
    assert_eq!(inv.dir.x, -r.dir.x);
    assert_eq!(inv.dir.y, -r.dir.y);
    assert_eq!(inv.dir.z, -r.dir.z);
    let p = r.point_on_ray(2 * FX_ONE);
    assert_eq!(p.x, 2 * FX_ONE);
    assert_eq!(p.y, fx(1.5));
    assert_eq!(p.z, 5 * FX_ONE);
    let back = r.point_on_ray(0);
    assert_eq!(back, r.pos);
}
