//! Ray traversal through the voxel grid.
//!
//! The traversal answers: what solid cell, if any, does a ray hit first,
//! within what travel budget, and through which face. It clips the ray
//! against the grid's bounding box when the origin starts outside (stage
//! B), then steps cell by cell with a 3D DDA: per axis it tracks the
//! parametric distance `t` to the next cell boundary and always advances
//! the axis with the smallest one, breaking exact ties in the fixed order
//! X, then Y, then Z. All distances are 16.16 fixed-point scalars measured
//! from the original, unclipped ray origin.
//!
//! The whole algorithm is mirrored, step for step, by the spec functions
//! `spec_raycast` and `dda` below; `RaytraceChunk::raycast` returns exactly
//! what they denote, and the public lemmas state the traversal's laws
//! (empty grid never hits, starting inside solid material hits immediately
//! with no face, rays aimed away miss, and the travel budget is monotone).

use vstd::prelude::*;
use crate::chunk::{RaytraceChunk, cell_at, in_bounds};
use crate::fx::{sgn, T_INF, FX_ONE, FX_DIST_LIMIT, fx_sign, fx_div, fx_mul, fx_floor, fx_fract};
use crate::ray::{Ray3, Vec3i, Vec3fx};

verus! {

/// The grid's extent on each axis, in raw fixed-point units (64 cells).
pub const GRID_FX: i64 = 4194304;

/// Margin by which a reconstructed hit point is pulled inside its cell
/// (64 raw ticks, about 1e-3 of a cell), correcting floating of the raw
/// point across a boundary.
pub const FX_HIT_MARGIN: i64 = 64;

/// One of the three coordinate axes.
#[derive(Debug, Clone, Copy, PartialEq, Eq, PartialOrd, Ord, Hash, Structural)]
pub enum Axis {
    X,
    Y,
    Z,
}

/// One of the six axis-aligned cell faces.
#[derive(Debug, Clone, Copy, PartialEq, Eq, PartialOrd, Ord, Hash, Structural)]
pub enum Face {
    PosX,
    PosY,
    PosZ,
    NegX,
    NegY,
    NegZ,
}

/// The axis a face is perpendicular to.
pub open spec fn spec_axis(f: Face) -> Axis {
    match f {
        Face::PosX | Face::NegX => Axis::X,
        Face::PosY | Face::NegY => Axis::Y,
        Face::PosZ | Face::NegZ => Axis::Z,
    }
}

/// A face's outward unit normal.
pub open spec fn spec_normal(f: Face) -> Vec3i {
    match f {
        Face::PosX => Vec3i { x: 1, y: 0, z: 0 },
        Face::PosY => Vec3i { x: 0, y: 1, z: 0 },
        Face::PosZ => Vec3i { x: 0, y: 0, z: 1 },
        Face::NegX => Vec3i { x: -1i32, y: 0, z: 0 },
        Face::NegY => Vec3i { x: 0, y: -1i32, z: 0 },
        Face::NegZ => Vec3i { x: 0, y: 0, z: -1i32 },
    }
}

/// A face's position in the fixed order +X, +Y, +Z, -X, -Y, -Z.
pub open spec fn spec_face_index(f: Face) -> int {
    match f {
        Face::PosX => 0,
        Face::PosY => 1,
        Face::PosZ => 2,
        Face::NegX => 3,
        Face::NegY => 4,
        Face::NegZ => 5,
    }
}

/// Magnitude of a scalar.
pub open spec fn iabs(v: int) -> int {
    if v < 0 {
        -v
    } else {
        v
    }
}

pub open spec fn min2(a: int, b: int) -> int {
    if a < b {
        a
    } else {
        b
    }
}

pub open spec fn max2(a: int, b: int) -> int {
    if a > b {
        a
    } else {
        b
    }
}

/// The dominant axis of a direction, signed: ties prefer X over Y over Z,
/// Z over Y, and a zero vector reads as +X.
pub open spec fn spec_face_from_direction(d: Vec3fx) -> Face {
    if iabs(d.x as int) >= iabs(d.y as int) {
        if iabs(d.x as int) >= iabs(d.z as int) {
            if d.x < 0 {
                Face::NegX
            } else {
                Face::PosX
            }
        } else {
            if d.z < 0 {
                Face::NegZ
            } else {
                Face::PosZ
            }
        }
    } else {
        if iabs(d.y as int) >= iabs(d.z as int) {
            if d.y < 0 {
                Face::NegY
            } else {
                Face::PosY
            }
        } else {
            if d.z < 0 {
                Face::NegZ
            } else {
                Face::PosZ
            }
        }
    }
}

impl Face {
    /// The axis this face is perpendicular to.
    pub fn axis(self) -> (a: Axis)
        ensures
            a == spec_axis(self),
    {
        match self {
            Face::PosX | Face::NegX => Axis::X,
            Face::PosY | Face::NegY => Axis::Y,
            Face::PosZ | Face::NegZ => Axis::Z,
        }
    }

    /// The outward unit normal of this face.
    pub fn normal(self) -> (n: Vec3i)
        ensures
            n == spec_normal(self),
    {
        match self {
            Face::PosX => Vec3i { x: 1, y: 0, z: 0 },
            Face::PosY => Vec3i { x: 0, y: 1, z: 0 },
            Face::PosZ => Vec3i { x: 0, y: 0, z: 1 },
            Face::NegX => Vec3i { x: -1, y: 0, z: 0 },
            Face::NegY => Vec3i { x: 0, y: -1, z: 0 },
            Face::NegZ => Vec3i { x: 0, y: 0, z: -1 },
        }
    }

    /// The face whose axis dominates the direction, signed by that axis.
    pub fn from_direction(dir: Vec3fx) -> (f: Face)
        requires
            dir.x > i64::MIN,
            dir.y > i64::MIN,
            dir.z > i64::MIN,
        ensures
            f == spec_face_from_direction(dir),
    {
        let ax = if dir.x < 0 {
            -dir.x
        } else {
            dir.x
        };
        let ay = if dir.y < 0 {
            -dir.y
        } else {
            dir.y
        };
        let az = if dir.z < 0 {
            -dir.z
        } else {
            dir.z
        };
        if ax >= ay {
            if ax >= az {
                if dir.x < 0 {
                    Face::NegX
                } else {
                    Face::PosX
                }
            } else {
                if dir.z < 0 {
                    Face::NegZ
                } else {
                    Face::PosZ
                }
            }
        } else {
            if ay >= az {
                if dir.y < 0 {
                    Face::NegY
                } else {
                    Face::PosY
                }
            } else {
                if dir.z < 0 {
                    Face::NegZ
                } else {
                    Face::PosZ
                }
            }
        }
    }

    /// This face's position in the fixed order +X, +Y, +Z, -X, -Y, -Z.
    pub fn index(self) -> (i: usize)
        ensures
            i == spec_face_index(self),
    {
        match self {
            Face::PosX => 0,
            Face::PosY => 1,
            Face::PosZ => 2,
            Face::NegX => 3,
            Face::NegY => 4,
            Face::NegZ => 5,
        }
    }
}

/// The cell adjacent to `coord` across `face`.
pub open spec fn spec_neighbor(coord: Vec3i, face: Face) -> Vec3i {
    match face {
        Face::PosX => Vec3i { x: (coord.x + 1) as i32, y: coord.y, z: coord.z },
        Face::PosY => Vec3i { x: coord.x, y: (coord.y + 1) as i32, z: coord.z },
        Face::PosZ => Vec3i { x: coord.x, y: coord.y, z: (coord.z + 1) as i32 },
        Face::NegX => Vec3i { x: (coord.x - 1) as i32, y: coord.y, z: coord.z },
        Face::NegY => Vec3i { x: coord.x, y: (coord.y - 1) as i32, z: coord.z },
        Face::NegZ => Vec3i { x: coord.x, y: coord.y, z: (coord.z - 1) as i32 },
    }
}

/// Clamp a scalar into `[lo, hi]`.
pub open spec fn spec_clamp(v: int, lo: int, hi: int) -> int {
    if v < lo {
        lo
    } else if v > hi {
        hi
    } else {
        v
    }
}

/// What the traversal found: the first solid cell along the ray, the
/// identifier stored there, the face through which the ray entered it
/// (absent when the ray began inside solid material), and the parametric
/// distance from the original ray origin.
#[derive(Debug, Clone, Copy)]
pub struct RayHit {
    pub coord: Vec3i,
    pub id: u32,
    pub face: Option<Face>,
    pub distance: i64,
}

impl RayHit {
    /// A hit that crossed into its cell through `face`.
    pub fn hit_face(coord: Vec3i, distance: i64, id: u32, face: Face) -> (h: Self)
        ensures
            h == (RayHit { coord, distance, id, face: Some(face) }),
    {
        RayHit { coord, distance, id, face: Some(face) }
    }

    /// A hit whose ray already started inside the cell.
    pub fn hit_cell(coord: Vec3i, id: u32, distance: i64) -> (h: Self)
        ensures
            h == (RayHit { coord, distance, id, face: None }),
    {
        RayHit { coord, distance, id, face: None }
    }

    /// The point where the ray met the hit cell, clamped into the box of
    /// the adjacent cell across `face` (shrunk by `FX_HIT_MARGIN` on each
    /// side) to correct rounding overshoot across the boundary.
    pub fn get_hit_point(&self, ray: Ray3, face: Face) -> (p: Vec3fx)
        requires
            ray.wf(),
            in_bounds(self.coord.x as int, self.coord.y as int, self.coord.z as int),
            0 <= self.distance <= 0x2_0000_0000,
        ensures
            p.x == spec_clamp(
                ray.pos.x + (ray.dir.x * self.distance) / 65536,
                spec_neighbor(self.coord, face).x * 65536 + FX_HIT_MARGIN,
                spec_neighbor(self.coord, face).x * 65536 + (65536 - FX_HIT_MARGIN),
            ),
            p.y == spec_clamp(
                ray.pos.y + (ray.dir.y * self.distance) / 65536,
                spec_neighbor(self.coord, face).y * 65536 + FX_HIT_MARGIN,
                spec_neighbor(self.coord, face).y * 65536 + (65536 - FX_HIT_MARGIN),
            ),
            p.z == spec_clamp(
                ray.pos.z + (ray.dir.z * self.distance) / 65536,
                spec_neighbor(self.coord, face).z * 65536 + FX_HIT_MARGIN,
                spec_neighbor(self.coord, face).z * 65536 + (65536 - FX_HIT_MARGIN),
            ),
    {
        let point = ray.point_on_ray(self.distance);
        let pre_hit = match face {
            Face::PosX => Vec3i { x: self.coord.x + 1, y: self.coord.y, z: self.coord.z },
            Face::PosY => Vec3i { x: self.coord.x, y: self.coord.y + 1, z: self.coord.z },
            Face::PosZ => Vec3i { x: self.coord.x, y: self.coord.y, z: self.coord.z + 1 },
            Face::NegX => Vec3i { x: self.coord.x - 1, y: self.coord.y, z: self.coord.z },
            Face::NegY => Vec3i { x: self.coord.x, y: self.coord.y - 1, z: self.coord.z },
            Face::NegZ => Vec3i { x: self.coord.x, y: self.coord.y, z: self.coord.z - 1 },
        };
        let lo_x = (pre_hit.x as i64) * 65536 + FX_HIT_MARGIN;
        let hi_x = (pre_hit.x as i64) * 65536 + (65536 - FX_HIT_MARGIN);
        let lo_y = (pre_hit.y as i64) * 65536 + FX_HIT_MARGIN;
        let hi_y = (pre_hit.y as i64) * 65536 + (65536 - FX_HIT_MARGIN);
        let lo_z = (pre_hit.z as i64) * 65536 + FX_HIT_MARGIN;
        let hi_z = (pre_hit.z as i64) * 65536 + (65536 - FX_HIT_MARGIN);
        Vec3fx {
            x: clamp_i64(point.x, lo_x, hi_x),
            y: clamp_i64(point.y, lo_y, hi_y),
            z: clamp_i64(point.z, lo_z, hi_z),
        }
    }

    /// The empty cell the ray passed through just before the hit: the
    /// neighbor across the hit face, or the hit cell itself when the ray
    /// started inside it.
    pub fn get_hit_cell(&self) -> (c: Vec3i)
        requires
            in_bounds(self.coord.x as int, self.coord.y as int, self.coord.z as int),
        ensures
            self.face matches Some(f) ==> c == spec_neighbor(self.coord, f),
            self.face is None ==> c == self.coord,
    {
        let mut coord = Vec3i { x: self.coord.x, y: self.coord.y, z: self.coord.z };
        match self.face {
            Some(Face::NegX) => {
                coord.x = coord.x - 1;
            },
            Some(Face::NegY) => {
                coord.y = coord.y - 1;
            },
            Some(Face::NegZ) => {
                coord.z = coord.z - 1;
            },
            Some(Face::PosX) => {
                coord.x = coord.x + 1;
            },
            Some(Face::PosY) => {
                coord.y = coord.y + 1;
            },
            Some(Face::PosZ) => {
                coord.z = coord.z + 1;
            },
            None => (),
        }
        coord
    }
}

/// Clamp into `[lo, hi]`.
fn clamp_i64(v: i64, lo: i64, hi: i64) -> (r: i64)
    requires
        lo <= hi,
    ensures
        r == spec_clamp(v as int, lo as int, hi as int),
{
    if v < lo {
        lo
    } else if v > hi {
        hi
    } else {
        v
    }
}

// ---------------------------------------------------------------------------
// The mathematical model of the traversal. Every function here is mirrored
// exactly by the executable code below; `raycast` returns what `spec_raycast`
// denotes.
// ---------------------------------------------------------------------------

/// Parametric distance at which the ray crosses into the grid's slab on one
/// axis; unbounded below when the direction component is zero.
pub open spec fn axis_enter(pos: int, dir: int) -> int {
    if dir > 0 {
        ((0 - pos) * 65536) / dir
    } else if dir < 0 {
        ((pos - 4194304) * 65536) / (0 - dir)
    } else {
        -(T_INF as int)
    }
}

/// Parametric distance at which the ray leaves the grid's slab on one axis;
/// unbounded when the direction component is zero.
pub open spec fn axis_exit(pos: int, dir: int) -> int {
    if dir > 0 {
        ((4194304 - pos) * 65536) / dir
    } else if dir < 0 {
        (pos * 65536) / (0 - dir)
    } else {
        T_INF as int
    }
}

/// The ray can never enter the grid on this axis: the origin lies outside
/// the slab and the step does not point back toward it.
pub open spec fn axis_escape(pos: int, dir: int) -> bool {
    (pos < 0 && sgn(dir) <= 0) || (pos >= 4194304 && sgn(dir) >= 0)
}

/// Parametric distance to advance one whole cell along one axis.
pub open spec fn axis_delta(dir: int) -> int {
    if dir == 0 {
        T_INF as int
    } else {
        (65536int * 65536) / iabs(dir)
    }
}

/// Initial distance from the original ray origin to the first cell boundary
/// on one axis, given the (possibly entry-clipped) working position and the
/// clip offset `base`.
pub open spec fn axis_tmax(pos_adv: int, dir: int, base: int) -> int {
    if dir == 0 {
        T_INF as int
    } else if dir > 0 {
        ((65536 - (pos_adv % 65536)) * 65536) / dir + base
    } else {
        ((pos_adv % 65536) * 65536) / (0 - dir) + base
    }
}

/// The face through which a step along the X axis enters its new cell:
/// always the face opposing the step direction.
pub open spec fn face_x(step: int) -> Face {
    if step >= 0 {
        Face::NegX
    } else {
        Face::PosX
    }
}

pub open spec fn face_y(step: int) -> Face {
    if step >= 0 {
        Face::NegY
    } else {
        Face::PosY
    }
}

pub open spec fn face_z(step: int) -> Face {
    if step >= 0 {
        Face::NegZ
    } else {
        Face::PosZ
    }
}

/// The bounding plane crossed last on entry (the largest per-axis entry
/// distance) names the face of an immediate hit; exact ties prefer X, then
/// Y, then Z.
pub open spec fn entry_face(ex: int, ey: int, ez: int, sx: int, sy: int, sz: int) -> Face {
    if ex >= ey {
        if ex >= ez {
            face_x(sx)
        } else {
            face_z(sz)
        }
    } else {
        if ey >= ez {
            face_y(sy)
        } else {
            face_z(sz)
        }
    }
}

/// A hit in the model: cell coordinate, stored identifier, entry face (or
/// none), and distance from the original ray origin.
pub struct SpecHit {
    pub x: int,
    pub y: int,
    pub z: int,
    pub id: u32,
    pub face: Option<Face>,
    pub distance: int,
}

/// The stepping state of the traversal loop: per axis the current cell, the
/// distance `t` at which the next boundary is crossed, the advance per cell
/// `d`, the stopping bound `m` (box exit or travel budget, whichever is
/// smaller), and the step direction.
pub struct DdaState {
    pub cell_x: int,
    pub cell_y: int,
    pub cell_z: int,
    pub t_x: int,
    pub t_y: int,
    pub t_z: int,
    pub d_x: int,
    pub d_y: int,
    pub d_z: int,
    pub m_x: int,
    pub m_y: int,
    pub m_z: int,
    pub step_x: int,
    pub step_y: int,
    pub step_z: int,
}

/// What the stepping loop relies on: an axis that cannot step carries the
/// unbounded sentinel, an axis that can advances by at least one tick, and
/// every stopping bound lies below the sentinel.
pub open spec fn dda_wf(s: DdaState) -> bool {
    &&& (s.step_x == 0 ==> s.t_x == T_INF as int)
    &&& (s.step_y == 0 ==> s.t_y == T_INF as int)
    &&& (s.step_z == 0 ==> s.t_z == T_INF as int)
    &&& (s.step_x != 0 ==> s.d_x >= 1)
    &&& (s.step_y != 0 ==> s.d_y >= 1)
    &&& (s.step_z != 0 ==> s.d_z >= 1)
    &&& s.m_x < T_INF as int
    &&& s.m_y < T_INF as int
    &&& s.m_z < T_INF as int
}

pub open spec fn clip0(v: int) -> int {
    if v > 0 {
        v
    } else {
        0
    }
}

/// Upper bound on the remaining steps of the loop: how far each axis's `t`
/// still is from its stopping bound.
pub open spec fn dda_measure(s: DdaState) -> nat {
    (clip0(s.m_x - s.t_x) + clip0(s.m_y - s.t_y) + clip0(s.m_z - s.t_z)) as nat
}

/// One traversal loop, unrolled as a recursive function: pick the axis with
/// the smallest `t` (ties prefer X, then Y, then Z), stop with no hit when
/// that `t` reaches the axis bound, otherwise step one cell and report it if
/// solid, at distance `t` and through the face opposing the step.
pub open spec fn dda(grid: Seq<u32>, s: DdaState) -> Option<SpecHit>
    decreases dda_measure(s),
{
    if !dda_wf(s) {
        None
    } else if s.t_x <= s.t_y {
        if s.t_x <= s.t_z {
            if s.t_x >= s.m_x {
                None
            } else {
                let cx = s.cell_x + s.step_x;
                let id = cell_at(grid, cx, s.cell_y, s.cell_z);
                if id != 0 {
                    Some(
                        SpecHit {
                            x: cx,
                            y: s.cell_y,
                            z: s.cell_z,
                            id,
                            face: Some(face_x(s.step_x)),
                            distance: s.t_x,
                        },
                    )
                } else {
                    dda(grid, DdaState { cell_x: cx, t_x: s.t_x + s.d_x, ..s })
                }
            }
        } else {
            if s.t_z >= s.m_z {
                None
            } else {
                let cz = s.cell_z + s.step_z;
                let id = cell_at(grid, s.cell_x, s.cell_y, cz);
                if id != 0 {
                    Some(
                        SpecHit {
                            x: s.cell_x,
                            y: s.cell_y,
                            z: cz,
                            id,
                            face: Some(face_z(s.step_z)),
                            distance: s.t_z,
                        },
                    )
                } else {
                    dda(grid, DdaState { cell_z: cz, t_z: s.t_z + s.d_z, ..s })
                }
            }
        }
    } else {
        if s.t_y <= s.t_z {
            if s.t_y >= s.m_y {
                None
            } else {
                let cy = s.cell_y + s.step_y;
                let id = cell_at(grid, s.cell_x, cy, s.cell_z);
                if id != 0 {
                    Some(
                        SpecHit {
                            x: s.cell_x,
                            y: cy,
                            z: s.cell_z,
                            id,
                            face: Some(face_y(s.step_y)),
                            distance: s.t_y,
                        },
                    )
                } else {
                    dda(grid, DdaState { cell_y: cy, t_y: s.t_y + s.d_y, ..s })
                }
            }
        } else {
            if s.t_z >= s.m_z {
                None
            } else {
                let cz = s.cell_z + s.step_z;
                let id = cell_at(grid, s.cell_x, s.cell_y, cz);
                if id != 0 {
                    Some(
                        SpecHit {
                            x: s.cell_x,
                            y: s.cell_y,
                            z: cz,
                            id,
                            face: Some(face_z(s.step_z)),
                            distance: s.t_z,
                        },
                    )
                } else {
                    dda(grid, DdaState { cell_z: cz, t_z: s.t_z + s.d_z, ..s })
                }
            }
        }
    }
}

/// The loop state the traversal starts from, after the working origin has
/// been advanced by `base` (0 when the origin already lay inside the grid).
/// The stopping bounds use the exit distances of the *original* origin, so
/// every distance shares one frame.
pub open spec fn init_state(ray: Ray3, maxd: int, base: int) -> DdaState {
    let px = ray.pos.x + (ray.dir.x * base) / 65536;
    let py = ray.pos.y + (ray.dir.y * base) / 65536;
    let pz = ray.pos.z + (ray.dir.z * base) / 65536;
    DdaState {
        cell_x: px / 65536,
        cell_y: py / 65536,
        cell_z: pz / 65536,
        t_x: axis_tmax(px, ray.dir.x as int, base),
        t_y: axis_tmax(py, ray.dir.y as int, base),
        t_z: axis_tmax(pz, ray.dir.z as int, base),
        d_x: axis_delta(ray.dir.x as int),
        d_y: axis_delta(ray.dir.y as int),
        d_z: axis_delta(ray.dir.z as int),
        m_x: min2(axis_exit(ray.pos.x as int, ray.dir.x as int), maxd),
        m_y: min2(axis_exit(ray.pos.y as int, ray.dir.y as int), maxd),
        m_z: min2(axis_exit(ray.pos.z as int, ray.dir.z as int), maxd),
        step_x: sgn(ray.dir.x as int),
        step_y: sgn(ray.dir.y as int),
        step_z: sgn(ray.dir.z as int),
    }
}

/// The ray origin lies inside the grid box on all three axes.
pub open spec fn ray_inside(ray: Ray3) -> bool {
    &&& 0 <= ray.pos.x < 4194304
    &&& 0 <= ray.pos.y < 4194304
    &&& 0 <= ray.pos.z < 4194304
}

/// The whole traversal: entry classification and clipping, the immediate
/// cell, then the stepping loop.
pub open spec fn spec_raycast(grid: Seq<u32>, ray: Ray3, maxd: int) -> Option<SpecHit> {
    if ray_inside(ray) {
        let s = init_state(ray, maxd, 0);
        let id = cell_at(grid, s.cell_x, s.cell_y, s.cell_z);
        if id != 0 {
            Some(SpecHit { x: s.cell_x, y: s.cell_y, z: s.cell_z, id, face: None, distance: 0 })
        } else {
            dda(grid, s)
        }
    } else if axis_escape(ray.pos.x as int, ray.dir.x as int) || axis_escape(
        ray.pos.y as int,
        ray.dir.y as int,
    ) || axis_escape(ray.pos.z as int, ray.dir.z as int) {
        None
    } else {
        let ex = axis_enter(ray.pos.x as int, ray.dir.x as int);
        let ey = axis_enter(ray.pos.y as int, ray.dir.y as int);
        let ez = axis_enter(ray.pos.z as int, ray.dir.z as int);
        let t_enter = max2(ex, max2(ey, ez));
        let t_exit = min2(
            axis_exit(ray.pos.x as int, ray.dir.x as int),
            min2(
                axis_exit(ray.pos.y as int, ray.dir.y as int),
                axis_exit(ray.pos.z as int, ray.dir.z as int),
            ),
        );
        if t_enter >= t_exit {
            None
        } else {
            let base = t_enter + 1;
            if base >= maxd {
                None
            } else {
                let s = init_state(ray, maxd, base);
                let id = cell_at(grid, s.cell_x, s.cell_y, s.cell_z);
                if id != 0 {
                    Some(
                        SpecHit {
                            x: s.cell_x,
                            y: s.cell_y,
                            z: s.cell_z,
                            id,
                            face: Some(entry_face(ex, ey, ez, s.step_x, s.step_y, s.step_z)),
                            distance: base,
                        },
                    )
                } else {
                    dda(grid, s)
                }
            }
        }
    }
}

/// The model hit an executable hit record stands for.
pub open spec fn spec_hit_of(h: RayHit) -> SpecHit {
    SpecHit {
        x: h.coord.x as int,
        y: h.coord.y as int,
        z: h.coord.z as int,
        id: h.id,
        face: h.face,
        distance: h.distance as int,
    }
}

/// The loop state assembled from the traversal's working variables.
pub open spec fn state_of(
    cx: int,
    cy: int,
    cz: int,
    tx: int,
    ty: int,
    tz: int,
    dx: int,
    dy: int,
    dz: int,
    mx: int,
    my: int,
    mz: int,
    sx: int,
    sy: int,
    sz: int,
) -> DdaState {
    DdaState {
        cell_x: cx,
        cell_y: cy,
        cell_z: cz,
        t_x: tx,
        t_y: ty,
        t_z: tz,
        d_x: dx,
        d_y: dy,
        d_z: dz,
        m_x: mx,
        m_y: my,
        m_z: mz,
        step_x: sx,
        step_y: sy,
        step_z: sz,
    }
}

/// A quotient of a dividend at least as large as its positive divisor is at
/// least one.
proof fn lemma_div_ge_one(m: int, d: int)
    requires
        1 <= d <= m,
    ensures
        m / d >= 1,
{
    vstd::arithmetic::div_mod::lemma_fundamental_div_mod(m, d);
    let q = m / d;
    let r = m % d;
    assert(q >= 1) by (nonlinear_arith)
        requires
            1 <= d <= m && m == d * q + r && 0 <= r < d,
    ;
}

// ---------------------------------------------------------------------------
// Laws of the traversal.
// ---------------------------------------------------------------------------

/// Any hit the stepping loop reports names a solid in-bounds cell, carries
/// the identifier stored there, enters through a face, and lies strictly
/// below the stopping bound of the axis it stepped.
pub proof fn lemma_dda_hit_valid(grid: Seq<u32>, s: DdaState, h: SpecHit)
    requires
        dda(grid, s) == Some(h),
    ensures
        in_bounds(h.x, h.y, h.z),
        cell_at(grid, h.x, h.y, h.z) == h.id,
        h.id != 0,
        h.face is Some,
        h.distance < max2(s.m_x, max2(s.m_y, s.m_z)),
    decreases dda_measure(s),
{
    if s.t_x <= s.t_y && s.t_x <= s.t_z {
        if s.t_x < s.m_x {
            let cx = s.cell_x + s.step_x;
            if cell_at(grid, cx, s.cell_y, s.cell_z) == 0 {
                lemma_dda_hit_valid(grid, DdaState { cell_x: cx, t_x: s.t_x + s.d_x, ..s }, h);
            }
        }
    } else if !(s.t_x <= s.t_y) && s.t_y <= s.t_z {
        if s.t_y < s.m_y {
            let cy = s.cell_y + s.step_y;
            if cell_at(grid, s.cell_x, cy, s.cell_z) == 0 {
                lemma_dda_hit_valid(grid, DdaState { cell_y: cy, t_y: s.t_y + s.d_y, ..s }, h);
            }
        }
    } else {
        if s.t_z < s.m_z {
            let cz = s.cell_z + s.step_z;
            if cell_at(grid, s.cell_x, s.cell_y, cz) == 0 {
                lemma_dda_hit_valid(grid, DdaState { cell_z: cz, t_z: s.t_z + s.d_z, ..s }, h);
            }
        }
    }
}

/// A hit reported by the whole traversal names a solid in-bounds cell and
/// its stored identifier; a hit that crossed a face lies strictly within
/// the travel budget, and a faceless hit means the ray began inside solid
/// material at distance zero.
pub proof fn lemma_raycast_hit_valid(grid: Seq<u32>, ray: Ray3, maxd: int, h: SpecHit)
    requires
        spec_raycast(grid, ray, maxd) == Some(h),
    ensures
        in_bounds(h.x, h.y, h.z),
        cell_at(grid, h.x, h.y, h.z) == h.id,
        h.id != 0,
        h.face is Some ==> h.distance < maxd,
        h.face is None ==> h.distance == 0 && ray_inside(ray),
{
    if ray_inside(ray) {
        let s = init_state(ray, maxd, 0);
        if cell_at(grid, s.cell_x, s.cell_y, s.cell_z) == 0 {
            lemma_dda_hit_valid(grid, s, h);
        }
    } else {
        if !(axis_escape(ray.pos.x as int, ray.dir.x as int) || axis_escape(
            ray.pos.y as int,
            ray.dir.y as int,
        ) || axis_escape(ray.pos.z as int, ray.dir.z as int)) {
            let ex = axis_enter(ray.pos.x as int, ray.dir.x as int);
            let ey = axis_enter(ray.pos.y as int, ray.dir.y as int);
            let ez = axis_enter(ray.pos.z as int, ray.dir.z as int);
            let t_enter = max2(ex, max2(ey, ez));
            let base = t_enter + 1;
            if base < maxd {
                let s = init_state(ray, maxd, base);
                if cell_at(grid, s.cell_x, s.cell_y, s.cell_z) == 0 {
                    lemma_dda_hit_valid(grid, s, h);
                }
            }
        }
    }
}

/// In a grid of the right size whose every cell is empty, every read
/// observes air.
proof fn lemma_cell_at_zero(grid: Seq<u32>, x: int, y: int, z: int)
    requires
        grid.len() == crate::chunk::GRID_CELLS,
        forall|i: int| 0 <= i < grid.len() ==> grid[i] == 0,
    ensures
        cell_at(grid, x, y, z) == 0,
{
    if in_bounds(x, y, z) {
        crate::chunk::lemma_flat_index_range(x, y, z);
    }
}

/// The stepping loop never reports a hit in an all-empty grid.
proof fn lemma_dda_empty(grid: Seq<u32>, s: DdaState)
    requires
        grid.len() == crate::chunk::GRID_CELLS,
        forall|i: int| 0 <= i < grid.len() ==> grid[i] == 0,
    ensures
        dda(grid, s) is None,
    decreases dda_measure(s),
{
    if dda_wf(s) {
        if s.t_x <= s.t_y && s.t_x <= s.t_z {
            if s.t_x < s.m_x {
                lemma_cell_at_zero(grid, s.cell_x + s.step_x, s.cell_y, s.cell_z);
                lemma_dda_empty(
                    grid,
                    DdaState { cell_x: s.cell_x + s.step_x, t_x: s.t_x + s.d_x, ..s },
                );
            }
        } else if !(s.t_x <= s.t_y) && s.t_y <= s.t_z {
            if s.t_y < s.m_y {
                lemma_cell_at_zero(grid, s.cell_x, s.cell_y + s.step_y, s.cell_z);
                lemma_dda_empty(
                    grid,
                    DdaState { cell_y: s.cell_y + s.step_y, t_y: s.t_y + s.d_y, ..s },
                );
            }
        } else {
            if s.t_z < s.m_z {
                lemma_cell_at_zero(grid, s.cell_x, s.cell_y, s.cell_z + s.step_z);
                lemma_dda_empty(
                    grid,
                    DdaState { cell_z: s.cell_z + s.step_z, t_z: s.t_z + s.d_z, ..s },
                );
            }
        }
    }
}

/// An all-empty grid is never hit: any ray, any budget.
pub proof fn lemma_raycast_empty(grid: Seq<u32>, ray: Ray3, maxd: int)
    requires
        grid.len() == crate::chunk::GRID_CELLS,
        forall|i: int| 0 <= i < grid.len() ==> grid[i] == 0,
    ensures
        spec_raycast(grid, ray, maxd) is None,
{
    if ray_inside(ray) {
        let s = init_state(ray, maxd, 0);
        lemma_cell_at_zero(grid, s.cell_x, s.cell_y, s.cell_z);
        lemma_dda_empty(grid, s);
    } else {
        if !(axis_escape(ray.pos.x as int, ray.dir.x as int) || axis_escape(
            ray.pos.y as int,
            ray.dir.y as int,
        ) || axis_escape(ray.pos.z as int, ray.dir.z as int)) {
            let ex = axis_enter(ray.pos.x as int, ray.dir.x as int);
            let ey = axis_enter(ray.pos.y as int, ray.dir.y as int);
            let ez = axis_enter(ray.pos.z as int, ray.dir.z as int);
            let t_enter = max2(ex, max2(ey, ez));
            let base = t_enter + 1;
            if base < maxd {
                let s = init_state(ray, maxd, base);
                lemma_cell_at_zero(grid, s.cell_x, s.cell_y, s.cell_z);
                lemma_dda_empty(grid, s);
            }
        }
    }
}

/// A ray whose origin already sits inside a solid cell hits that cell
/// immediately, with no entry clipping: distance zero and no face, for
/// any direction and any budget.
pub proof fn lemma_raycast_inside_solid(grid: Seq<u32>, ray: Ray3, maxd: int)
    requires
        ray_inside(ray),
        cell_at(
            grid,
            ray.pos.x as int / 65536,
            ray.pos.y as int / 65536,
            ray.pos.z as int / 65536,
        ) != 0,
    ensures
        spec_raycast(grid, ray, maxd) == Some(
            SpecHit {
                x: ray.pos.x as int / 65536,
                y: ray.pos.y as int / 65536,
                z: ray.pos.z as int / 65536,
                id: cell_at(
                    grid,
                    ray.pos.x as int / 65536,
                    ray.pos.y as int / 65536,
                    ray.pos.z as int / 65536,
                ),
                face: None,
                distance: 0,
            },
        ),
{
    vstd::arithmetic::div_mod::lemma_fundamental_div_mod(0, 65536);
    assert(ray.dir.x as int * 0 == 0 && ray.dir.y as int * 0 == 0 && ray.dir.z as int * 0 == 0)
        by (nonlinear_arith);
    let s = init_state(ray, maxd, 0);
    assert(s.cell_x == ray.pos.x as int / 65536 && s.cell_y == ray.pos.y as int / 65536
        && s.cell_z == ray.pos.z as int / 65536);
}

/// A ray that starts outside the grid's slab on some axis and does not
/// step back toward it on that axis can never enter the grid: no hit,
/// whatever the grid holds.
pub proof fn lemma_raycast_escape(grid: Seq<u32>, ray: Ray3, maxd: int)
    requires
        !ray_inside(ray),
        axis_escape(ray.pos.x as int, ray.dir.x as int) || axis_escape(
            ray.pos.y as int,
            ray.dir.y as int,
        ) || axis_escape(ray.pos.z as int, ray.dir.z as int),
    ensures
        spec_raycast(grid, ray, maxd) is None,
{
}

/// Raising the stopping bounds of the stepping loop preserves a hit
/// exactly: the loop steps the same cells in the same order and finds the
/// same solid cell before reaching the old bounds.
proof fn lemma_dda_budget_some(grid: Seq<u32>, s1: DdaState, s2: DdaState, h: SpecHit)
    requires
        dda(grid, s1) == Some(h),
        s2 == (DdaState { m_x: s2.m_x, m_y: s2.m_y, m_z: s2.m_z, ..s1 }),
        s1.m_x <= s2.m_x,
        s1.m_y <= s2.m_y,
        s1.m_z <= s2.m_z,
        s2.m_x < T_INF as int,
        s2.m_y < T_INF as int,
        s2.m_z < T_INF as int,
    ensures
        dda(grid, s2) == Some(h),
    decreases dda_measure(s1),
{
    if s1.t_x <= s1.t_y && s1.t_x <= s1.t_z {
        if s1.t_x < s1.m_x {
            let cx = s1.cell_x + s1.step_x;
            if cell_at(grid, cx, s1.cell_y, s1.cell_z) == 0 {
                lemma_dda_budget_some(
                    grid,
                    DdaState { cell_x: cx, t_x: s1.t_x + s1.d_x, ..s1 },
                    DdaState { cell_x: cx, t_x: s1.t_x + s1.d_x, ..s2 },
                    h,
                );
            }
        }
    } else if !(s1.t_x <= s1.t_y) && s1.t_y <= s1.t_z {
        if s1.t_y < s1.m_y {
            let cy = s1.cell_y + s1.step_y;
            if cell_at(grid, s1.cell_x, cy, s1.cell_z) == 0 {
                lemma_dda_budget_some(
                    grid,
                    DdaState { cell_y: cy, t_y: s1.t_y + s1.d_y, ..s1 },
                    DdaState { cell_y: cy, t_y: s1.t_y + s1.d_y, ..s2 },
                    h,
                );
            }
        }
    } else {
        if s1.t_z < s1.m_z {
            let cz = s1.cell_z + s1.step_z;
            if cell_at(grid, s1.cell_x, s1.cell_y, cz) == 0 {
                lemma_dda_budget_some(
                    grid,
                    DdaState { cell_z: cz, t_z: s1.t_z + s1.d_z, ..s1 },
                    DdaState { cell_z: cz, t_z: s1.t_z + s1.d_z, ..s2 },
                    h,
                );
            }
        }
    }
}

/// Lowering every stopping bound to or below a hit's distance starves the
/// stepping loop: it walks the same cells but stops before reaching the
/// cell it used to hit.
proof fn lemma_dda_budget_truncate(
    grid: Seq<u32>,
    s1: DdaState,
    s2: DdaState,
    h: SpecHit,
    dsmall: int,
)
    requires
        dda(grid, s1) == Some(h),
        s2 == (DdaState { m_x: s2.m_x, m_y: s2.m_y, m_z: s2.m_z, ..s1 }),
        s2.m_x <= dsmall,
        s2.m_y <= dsmall,
        s2.m_z <= dsmall,
        dsmall <= h.distance,
    ensures
        dda(grid, s2) is None,
    decreases dda_measure(s1),
{
    if !dda_wf(s2) {
    } else if s1.t_x <= s1.t_y && s1.t_x <= s1.t_z {
        if s1.t_x < s1.m_x && s1.t_x < s2.m_x {
            let cx = s1.cell_x + s1.step_x;
            if cell_at(grid, cx, s1.cell_y, s1.cell_z) == 0 {
                lemma_dda_budget_truncate(
                    grid,
                    DdaState { cell_x: cx, t_x: s1.t_x + s1.d_x, ..s1 },
                    DdaState { cell_x: cx, t_x: s1.t_x + s1.d_x, ..s2 },
                    h,
                    dsmall,
                );
            }
        }
    } else if !(s1.t_x <= s1.t_y) && s1.t_y <= s1.t_z {
        if s1.t_y < s1.m_y && s1.t_y < s2.m_y {
            let cy = s1.cell_y + s1.step_y;
            if cell_at(grid, s1.cell_x, cy, s1.cell_z) == 0 {
                lemma_dda_budget_truncate(
                    grid,
                    DdaState { cell_y: cy, t_y: s1.t_y + s1.d_y, ..s1 },
                    DdaState { cell_y: cy, t_y: s1.t_y + s1.d_y, ..s2 },
                    h,
                    dsmall,
                );
            }
        }
    } else {
        if s1.t_z < s1.m_z && s1.t_z < s2.m_z {
            let cz = s1.cell_z + s1.step_z;
            if cell_at(grid, s1.cell_x, s1.cell_y, cz) == 0 {
                lemma_dda_budget_truncate(
                    grid,
                    DdaState { cell_z: cz, t_z: s1.t_z + s1.d_z, ..s1 },
                    DdaState { cell_z: cz, t_z: s1.t_z + s1.d_z, ..s2 },
                    h,
                    dsmall,
                );
            }
        }
    }
}

/// Raising the travel budget past a hit returns the very same hit:
/// coordinate, face and distance unchanged.
pub proof fn lemma_raycast_budget_monotone(
    grid: Seq<u32>,
    ray: Ray3,
    d1: int,
    d2: int,
    h: SpecHit,
)
    requires
        spec_raycast(grid, ray, d1) == Some(h),
        d1 <= d2,
        d2 < T_INF as int,
    ensures
        spec_raycast(grid, ray, d2) == Some(h),
{
    if ray_inside(ray) {
        let s1 = init_state(ray, d1, 0);
        let s2 = init_state(ray, d2, 0);
        if cell_at(grid, s1.cell_x, s1.cell_y, s1.cell_z) == 0 {
            lemma_dda_budget_some(grid, s1, s2, h);
        }
    } else {
        if !(axis_escape(ray.pos.x as int, ray.dir.x as int) || axis_escape(
            ray.pos.y as int,
            ray.dir.y as int,
        ) || axis_escape(ray.pos.z as int, ray.dir.z as int)) {
            let ex = axis_enter(ray.pos.x as int, ray.dir.x as int);
            let ey = axis_enter(ray.pos.y as int, ray.dir.y as int);
            let ez = axis_enter(ray.pos.z as int, ray.dir.z as int);
            let t_enter = max2(ex, max2(ey, ez));
            let base = t_enter + 1;
            if base < d1 {
                let s1 = init_state(ray, d1, base);
                let s2 = init_state(ray, d2, base);
                if cell_at(grid, s1.cell_x, s1.cell_y, s1.cell_z) == 0 {
                    lemma_dda_budget_some(grid, s1, s2, h);
                }
            }
        }
    }
}

/// A travel budget at or below the distance of a face-crossing hit misses
/// it: the traversal reports no hit at all. (A hit with no face sits at
/// distance zero inside solid material and is returned whatever the
/// budget, so it is excluded here.)
pub proof fn lemma_raycast_budget_truncate(
    grid: Seq<u32>,
    ray: Ray3,
    dbig: int,
    dsmall: int,
    h: SpecHit,
)
    requires
        spec_raycast(grid, ray, dbig) == Some(h),
        h.face is Some,
        dsmall <= h.distance,
    ensures
        spec_raycast(grid, ray, dsmall) is None,
{
    if ray_inside(ray) {
        let s1 = init_state(ray, dbig, 0);
        let s2 = init_state(ray, dsmall, 0);
        if cell_at(grid, s1.cell_x, s1.cell_y, s1.cell_z) == 0 {
            lemma_dda_budget_truncate(grid, s1, s2, h, dsmall);
        }
    } else {
        if !(axis_escape(ray.pos.x as int, ray.dir.x as int) || axis_escape(
            ray.pos.y as int,
            ray.dir.y as int,
        ) || axis_escape(ray.pos.z as int, ray.dir.z as int)) {
            let ex = axis_enter(ray.pos.x as int, ray.dir.x as int);
            let ey = axis_enter(ray.pos.y as int, ray.dir.y as int);
            let ez = axis_enter(ray.pos.z as int, ray.dir.z as int);
            let t_enter = max2(ex, max2(ey, ez));
            let base = t_enter + 1;
            if base < dbig {
                if base < dsmall {
                    let s1 = init_state(ray, dbig, base);
                    let s2 = init_state(ray, dsmall, base);
                    if cell_at(grid, s1.cell_x, s1.cell_y, s1.cell_z) == 0 {
                        lemma_dda_budget_truncate(grid, s1, s2, h, dsmall);
                    }
                }
            }
        }
    }
}

fn min2_i64(a: i64, b: i64) -> (r: i64)
    ensures
        r == min2(a as int, b as int),
{
    if a < b {
        a
    } else {
        b
    }
}

fn max2_i64(a: i64, b: i64) -> (r: i64)
    ensures
        r == max2(a as int, b as int),
{
    if a > b {
        a
    } else {
        b
    }
}

impl RaytraceChunk {
    /// Cast a ray through the grid: the first solid cell within
    /// `max_distance` of the origin (a 16.16 fixed-point scalar, like every
    /// distance here), or `None` when nothing is hit — never an error.
    /// A direction component of zero never advances its axis; a ray whose
    /// direction is zero on every axis tests only the cell holding its
    /// origin. Returns exactly what the model `spec_raycast` denotes; see
    /// the module lemmas for its laws.
    #[verifier::rlimit(60)]
    pub fn raycast(&self, ray: Ray3, max_distance: i64) -> (r: Option<RayHit>)
        requires
            ray.wf(),
            0 <= max_distance <= FX_DIST_LIMIT,
        ensures
            r matches Some(h) ==> spec_raycast(self@, ray, max_distance as int) == Some(
                spec_hit_of(h),
            ),
            r is None ==> spec_raycast(self@, ray, max_distance as int) is None,
            r matches Some(h) ==> in_bounds(
                h.coord.x as int,
                h.coord.y as int,
                h.coord.z as int,
            ) && cell_at(self@, h.coord.x as int, h.coord.y as int, h.coord.z as int) == h.id
                && h.id != 0,
    {
        let step_x = fx_sign(ray.dir.x);
        let step_y = fx_sign(ray.dir.y);
        let step_z = fx_sign(ray.dir.z);

        // Stage A/B bookkeeping: slab exit distances from the original
        // origin; an axis that never advances has an unbounded interval.
        let ex_x = if step_x > 0 {
            fx_div(GRID_FX - ray.pos.x, ray.dir.x)
        } else if step_x < 0 {
            fx_div(ray.pos.x, -ray.dir.x)
        } else {
            T_INF
        };
        let ex_y = if step_y > 0 {
            fx_div(GRID_FX - ray.pos.y, ray.dir.y)
        } else if step_y < 0 {
            fx_div(ray.pos.y, -ray.dir.y)
        } else {
            T_INF
        };
        let ex_z = if step_z > 0 {
            fx_div(GRID_FX - ray.pos.z, ray.dir.z)
        } else if step_z < 0 {
            fx_div(ray.pos.z, -ray.dir.z)
        } else {
            T_INF
        };

        let inside = ray.pos.x >= 0 && ray.pos.x < GRID_FX && ray.pos.y >= 0 && ray.pos.y < GRID_FX
            && ray.pos.z >= 0 && ray.pos.z < GRID_FX;

        let mut px = ray.pos.x;
        let mut py = ray.pos.y;
        let mut pz = ray.pos.z;
        let mut base: i64 = 0;
        let mut en_x: i64 = 0;
        let mut en_y: i64 = 0;
        let mut en_z: i64 = 0;

        if !inside {
            // Stage B: entry clip. An outside axis whose step points away
            // can never be entered.
            if (ray.pos.x < 0 && step_x <= 0) || (ray.pos.x >= GRID_FX && step_x >= 0) || (ray.pos.y
                < 0 && step_y <= 0) || (ray.pos.y >= GRID_FX && step_y >= 0) || (ray.pos.z < 0
                && step_z <= 0) || (ray.pos.z >= GRID_FX && step_z >= 0) {
                return None;
            }
            en_x = if step_x > 0 {
                fx_div(0 - ray.pos.x, ray.dir.x)
            } else if step_x < 0 {
                fx_div(ray.pos.x - GRID_FX, -ray.dir.x)
            } else {
                -T_INF
            };
            en_y = if step_y > 0 {
                fx_div(0 - ray.pos.y, ray.dir.y)
            } else if step_y < 0 {
                fx_div(ray.pos.y - GRID_FX, -ray.dir.y)
            } else {
                -T_INF
            };
            en_z = if step_z > 0 {
                fx_div(0 - ray.pos.z, ray.dir.z)
            } else if step_z < 0 {
                fx_div(ray.pos.z - GRID_FX, -ray.dir.z)
            } else {
                -T_INF
            };
            let t_enter = max2_i64(en_x, max2_i64(en_y, en_z));
            let t_exit = min2_i64(ex_x, min2_i64(ex_y, ex_z));
            if t_enter >= t_exit {
                return None;
            }
            // The axis that put the origin outside contributes a
            // nonnegative entry distance, so the clip offset is positive.
            assert(t_enter >= 0);
            base = t_enter + 1;
            if base >= max_distance {
                return None;
            }
            // Advance the working origin one tick past the entry plane so
            // it sits strictly inside its first cell.
            proof {
                assert(-0x100_0000_0000_0000 <= ray.dir.x * base <= 0x100_0000_0000_0000
                    && -0x100_0000_0000_0000 <= ray.dir.y * base <= 0x100_0000_0000_0000
                    && -0x100_0000_0000_0000 <= ray.dir.z * base
                        <= 0x100_0000_0000_0000) by (nonlinear_arith)
                    requires
                        -0x100_0000 <= ray.dir.x <= 0x100_0000,
                        -0x100_0000 <= ray.dir.y <= 0x100_0000,
                        -0x100_0000 <= ray.dir.z <= 0x100_0000,
                        0 <= base <= 0x1_0000_0000,
                ;
            }
            let off_x = fx_mul(ray.dir.x, base);
            let off_y = fx_mul(ray.dir.y, base);
            let off_z = fx_mul(ray.dir.z, base);
            proof {
                vstd::arithmetic::div_mod::lemma_fundamental_div_mod(ray.dir.x * base, 65536);
                vstd::arithmetic::div_mod::lemma_fundamental_div_mod(ray.dir.y * base, 65536);
                vstd::arithmetic::div_mod::lemma_fundamental_div_mod(ray.dir.z * base, 65536);
            }
            px = ray.pos.x + off_x;
            py = ray.pos.y + off_y;
            pz = ray.pos.z + off_z;
        }

        // Stage C: per-axis stepping parameters.
        let d_x = if step_x > 0 {
            fx_div(FX_ONE, ray.dir.x)
        } else if step_x < 0 {
            fx_div(FX_ONE, -ray.dir.x)
        } else {
            T_INF
        };
        let d_y = if step_y > 0 {
            fx_div(FX_ONE, ray.dir.y)
        } else if step_y < 0 {
            fx_div(FX_ONE, -ray.dir.y)
        } else {
            T_INF
        };
        let d_z = if step_z > 0 {
            fx_div(FX_ONE, ray.dir.z)
        } else if step_z < 0 {
            fx_div(FX_ONE, -ray.dir.z)
        } else {
            T_INF
        };
        proof {
            if step_x != 0 {
                lemma_div_ge_one(65536int * 65536, iabs(ray.dir.x as int));
            }
            if step_y != 0 {
                lemma_div_ge_one(65536int * 65536, iabs(ray.dir.y as int));
            }
            if step_z != 0 {
                lemma_div_ge_one(65536int * 65536, iabs(ray.dir.z as int));
            }
        }

        // Stage D: initial distance to the first boundary on each axis,
        // rebased onto the original origin.
        let fr_x = fx_fract(px);
        let fr_y = fx_fract(py);
        let fr_z = fx_fract(pz);
        let t0_x = if step_x > 0 {
            fx_div(FX_ONE - fr_x, ray.dir.x) + base
        } else if step_x < 0 {
            fx_div(fr_x, -ray.dir.x) + base
        } else {
            T_INF
        };
        let t0_y = if step_y > 0 {
            fx_div(FX_ONE - fr_y, ray.dir.y) + base
        } else if step_y < 0 {
            fx_div(fr_y, -ray.dir.y) + base
        } else {
            T_INF
        };
        let t0_z = if step_z > 0 {
            fx_div(FX_ONE - fr_z, ray.dir.z) + base
        } else if step_z < 0 {
            fx_div(fr_z, -ray.dir.z) + base
        } else {
            T_INF
        };

        let face_for_x = if step_x >= 0 {
            Face::NegX
        } else {
            Face::PosX
        };
        let face_for_y = if step_y >= 0 {
            Face::NegY
        } else {
            Face::PosY
        };
        let face_for_z = if step_z >= 0 {
            Face::NegZ
        } else {
            Face::PosZ
        };

        // Stage E: the cell holding the working origin.
        let cx0 = fx_floor(px);
        let cy0 = fx_floor(py);
        let cz0 = fx_floor(pz);
        let ghost s0 = init_state(ray, max_distance as int, base as int);
        proof {
            if inside {
                vstd::arithmetic::div_mod::lemma_fundamental_div_mod(0, 65536);
                assert(ray.dir.x as int * 0 == 0 && ray.dir.y as int * 0 == 0 && ray.dir.z as int
                    * 0 == 0) by (nonlinear_arith);
            }
            assert(px as int == ray.pos.x + (ray.dir.x * base as int) / 65536);
            assert(py as int == ray.pos.y + (ray.dir.y * base as int) / 65536);
            assert(pz as int == ray.pos.z + (ray.dir.z * base as int) / 65536);
        }
        let id0 = self.get_wide(cx0, cy0, cz0);
        if id0 != 0 {
            let face = if !inside {
                Some(
                    if en_x >= en_y {
                        if en_x >= en_z {
                            face_for_x
                        } else {
                            face_for_z
                        }
                    } else {
                        if en_y >= en_z {
                            face_for_y
                        } else {
                            face_for_z
                        }
                    },
                )
            } else {
                None
            };
            return Some(
                RayHit {
                    coord: Vec3i { x: cx0 as i32, y: cy0 as i32, z: cz0 as i32 },
                    id: id0,
                    face,
                    distance: base,
                },
            );
        }
        // Stage F: the stepping loop, bounded per axis by the nearer of the
        // box exit and the travel budget.
        let m_x = min2_i64(ex_x, max_distance);
        let m_y = min2_i64(ex_y, max_distance);
        let m_z = min2_i64(ex_z, max_distance);

        let mut tmx = t0_x;
        let mut tmy = t0_y;
        let mut tmz = t0_z;
        let mut cx = cx0;
        let mut cy = cy0;
        let mut cz = cz0;
        let ghost t00x = t0_x as int;
        let ghost t00y = t0_y as int;
        let ghost t00z = t0_z as int;
        let ghost c00x = cx0 as int;
        let ghost c00y = cy0 as int;
        let ghost c00z = cz0 as int;
        proof {
            vstd::arithmetic::div_mod::lemma_fundamental_div_mod(px as int, 65536);
            vstd::arithmetic::div_mod::lemma_fundamental_div_mod(py as int, 65536);
            vstd::arithmetic::div_mod::lemma_fundamental_div_mod(pz as int, 65536);
            assert(-0x400_0000 <= c00x <= 0x400_0000);
            assert(-0x400_0000 <= c00y <= 0x400_0000);
            assert(-0x400_0000 <= c00z <= 0x400_0000);
        }
        proof {
            assert(state_of(
                cx as int,
                cy as int,
                cz as int,
                tmx as int,
                tmy as int,
                tmz as int,
                d_x as int,
                d_y as int,
                d_z as int,
                m_x as int,
                m_y as int,
                m_z as int,
                step_x as int,
                step_y as int,
                step_z as int,
            ) == s0);
            assert(spec_raycast(self@, ray, max_distance as int) == dda(self@, s0));
        }
        loop
            invariant
                step_x == sgn(ray.dir.x as int),
                step_y == sgn(ray.dir.y as int),
                step_z == sgn(ray.dir.z as int),
                0 <= max_distance <= FX_DIST_LIMIT,
                m_x <= max_distance && m_y <= max_distance && m_z <= max_distance,
                step_x == 0 ==> tmx == T_INF && cx == c00x,
                step_y == 0 ==> tmy == T_INF && cy == c00y,
                step_z == 0 ==> tmz == T_INF && cz == c00z,
                step_x != 0 ==> 1 <= d_x <= 0x1_0000_0000,
                step_y != 0 ==> 1 <= d_y <= 0x1_0000_0000,
                step_z != 0 ==> 1 <= d_z <= 0x1_0000_0000,
                step_x != 0 ==> 0 <= t00x <= tmx <= 0x2_0000_0000,
                step_y != 0 ==> 0 <= t00y <= tmy <= 0x2_0000_0000,
                step_z != 0 ==> 0 <= t00z <= tmz <= 0x2_0000_0000,
                step_x != 0 ==> iabs(cx as int - c00x) <= tmx - t00x,
                step_y != 0 ==> iabs(cy as int - c00y) <= tmy - t00y,
                step_z != 0 ==> iabs(cz as int - c00z) <= tmz - t00z,
                -0x400_0000 <= c00x <= 0x400_0000,
                -0x400_0000 <= c00y <= 0x400_0000,
                -0x400_0000 <= c00z <= 0x400_0000,
                face_for_x == face_x(step_x as int),
                face_for_y == face_y(step_y as int),
                face_for_z == face_z(step_z as int),
                spec_raycast(self@, ray, max_distance as int) == dda(
                    self@,
                    state_of(
                        cx as int,
                        cy as int,
                        cz as int,
                        tmx as int,
                        tmy as int,
                        tmz as int,
                        d_x as int,
                        d_y as int,
                        d_z as int,
                        m_x as int,
                        m_y as int,
                        m_z as int,
                        step_x as int,
                        step_y as int,
                        step_z as int,
                    ),
                ),
            decreases clip0(m_x as int - tmx as int) + clip0(m_y as int - tmy as int) + clip0(
                m_z as int - tmz as int,
            ),
        {
            let ghost pre = state_of(
                cx as int,
                cy as int,
                cz as int,
                tmx as int,
                tmy as int,
                tmz as int,
                d_x as int,
                d_y as int,
                d_z as int,
                m_x as int,
                m_y as int,
                m_z as int,
                step_x as int,
                step_y as int,
                step_z as int,
            );
            proof {
                assert(dda_wf(pre));
            }
            if tmx <= tmy {
                if tmx <= tmz {
                    if tmx >= m_x {
                        return None;
                    }
                    cx = cx + step_x;
                    let id = self.get_wide(cx, cy, cz);
                    if id != 0 {
                        proof {
                            assert(dda(self@, pre) matches Some(h) && h == (SpecHit {
                                x: cx as int,
                                y: cy as int,
                                z: cz as int,
                                id,
                                face: Some(face_x(pre.step_x)),
                                distance: tmx as int,
                            }));
                        }
                        return Some(
                            RayHit {
                                coord: Vec3i { x: cx as i32, y: cy as i32, z: cz as i32 },
                                id,
                                face: Some(face_for_x),
                                distance: tmx,
                            },
                        );
                    }
                    tmx = tmx + d_x;
                } else {
                    if tmz >= m_z {
                        return None;
                    }
                    cz = cz + step_z;
                    let id = self.get_wide(cx, cy, cz);
                    if id != 0 {
                        proof {
                            assert(dda(self@, pre) matches Some(h) && h == (SpecHit {
                                x: cx as int,
                                y: cy as int,
                                z: cz as int,
                                id,
                                face: Some(face_z(pre.step_z)),
                                distance: tmz as int,
                            }));
                        }
                        return Some(
                            RayHit {
                                coord: Vec3i { x: cx as i32, y: cy as i32, z: cz as i32 },
                                id,
                                face: Some(face_for_z),
                                distance: tmz,
                            },
                        );
                    }
                    tmz = tmz + d_z;
                }
            } else {
                if tmy <= tmz {
                    if tmy >= m_y {
                        return None;
                    }
                    cy = cy + step_y;
                    let id = self.get_wide(cx, cy, cz);
                    if id != 0 {
                        proof {
                            assert(dda(self@, pre) matches Some(h) && h == (SpecHit {
                                x: cx as int,
                                y: cy as int,
                                z: cz as int,
                                id,
                                face: Some(face_y(pre.step_y)),
                                distance: tmy as int,
                            }));
                        }
                        return Some(
                            RayHit {
                                coord: Vec3i { x: cx as i32, y: cy as i32, z: cz as i32 },
                                id,
                                face: Some(face_for_y),
                                distance: tmy,
                            },
                        );
                    }
                    tmy = tmy + d_y;
                } else {
                    if tmz >= m_z {
                        return None;
                    }
                    cz = cz + step_z;
                    let id = self.get_wide(cx, cy, cz);
                    if id != 0 {
                        proof {
                            assert(dda(self@, pre) matches Some(h) && h == (SpecHit {
                                x: cx as int,
                                y: cy as int,
                                z: cz as int,
                                id,
                                face: Some(face_z(pre.step_z)),
                                distance: tmz as int,
                            }));
                        }
                        return Some(
                            RayHit {
                                coord: Vec3i { x: cx as i32, y: cy as i32, z: cz as i32 },
                                id,
                                face: Some(face_for_z),
                                distance: tmz,
                            },
                        );
                    }
                    tmz = tmz + d_z;
                }
            }
        }
    }
}

} // verus!
