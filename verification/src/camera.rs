//! A first-person camera: a position and an orthonormal orientation basis
//! derived from yaw and pitch, with movement, look and zoom operations.
//!
//! Angles are in microdegrees, lengths in thousandths of a world unit,
//! times in milliseconds. Every mutation recomputes the basis, so the
//! basis is never stale.

use vstd::prelude::*;
use vstd::arithmetic::div_mod::{lemma_fundamental_div_mod_converse, lemma_div_is_ordered,
    lemma_div_by_multiple, lemma_div_multiples_vanish, lemma_mod_bound};
use crate::num::{div_trunc, div_trunc_i64, isqrt_spec, lemma_isqrt_bounds, lemma_isqrt_unique,
    lemma_div_trunc_mag, lemma_div_trunc_props};
use crate::vec3::{V3i, Vec3, dot, cross, norm2, vadd, vneg, in_bounds, normalize_spec,
    lemma_cross_orthogonal, lemma_norm2_basics, lemma_normalize_in_bounds, lemma_normalize_dot,
    lemma_normalize_norm2, lemma_lagrange, cross_milli, dot_milli, normalize_milli, COORD_LIMIT};
use crate::trig::{sin_milli, cos_milli, reduce_half_turn, sin_cos_milli, reduce_angle,
    reduce_half_angle, lemma_sin_cos_range, lemma_sin_cos_coverage, lemma_bhaskara_values,
    lemma_cos_away_from_pole};
use crate::mat4::{Mat4, M4i};

verus! {

/// The four directions a keyboard can ask the camera to move in.
#[allow(non_camel_case_types)]
#[derive(Clone, Copy, PartialEq, Eq, Structural, Debug)]
pub enum CameraMovement {
    FORWARD,
    BACKWARD,
    LEFT,
    RIGHT,
}

/// Default yaw: a quarter turn to the left, facing the negative z axis.
pub const YAW: i64 = -90_000_000;

/// Default pitch: level.
pub const PITCH: i64 = 0;

/// Default movement speed, in thousandths of a unit per second.
pub const SPEED: i64 = 2_500;

/// Default mouse sensitivity, in microdegrees per thousandth of a screen
/// unit: a tenth of a degree per unit.
pub const SENSITIVITY: i64 = 100;

/// Default zoom (field of view), in microdegrees.
pub const ZOOM: i64 = 45_000_000;

/// Smallest zoom the scroll wheel can reach.
pub const ZOOM_MIN: i64 = 1_000_000;

/// Largest zoom the scroll wheel can reach.
pub const ZOOM_MAX: i64 = 45_000_000;

/// The pitch bound enforced when a mouse movement is constrained.
pub const PITCH_LIMIT: i64 = 89_000_000;

/// Largest position coordinate on which a movement step is accepted;
/// one step moves each coordinate by less than `COORD_LIMIT` minus this.
pub const MOVE_LIMIT: i64 = 999_000_000_000_000;

/// Longest accepted frame time, in milliseconds.
pub const DELTA_LIMIT: i64 = 1_000_000_000;

/// Largest accepted mouse offset, in thousandths of a screen unit.
pub const OFFSET_LIMIT: i64 = 100_000_000_000;

/// Mathematical (ghost) counterpart of `Camera`.
pub struct CameraV {
    pub position: V3i,
    pub front: V3i,
    pub up: V3i,
    pub right: V3i,
    pub world_up: V3i,
    pub yaw: int,
    pub pitch: int,
    pub movement_speed: int,
    pub mouse_sensitivity: int,
    pub zoom: int,
}

/// A camera: position, orientation basis, the angles the basis is derived
/// from, and the movement parameters.
#[derive(Clone, Copy, PartialEq, Eq, Structural, Debug)]
pub struct Camera {
    pub position: Vec3,
    pub front: Vec3,
    pub up: Vec3,
    pub right: Vec3,
    pub world_up: Vec3,
    pub yaw: i64,
    pub pitch: i64,
    pub movement_speed: i64,
    pub mouse_sensitivity: i64,
    pub zoom: i64,
}

impl View for Camera {
    type V = CameraV;

    open spec fn view(&self) -> CameraV {
        CameraV {
            position: self.position@,
            front: self.front@,
            up: self.up@,
            right: self.right@,
            world_up: self.world_up@,
            yaw: self.yaw as int,
            pitch: self.pitch as int,
            movement_speed: self.movement_speed as int,
            mouse_sensitivity: self.mouse_sensitivity as int,
            zoom: self.zoom as int,
        }
    }
}

/// The facing direction before rescaling: the spherical-to-Cartesian
/// conversion of yaw and pitch, in thousandths.
pub open spec fn front_raw_of(yaw: int, pitch: int) -> V3i {
    V3i {
        x: div_trunc(cos_milli(yaw) * cos_milli(pitch), 1000),
        y: sin_milli(pitch),
        z: div_trunc(sin_milli(yaw) * cos_milli(pitch), 1000),
    }
}

/// The facing direction at unit scale.
pub open spec fn front_of(yaw: int, pitch: int) -> V3i {
    normalize_spec(front_raw_of(yaw, pitch))
}

/// The right-hand direction: the facing direction crossed with the world
/// up reference, at unit scale.
pub open spec fn right_of(yaw: int, pitch: int, world_up: V3i) -> V3i {
    normalize_spec(cross(front_of(yaw, pitch), world_up))
}

/// The camera's up direction: right crossed with front, at unit scale.
pub open spec fn up_of(yaw: int, pitch: int, world_up: V3i) -> V3i {
    normalize_spec(cross(right_of(yaw, pitch, world_up), front_of(yaw, pitch)))
}

impl CameraV {
    /// Well-formed: stored angles reduced, zoom clamped, coordinates
    /// within machine bounds, and the basis consistent with the angles.
    pub open spec fn wf(self) -> bool {
        &&& 0 <= self.yaw < 360_000_000
        &&& -180_000_000 <= self.pitch < 180_000_000
        &&& ZOOM_MIN <= self.zoom <= ZOOM_MAX
        &&& in_bounds(self.position, COORD_LIMIT as int)
        &&& in_bounds(self.world_up, 100_000)
        &&& 0 <= self.movement_speed <= 1_000_000
        &&& 0 <= self.mouse_sensitivity <= 1_000_000
        &&& self.front == front_of(self.yaw, self.pitch)
        &&& self.right == right_of(self.yaw, self.pitch, self.world_up)
        &&& self.up == up_of(self.yaw, self.pitch, self.world_up)
    }
}

/// The camera with its basis recomputed from its angles.
pub open spec fn reconciled(c: CameraV) -> CameraV {
    CameraV {
        front: front_of(c.yaw, c.pitch),
        right: right_of(c.yaw, c.pitch, c.world_up),
        up: up_of(c.yaw, c.pitch, c.world_up),
        ..c
    }
}

/// Clamp to a closed interval.
pub open spec fn clamp_i(v: int, lo: int, hi: int) -> int {
    if v < lo {
        lo
    } else if v > hi {
        hi
    } else {
        v
    }
}

/// What constructing a camera yields.
pub open spec fn camera_new(position: V3i, world_up: V3i, yaw: int, pitch: int) -> CameraV {
    reconciled(
        CameraV {
            position: position,
            front: V3i { x: 0, y: 0, z: 0 },
            up: world_up,
            right: V3i { x: 0, y: 0, z: 0 },
            world_up: world_up,
            yaw: yaw % 360_000_000,
            pitch: reduce_half_turn(pitch),
            movement_speed: SPEED as int,
            mouse_sensitivity: SENSITIVITY as int,
            zoom: ZOOM as int,
        },
    )
}

/// What a mouse movement does: both offsets scaled by the sensitivity,
/// added to yaw and pitch, the pitch clamped when asked to, the basis
/// recomputed.
pub open spec fn mouse_moved(c: CameraV, x_offset: int, y_offset: int, constrain_pitch: bool)
    -> CameraV {
    let yaw2 = (c.yaw + x_offset * c.mouse_sensitivity) % 360_000_000;
    let p1 = c.pitch + y_offset * c.mouse_sensitivity;
    let pitch2 = if constrain_pitch {
        clamp_i(p1, -PITCH_LIMIT as int, PITCH_LIMIT as int)
    } else {
        reduce_half_turn(p1)
    };
    reconciled(CameraV { yaw: yaw2, pitch: pitch2, ..c })
}

/// What a scroll does: the offset subtracted from the zoom, clamped.
pub open spec fn scrolled(c: CameraV, y_offset: int) -> CameraV {
    CameraV { zoom: clamp_i(c.zoom - y_offset, ZOOM_MIN as int, ZOOM_MAX as int), ..c }
}

/// One movement step along a basis vector: the vector times the velocity,
/// brought back from the product scale.
pub open spec fn scale_step(v: V3i, velocity: int) -> V3i {
    V3i {
        x: div_trunc(v.x * velocity, 1_000_000),
        y: div_trunc(v.y * velocity, 1_000_000),
        z: div_trunc(v.z * velocity, 1_000_000),
    }
}

/// The displacement a keyboard event causes: forward and backward along
/// the facing direction, left and right along the right-hand direction.
pub open spec fn displacement_of(c: CameraV, direction: CameraMovement, delta_time: int) -> V3i {
    let velocity = c.movement_speed * delta_time;
    match direction {
        CameraMovement::FORWARD => scale_step(c.front, velocity),
        CameraMovement::BACKWARD => vneg(scale_step(c.front, velocity)),
        CameraMovement::LEFT => vneg(scale_step(c.right, velocity)),
        CameraMovement::RIGHT => scale_step(c.right, velocity),
    }
}

/// What a keyboard event does: the displacement applied to the position,
/// the basis recomputed.
pub open spec fn keyboard_moved(c: CameraV, direction: CameraMovement, delta_time: int)
    -> CameraV {
    reconciled(
        CameraV { position: vadd(c.position, displacement_of(c, direction, delta_time)), ..c },
    )
}

/// The look-at transform of a camera with an orthonormal basis: rows are
/// right, up and the negated facing direction; the last column carries
/// the projections of the position, brought back to thousandths.
pub open spec fn view_matrix_of(c: CameraV) -> M4i {
    M4i {
        m00: c.right.x,
        m01: c.right.y,
        m02: c.right.z,
        m03: -div_trunc(dot(c.right, c.position), 1000),
        m10: c.up.x,
        m11: c.up.y,
        m12: c.up.z,
        m13: -div_trunc(dot(c.up, c.position), 1000),
        m20: -c.front.x,
        m21: -c.front.y,
        m22: -c.front.z,
        m23: div_trunc(dot(c.front, c.position), 1000),
        m30: 0,
        m31: 0,
        m32: 0,
        m33: 1000,
    }
}

/// A product of two factors of magnitude at least `705` has magnitude at
/// least `497` after the truncating division by `1000`.
proof fn lemma_large_product_step(a: int, b: int)
    requires
        a >= 705 || a <= -705,
        b >= 705 || b <= -705,
        -1000 <= a <= 1000,
        -1000 <= b <= 1000,
    ensures
        div_trunc(a * b, 1000) >= 497 || div_trunc(a * b, 1000) <= -497,
{
    assert(a * b >= 497025 || a * b <= -497025) by (nonlinear_arith)
        requires
            a >= 705 || a <= -705,
            b >= 705 || b <= -705,
    ;
    lemma_fundamental_div_mod_converse(497025, 1000, 497, 25);
    if a * b >= 497025 {
        lemma_div_is_ordered(497025, a * b, 1000);
    } else {
        lemma_div_is_ordered(497025, -(a * b), 1000);
    }
}

/// The unscaled facing direction never collapses: its squared norm has
/// the floor the normalization bounds ask for.
proof fn lemma_front_raw_floor(yaw: int, pitch: int)
    ensures
        norm2(front_raw_of(yaw, pitch)) >= 247009,
{
    lemma_sin_cos_range(pitch);
    lemma_sin_cos_range(yaw);
    lemma_sin_cos_coverage(pitch);
    lemma_sin_cos_coverage(yaw);
    let sp = sin_milli(pitch);
    let cp = cos_milli(pitch);
    let sy = sin_milli(yaw);
    let cy = cos_milli(yaw);
    let raw = front_raw_of(yaw, pitch);
    lemma_norm2_basics(raw);
    if sp >= 705 || sp <= -705 {
        assert(raw.y * raw.y >= 247009) by (nonlinear_arith)
            requires
                raw.y >= 705 || raw.y <= -705,
        ;
    } else {
        if cy >= 705 || cy <= -705 {
            lemma_large_product_step(cy, cp);
            assert(raw.x * raw.x >= 247009) by (nonlinear_arith)
                requires
                    raw.x >= 497 || raw.x <= -497,
            ;
        } else {
            lemma_large_product_step(sy, cp);
            assert(raw.z * raw.z >= 247009) by (nonlinear_arith)
                requires
                    raw.z >= 497 || raw.z <= -497,
            ;
        }
    }
}

/// The facing direction has length one up to rounding: its squared norm
/// sits within six tenths of a percent of `1000 * 1000`, whatever the
/// yaw and pitch.
pub proof fn lemma_front_unit_norm(yaw: int, pitch: int)
    ensures
        994000 <= norm2(front_of(yaw, pitch)) <= 1004025,
{
    lemma_front_raw_floor(yaw, pitch);
    lemma_normalize_norm2(front_raw_of(yaw, pitch));
}

/// While the pitch stays in the clamped range, the facing direction keeps
/// a visible horizontal part: one of its x and z components has magnitude
/// six or more.
proof fn lemma_front_horizontal_floor(yaw: int, pitch: int)
    requires
        -PITCH_LIMIT as int <= pitch <= PITCH_LIMIT as int,
    ensures
        front_of(yaw, pitch).x >= 6 || front_of(yaw, pitch).x <= -6 || front_of(yaw, pitch).z >= 6
            || front_of(yaw, pitch).z <= -6,
{
    lemma_sin_cos_range(yaw);
    lemma_sin_cos_range(pitch);
    lemma_sin_cos_coverage(yaw);
    lemma_cos_away_from_pole(pitch);
    let cy = cos_milli(yaw);
    let sy = sin_milli(yaw);
    let cp = cos_milli(pitch);
    let raw = front_raw_of(yaw, pitch);
    assert(-1_000_000 <= cy * cp <= 1_000_000 && -1_000_000 <= sy * cp <= 1_000_000)
        by (nonlinear_arith)
        requires
            -1000 <= cy <= 1000,
            -1000 <= sy <= 1000,
            -1000 <= cp <= 1000,
    ;
    lemma_div_trunc_mag(cy * cp, 1000, 1_000_000);
    lemma_div_trunc_mag(sy * cp, 1000, 1_000_000);
    lemma_div_by_multiple(1000, 1000);
    assert(raw.x * raw.x + raw.y * raw.y + raw.z * raw.z <= 3_000_000) by (nonlinear_arith)
        requires
            -1000 <= raw.x <= 1000,
            -1000 <= raw.y <= 1000,
            -1000 <= raw.z <= 1000,
    ;
    lemma_front_raw_floor(yaw, pitch);
    let n2 = norm2(raw);
    let l = isqrt_spec(n2);
    lemma_isqrt_bounds(n2);
    assert(l >= 497) by (nonlinear_arith)
        requires
            n2 >= 247009,
            n2 < (l + 1) * (l + 1),
            l >= 0,
    ;
    assert(l <= 1732) by (nonlinear_arith)
        requires
            l * l <= n2,
            n2 <= 3_000_000,
            l >= 0,
    ;
    lemma_fundamental_div_mod_converse(11985, 1000, 11, 985);
    lemma_div_multiples_vanish(6, l);
    lemma_div_trunc_props(raw.x * 1000, l);
    lemma_div_trunc_props(raw.z * 1000, l);
    if cy >= 705 || cy <= -705 {
        assert(cy * cp >= 11985 || cy * cp <= -11985) by (nonlinear_arith)
            requires
                cy >= 705 || cy <= -705,
                cp >= 17,
        ;
        if cy * cp >= 11985 {
            lemma_div_is_ordered(11985, cy * cp, 1000);
            lemma_div_is_ordered(6 * l, raw.x * 1000, l);
        } else {
            lemma_div_is_ordered(11985, -(cy * cp), 1000);
            lemma_div_is_ordered(6 * l, -(raw.x * 1000), l);
        }
    } else {
        assert(sy * cp >= 11985 || sy * cp <= -11985) by (nonlinear_arith)
            requires
                sy >= 705 || sy <= -705,
                cp >= 17,
        ;
        if sy * cp >= 11985 {
            lemma_div_is_ordered(11985, sy * cp, 1000);
            lemma_div_is_ordered(6 * l, raw.z * 1000, l);
        } else {
            lemma_div_is_ordered(11985, -(sy * cp), 1000);
            lemma_div_is_ordered(6 * l, -(raw.z * 1000), l);
        }
    }
}

/// Under the usual world up reference, and while the pitch stays in the
/// clamped range, all three basis vectors have length one up to rounding.
pub proof fn lemma_basis_unit_norms(yaw: int, pitch: int)
    requires
        -PITCH_LIMIT as int <= pitch <= PITCH_LIMIT as int,
    ensures
        994000 <= norm2(front_of(yaw, pitch)) <= 1004025,
        994000 <= norm2(right_of(yaw, pitch, (V3i { x: 0, y: 1000, z: 0 }))) <= 1004025,
        994000 <= norm2(up_of(yaw, pitch, (V3i { x: 0, y: 1000, z: 0 }))) <= 1004025,
{
    let w = V3i { x: 0, y: 1000, z: 0 };
    lemma_front_unit_norm(yaw, pitch);
    lemma_front_horizontal_floor(yaw, pitch);
    let f = front_of(yaw, pitch);
    let c1 = cross(f, w);
    lemma_norm2_basics(c1);
    assert(c1.x == -(f.z * 1000) && c1.y == 0 && c1.z == f.x * 1000);
    if f.x >= 6 || f.x <= -6 {
        assert(c1.z * c1.z >= 247009) by (nonlinear_arith)
            requires
                c1.z >= 6000 || c1.z <= -6000,
        ;
    } else {
        assert(c1.x * c1.x >= 247009) by (nonlinear_arith)
            requires
                c1.x >= 6000 || c1.x <= -6000,
        ;
    }
    lemma_normalize_norm2(c1);
    let r = right_of(yaw, pitch, w);
    lemma_basis_orthogonal(yaw, pitch, w);
    assert(r.x * f.x + r.y * f.y + r.z * f.z == f.x * r.x + f.y * r.y + f.z * r.z)
        by (nonlinear_arith);
    let c2 = cross(r, f);
    lemma_lagrange(r, f);
    let prod = norm2(r) * norm2(f);
    assert(prod >= 988036000000) by (nonlinear_arith)
        requires
            prod == norm2(r) * norm2(f),
            norm2(r) >= 994000,
            norm2(f) >= 994000,
    ;
    let d = dot(r, f);
    assert(d * d <= 9000000) by (nonlinear_arith)
        requires
            -3000 <= d <= 3000,
    ;
    assert(norm2(c2) >= 247009);
    lemma_normalize_norm2(c2);
}

/// The basis is orthogonal up to rounding: each pair of basis vectors has
/// a dot product within three thousandths of the unit scale of zero,
/// whatever the yaw, pitch and world up reference.
pub proof fn lemma_basis_orthogonal(yaw: int, pitch: int, world_up: V3i)
    ensures
        -3000 < dot(front_of(yaw, pitch), right_of(yaw, pitch, world_up)) < 3000,
        -3000 < dot(front_of(yaw, pitch), up_of(yaw, pitch, world_up)) < 3000,
        -3000 < dot(right_of(yaw, pitch, world_up), up_of(yaw, pitch, world_up)) < 3000,
{
    let f = front_of(yaw, pitch);
    let r = right_of(yaw, pitch, world_up);
    lemma_normalize_in_bounds(front_raw_of(yaw, pitch));
    lemma_normalize_in_bounds(cross(f, world_up));
    lemma_cross_orthogonal(f, world_up);
    lemma_normalize_dot(f, cross(f, world_up), 1000);
    lemma_cross_orthogonal(r, f);
    lemma_normalize_dot(r, cross(r, f), 1000);
    lemma_normalize_dot(f, cross(r, f), 1000);
}

/// Moving forward and then backward with the same frame time restores the
/// position exactly; so does moving right and then left.
pub proof fn lemma_keyboard_round_trip(c: CameraV, delta_time: int)
    requires
        c.wf(),
    ensures
        keyboard_moved(
            keyboard_moved(c, CameraMovement::FORWARD, delta_time),
            CameraMovement::BACKWARD,
            delta_time,
        ).position == c.position,
        keyboard_moved(
            keyboard_moved(c, CameraMovement::RIGHT, delta_time),
            CameraMovement::LEFT,
            delta_time,
        ).position == c.position,
{
    let c1 = keyboard_moved(c, CameraMovement::FORWARD, delta_time);
    assert(c1.front == c.front);
    assert(displacement_of(c1, CameraMovement::BACKWARD, delta_time) == vneg(
        displacement_of(c, CameraMovement::FORWARD, delta_time),
    ));
    let c2 = keyboard_moved(c, CameraMovement::RIGHT, delta_time);
    assert(c2.right == c.right);
    assert(displacement_of(c2, CameraMovement::LEFT, delta_time) == vneg(
        displacement_of(c, CameraMovement::RIGHT, delta_time),
    ));
}

/// A scroll always lands the zoom inside `[1°, 45°]` and preserves
/// well-formedness, so no sequence of scrolls can leave the range.
pub proof fn lemma_scroll_clamps(c: CameraV, y_offset: int)
    requires
        c.wf(),
    ensures
        scrolled(c, y_offset).wf(),
        ZOOM_MIN as int <= scrolled(c, y_offset).zoom <= ZOOM_MAX as int,
{
}

/// A mouse movement preserves well-formedness, and a constrained one
/// always lands the pitch inside `[-89°, 89°]`, so no sequence of
/// constrained movements can leave that range.
pub proof fn lemma_mouse_moved_wf(c: CameraV, x_offset: int, y_offset: int, constrain_pitch: bool)
    requires
        c.wf(),
    ensures
        mouse_moved(c, x_offset, y_offset, constrain_pitch).wf(),
        constrain_pitch ==> -PITCH_LIMIT as int <= mouse_moved(
            c,
            x_offset,
            y_offset,
            constrain_pitch,
        ).pitch <= PITCH_LIMIT as int,
{
    lemma_mod_bound(c.yaw + x_offset * c.mouse_sensitivity, 360_000_000);
    lemma_mod_bound(c.pitch + y_offset * c.mouse_sensitivity + 180_000_000, 360_000_000);
}

/// The default orientation: yaw a quarter turn to the left and level
/// pitch, with the world up along positive y, faces exactly along the
/// negative z axis, with right along positive x and up along positive y.
pub proof fn lemma_initial_orientation(position: V3i)
    ensures
        camera_new(position, V3i { x: 0, y: 1000, z: 0 }, -90_000_000, 0).yaw == 270_000_000,
        camera_new(position, V3i { x: 0, y: 1000, z: 0 }, -90_000_000, 0).pitch == 0,
        camera_new(position, V3i { x: 0, y: 1000, z: 0 }, -90_000_000, 0).front == (V3i {
            x: 0,
            y: 0,
            z: -1000,
        }),
        camera_new(position, V3i { x: 0, y: 1000, z: 0 }, -90_000_000, 0).right == (V3i {
            x: 1000,
            y: 0,
            z: 0,
        }),
        camera_new(position, V3i { x: 0, y: 1000, z: 0 }, -90_000_000, 0).up == (V3i {
            x: 0,
            y: 1000,
            z: 0,
        }),
{
    lemma_bhaskara_values();
    lemma_fundamental_div_mod_converse(-90_000_000, 360_000_000, -1, 270_000_000);
    lemma_fundamental_div_mod_converse(180_000_000, 360_000_000, 0, 180_000_000);
    lemma_fundamental_div_mod_converse(270_000_000, 360_000_000, 0, 270_000_000);
    lemma_fundamental_div_mod_converse(360_000_000, 360_000_000, 1, 0);
    lemma_fundamental_div_mod_converse(0, 360_000_000, 0, 0);
    lemma_fundamental_div_mod_converse(90_000_000, 360_000_000, 0, 90_000_000);
    assert(sin_milli(270_000_000) == -1000);
    assert(cos_milli(270_000_000) == 0);
    assert(sin_milli(0) == 0);
    assert(cos_milli(0) == 1000);
    lemma_fundamental_div_mod_converse(0, 1000, 0, 0);
    lemma_fundamental_div_mod_converse(1_000_000, 1000, 1000, 0);
    let raw = front_raw_of(270_000_000, 0);
    assert(raw == (V3i { x: 0, y: 0, z: -1000 }));
    lemma_isqrt_unique(1_000_000, 1000);
    assert(raw.z * raw.z == 1_000_000) by (nonlinear_arith)
        requires
            raw.z == -1000,
    ;
    assert(norm2(raw) == 1_000_000);
    let f = front_of(270_000_000, 0);
    assert(f == (V3i { x: 0, y: 0, z: -1000 }));
    let w = V3i { x: 0, y: 1000, z: 0 };
    let c1 = cross(f, w);
    assert(c1 == (V3i { x: 1_000_000, y: 0, z: 0 }));
    assert(c1.x * c1.x == 1_000_000_000_000) by (nonlinear_arith)
        requires
            c1.x == 1_000_000,
    ;
    assert(norm2(c1) == 1_000_000_000_000);
    lemma_isqrt_unique(1_000_000_000_000, 1_000_000);
    lemma_fundamental_div_mod_converse(1_000_000_000, 1_000_000, 1000, 0);
    lemma_fundamental_div_mod_converse(0, 1_000_000, 0, 0);
    let r = right_of(270_000_000, 0, w);
    assert(r == (V3i { x: 1000, y: 0, z: 0 }));
    let c2 = cross(r, f);
    assert(c2 == (V3i { x: 0, y: 1_000_000, z: 0 }));
    assert(up_of(270_000_000, 0, w) == (V3i { x: 0, y: 1000, z: 0 }));
}

/// The three derived basis vectors never leave the unit scale.
pub proof fn lemma_basis_in_bounds(yaw: int, pitch: int, world_up: V3i)
    ensures
        in_bounds(front_of(yaw, pitch), 1000),
        in_bounds(right_of(yaw, pitch, world_up), 1000),
        in_bounds(up_of(yaw, pitch, world_up), 1000),
{
    lemma_normalize_in_bounds(front_raw_of(yaw, pitch));
    lemma_normalize_in_bounds(cross(front_of(yaw, pitch), world_up));
    lemma_normalize_in_bounds(cross(right_of(yaw, pitch, world_up), front_of(yaw, pitch)));
}

impl Camera {
    /// A camera at `position` with `up` as the world up reference, facing
    /// along `yaw` and `pitch`, with the default speed, sensitivity and
    /// zoom. The basis is computed before the camera is handed out.
    pub fn new(position: Vec3, up: Vec3, yaw: i64, pitch: i64) -> (c: Camera)
        requires
            in_bounds(position@, COORD_LIMIT as int),
            in_bounds(up@, 100_000),
        ensures
            c@ == camera_new(position@, up@, yaw as int, pitch as int),
            c@.wf(),
    {
        let mut cam = Camera {
            position: position,
            front: Vec3 { x: 0, y: 0, z: 0 },
            up: up,
            right: Vec3 { x: 0, y: 0, z: 0 },
            world_up: up,
            yaw: reduce_angle(yaw),
            pitch: reduce_half_angle(pitch),
            movement_speed: SPEED,
            mouse_sensitivity: SENSITIVITY,
            zoom: ZOOM,
        };
        cam.update_camera_vectors();
        cam
    }

    /// Recomputes `front` from yaw and pitch by spherical-to-Cartesian
    /// conversion, then `right` and `up` as rescaled cross products.
    pub fn update_camera_vectors(&mut self)
        requires
            in_bounds(old(self)@.world_up, 100_000),
        ensures
            final(self)@ == reconciled(old(self)@),
    {
        let (sy, cy) = sin_cos_milli(self.yaw);
        let (sp, cp) = sin_cos_milli(self.pitch);
        proof {
            assert(-1_000_000 <= (cy as int) * (cp as int) <= 1_000_000 && -1_000_000 <= (
            sy as int) * (cp as int) <= 1_000_000) by (nonlinear_arith)
                requires
                    -1000 <= cy as int <= 1000,
                    -1000 <= sy as int <= 1000,
                    -1000 <= cp as int <= 1000,
            ;
            lemma_div_trunc_mag((cy as int) * (cp as int), 1000, 1_000_000);
            lemma_div_trunc_mag((sy as int) * (cp as int), 1000, 1_000_000);
            lemma_div_by_multiple(1000, 1000);
        }
        let fx: i64 = div_trunc_i64(cy * cp, 1000);
        let fy: i64 = sp;
        let fz: i64 = div_trunc_i64(sy * cp, 1000);
        let raw = Vec3 { x: fx, y: fy, z: fz };
        let front = normalize_milli(&raw);
        self.front = front;
        let c1 = cross_milli(&front, &self.world_up);
        self.right = normalize_milli(&c1);
        let c2 = cross_milli(&self.right, &front);
        self.up = normalize_milli(&c2);
    }

    /// The look-at transform from the current position toward
    /// `position + front`; the camera itself is left untouched.
    pub fn get_view_matrix(&mut self) -> (m: Mat4)
        requires
            old(self)@.wf(),
        ensures
            *final(self) == *old(self),
            m@ == view_matrix_of(old(self)@),
    {
        proof {
            lemma_basis_in_bounds(self@.yaw, self@.pitch, self@.world_up);
            assert(-3_000_000_000_000_000_000 <= self@.right.x * self@.position.x + self@.right.y
                * self@.position.y + self@.right.z * self@.position.z
                <= 3_000_000_000_000_000_000) by (nonlinear_arith)
                requires
                    -1000 <= self@.right.x <= 1000,
                    -1000 <= self@.right.y <= 1000,
                    -1000 <= self@.right.z <= 1000,
                    -1_000_000_000_000_000 <= self@.position.x <= 1_000_000_000_000_000,
                    -1_000_000_000_000_000 <= self@.position.y <= 1_000_000_000_000_000,
                    -1_000_000_000_000_000 <= self@.position.z <= 1_000_000_000_000_000,
            ;
            assert(-3_000_000_000_000_000_000 <= self@.up.x * self@.position.x + self@.up.y
                * self@.position.y + self@.up.z * self@.position.z <= 3_000_000_000_000_000_000)
                by (nonlinear_arith)
                requires
                    -1000 <= self@.up.x <= 1000,
                    -1000 <= self@.up.y <= 1000,
                    -1000 <= self@.up.z <= 1000,
                    -1_000_000_000_000_000 <= self@.position.x <= 1_000_000_000_000_000,
                    -1_000_000_000_000_000 <= self@.position.y <= 1_000_000_000_000_000,
                    -1_000_000_000_000_000 <= self@.position.z <= 1_000_000_000_000_000,
            ;
            assert(-3_000_000_000_000_000_000 <= self@.front.x * self@.position.x + self@.front.y
                * self@.position.y + self@.front.z * self@.position.z
                <= 3_000_000_000_000_000_000) by (nonlinear_arith)
                requires
                    -1000 <= self@.front.x <= 1000,
                    -1000 <= self@.front.y <= 1000,
                    -1000 <= self@.front.z <= 1000,
                    -1_000_000_000_000_000 <= self@.position.x <= 1_000_000_000_000_000,
                    -1_000_000_000_000_000 <= self@.position.y <= 1_000_000_000_000_000,
                    -1_000_000_000_000_000 <= self@.position.z <= 1_000_000_000_000_000,
            ;
        }
        let tr: i64 = dot_milli(&self.right, &self.position);
        let tu: i64 = dot_milli(&self.up, &self.position);
        let tf: i64 = dot_milli(&self.front, &self.position);
        Mat4 {
            m00: self.right.x,
            m01: self.right.y,
            m02: self.right.z,
            m03: -div_trunc_i64(tr, 1000),
            m10: self.up.x,
            m11: self.up.y,
            m12: self.up.z,
            m13: -div_trunc_i64(tu, 1000),
            m20: -self.front.x,
            m21: -self.front.y,
            m22: -self.front.z,
            m23: div_trunc_i64(tf, 1000),
            m30: 0,
            m31: 0,
            m32: 0,
            m33: 1000,
        }
    }

    /// Displaces the position along the basis by speed times frame time,
    /// then recomputes the basis.
    pub fn process_keyboard(&mut self, direction: CameraMovement, delta_time: i64)
        requires
            old(self)@.wf(),
            0 <= delta_time <= DELTA_LIMIT,
            in_bounds(old(self)@.position, MOVE_LIMIT as int),
        ensures
            final(self)@ == keyboard_moved(old(self)@, direction, delta_time as int),
            final(self)@.wf(),
    {
        proof {
            lemma_basis_in_bounds(self@.yaw, self@.pitch, self@.world_up);
            assert(0 <= (self@.movement_speed) * (delta_time as int) <= 1_000_000_000_000_000)
                by (nonlinear_arith)
                requires
                    0 <= self@.movement_speed <= 1_000_000,
                    0 <= delta_time as int <= 1_000_000_000,
            ;
        }
        let velocity: i64 = self.movement_speed * delta_time;
        proof {
            let v = velocity as int;
            assert(forall|b: int| -1000 <= b <= 1000 ==> -1_000_000_000_000_000_000 <= #[trigger] (
            b * v) <= 1_000_000_000_000_000_000) by (nonlinear_arith)
                requires
                    0 <= v <= 1_000_000_000_000_000,
            ;
            lemma_div_trunc_mag(self@.front.x * v, 1_000_000, 1_000_000_000_000_000_000);
            lemma_div_trunc_mag(self@.front.y * v, 1_000_000, 1_000_000_000_000_000_000);
            lemma_div_trunc_mag(self@.front.z * v, 1_000_000, 1_000_000_000_000_000_000);
            lemma_div_trunc_mag(self@.right.x * v, 1_000_000, 1_000_000_000_000_000_000);
            lemma_div_trunc_mag(self@.right.y * v, 1_000_000, 1_000_000_000_000_000_000);
            lemma_div_trunc_mag(self@.right.z * v, 1_000_000, 1_000_000_000_000_000_000);
            lemma_div_by_multiple(1_000_000_000_000, 1_000_000);
        }
        match direction {
            CameraMovement::FORWARD => {
                self.position = Vec3 {
                    x: self.position.x + div_trunc_i64(self.front.x * velocity, 1_000_000),
                    y: self.position.y + div_trunc_i64(self.front.y * velocity, 1_000_000),
                    z: self.position.z + div_trunc_i64(self.front.z * velocity, 1_000_000),
                };
            },
            CameraMovement::BACKWARD => {
                self.position = Vec3 {
                    x: self.position.x - div_trunc_i64(self.front.x * velocity, 1_000_000),
                    y: self.position.y - div_trunc_i64(self.front.y * velocity, 1_000_000),
                    z: self.position.z - div_trunc_i64(self.front.z * velocity, 1_000_000),
                };
            },
            CameraMovement::LEFT => {
                self.position = Vec3 {
                    x: self.position.x - div_trunc_i64(self.right.x * velocity, 1_000_000),
                    y: self.position.y - div_trunc_i64(self.right.y * velocity, 1_000_000),
                    z: self.position.z - div_trunc_i64(self.right.z * velocity, 1_000_000),
                };
            },
            CameraMovement::RIGHT => {
                self.position = Vec3 {
                    x: self.position.x + div_trunc_i64(self.right.x * velocity, 1_000_000),
                    y: self.position.y + div_trunc_i64(self.right.y * velocity, 1_000_000),
                    z: self.position.z + div_trunc_i64(self.right.z * velocity, 1_000_000),
                };
            },
        }
        self.update_camera_vectors();
    }

    /// Adds the sensitivity-scaled offsets to yaw and pitch; when asked
    /// to, clamps the pitch away from the poles; recomputes the basis.
    pub fn process_mouse_movement(&mut self, x_offset: i64, y_offset: i64, constrain_pitch: bool)
        requires
            old(self)@.wf(),
            -OFFSET_LIMIT as int <= x_offset <= OFFSET_LIMIT as int,
            -OFFSET_LIMIT as int <= y_offset <= OFFSET_LIMIT as int,
        ensures
            final(self)@ == mouse_moved(
                old(self)@,
                x_offset as int,
                y_offset as int,
                constrain_pitch,
            ),
            final(self)@.wf(),
            constrain_pitch ==> -PITCH_LIMIT as int <= final(self)@.pitch <= PITCH_LIMIT as int,
    {
        proof {
            assert(-100_000_000_000_000_000 <= (x_offset as int) * (self@.mouse_sensitivity)
                <= 100_000_000_000_000_000 && -100_000_000_000_000_000 <= (y_offset as int) * (
            self@.mouse_sensitivity) <= 100_000_000_000_000_000) by (nonlinear_arith)
                requires
                    -100_000_000_000 <= x_offset as int <= 100_000_000_000,
                    -100_000_000_000 <= y_offset as int <= 100_000_000_000,
                    0 <= self@.mouse_sensitivity <= 1_000_000,
            ;
        }
        let local_x_offset: i64 = x_offset * self.mouse_sensitivity;
        let local_y_offset: i64 = y_offset * self.mouse_sensitivity;
        self.yaw = reduce_angle(self.yaw + local_x_offset);
        let p1: i64 = self.pitch + local_y_offset;
        if constrain_pitch {
            if p1 > PITCH_LIMIT {
                self.pitch = PITCH_LIMIT;
            } else if p1 < -PITCH_LIMIT {
                self.pitch = -PITCH_LIMIT;
            } else {
                self.pitch = p1;
            }
        } else {
            self.pitch = reduce_half_angle(p1);
        }
        self.update_camera_vectors();
    }

    /// Subtracts the scroll offset from the zoom and clamps the result
    /// to `[1°, 45°]`; nothing else changes.
    pub fn process_mouse_scroll(&mut self, y_offset: i64)
        requires
            old(self)@.wf(),
        ensures
            final(self)@ == scrolled(old(self)@, y_offset as int),
            final(self)@.wf(),
            ZOOM_MIN as int <= final(self)@.zoom <= ZOOM_MAX as int,
    {
        if y_offset >= self.zoom - ZOOM_MIN {
            self.zoom = ZOOM_MIN;
        } else if y_offset <= self.zoom - ZOOM_MAX {
            self.zoom = ZOOM_MAX;
        } else {
            self.zoom = self.zoom - y_offset;
        }
    }
}

} // verus!
