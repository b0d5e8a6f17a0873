//! First-person camera navigation.
//!
//! The camera is a small state machine: an uninitialized-cursor state and a
//! tracking state, joined by a one-way transition on the first look-around
//! call.  Yaw and pitch are fixed-point degrees; the orientation vectors are
//! always the normalized spherical frame of the current angles.  Pitch
//! saturates at +-89 degrees and the field of view at [1, 45]: those clamps
//! are part of the contract, never an error.

use vstd::prelude::*;

use crate::fixed::SCALE;
use crate::fixed::abs_i;
use crate::fixed::mul_fx;
use crate::math::COMP_LIMIT;
use crate::math::Mat4;
use crate::math::Vec3;
use crate::math::comps_within;
use crate::math::cross_of;
use crate::math::lemma_norm_of_within;
use crate::math::look_dir;
use crate::math::look_right;
use crate::math::look_up_vec;
use crate::math::mul_fx_spec;
use crate::math::norm_of;
use crate::math::vadd;
use crate::math::vscale;
use crate::math::vsub;
use crate::math::dot_fx;
use crate::trig::cos_deg;
use crate::trig::cos_fx;
use crate::trig::sin_deg;
use crate::trig::sin_fx;

verus! {

/// Movement speed: ten units per second, fixed at construction.
pub const SPEED: i64 = 10_000_000;

/// Mouse sensitivity: a tenth of a degree per cursor unit.
pub const SENS: i64 = 100_000;

/// Largest pitch magnitude, in fixed-point degrees.
pub const PITCH_LIMIT: i64 = 89_000_000;

/// Field-of-view clamp bounds, in fixed-point degrees.
pub const FOV_MIN: i64 = 1_000_000;

pub const FOV_MAX: i64 = 45_000_000;

/// Largest position component the camera may reach.
pub const POS_LIMIT: i64 = 700_000_000;

/// Position bound under which one more movement step cannot overflow.
pub const POS_SAFE: i64 = 600_000_000;

/// Yaw accumulates without wrap-around; these keep it far from overflow.
pub const YAW_LIMIT: i64 = 1_000_000_000_000_000;

pub const YAW_SAFE: i64 = 999_000_000_000_000;

/// Largest cursor coordinate magnitude accepted, in fixed-point units.
pub const CURSOR_LIMIT: i64 = 1_000_000_000_000;

/// Movement directions delivered by the input layer.
#[derive(Clone, Copy, Debug, PartialEq, Eq, Structural)]
pub enum Move {
    Forward,
    Backward,
    Left,
    Right,
}

/// The unnormalized spherical direction of a yaw/pitch pair.
pub open spec fn spherical(yaw: int, pitch: int) -> Vec3 {
    Vec3 {
        x: mul_fx_spec(cos_deg(yaw), cos_deg(pitch)) as i64,
        y: sin_deg(pitch) as i64,
        z: mul_fx_spec(sin_deg(yaw), cos_deg(pitch)) as i64,
    }
}

/// The front vector determined by yaw and pitch.
pub open spec fn front_of(yaw: int, pitch: int) -> Vec3 {
    norm_of(spherical(yaw, pitch))
}

/// The right vector: front crossed with world up, normalized.
pub open spec fn right_of(yaw: int, pitch: int, world_up: Vec3) -> Vec3 {
    norm_of(cross_of(front_of(yaw, pitch), world_up))
}

/// The up vector: right crossed with front, normalized.
pub open spec fn up_of(yaw: int, pitch: int, world_up: Vec3) -> Vec3 {
    norm_of(cross_of(right_of(yaw, pitch, world_up), front_of(yaw, pitch)))
}

/// Pitch saturated into [-89, 89] degrees.
pub open spec fn clamp_pitch(p: int) -> int {
    if p > PITCH_LIMIT {
        PITCH_LIMIT as int
    } else if p < -PITCH_LIMIT {
        -PITCH_LIMIT as int
    } else {
        p
    }
}

/// Field of view saturated into [1, 45] degrees.
pub open spec fn clamp_fov(f: int) -> int {
    if f < FOV_MIN {
        FOV_MIN as int
    } else if f > FOV_MAX {
        FOV_MAX as int
    } else {
        f
    }
}

/// The velocity of one movement step.
pub open spec fn step_velocity(speed: int, delta: int) -> int {
    mul_fx_spec(speed, delta)
}

pub struct Camera {
    pub position: Vec3,
    pub camera_front: Vec3,
    pub camera_up: Vec3,
    pub camera_right: Vec3,
    pub world_up: Vec3,
    pub yaw: i64,
    pub pitch: i64,
    pub movement_speed: i64,
    pub sens: i64,
    pub fov: i64,
    pub first_mouse_movement: bool,
    pub last_x: i64,
    pub last_y: i64,
}

impl Camera {
    /// The camera invariant: clamped pitch and field of view, bounded
    /// position and angles, fixed options, and orientation vectors that are
    /// exactly the frame of the current yaw and pitch.
    pub open spec fn wf(self) -> bool {
        &&& -PITCH_LIMIT <= self.pitch <= PITCH_LIMIT
        &&& FOV_MIN <= self.fov <= FOV_MAX
        &&& abs_i(self.yaw as int) <= YAW_LIMIT
        &&& self.movement_speed == SPEED
        &&& self.sens == SENS
        &&& comps_within(self.position, POS_LIMIT as int)
        &&& self.world_up == (Vec3 { x: 0, y: SCALE, z: 0 })
        &&& self.camera_front == front_of(self.yaw as int, self.pitch as int)
        &&& self.camera_right == right_of(self.yaw as int, self.pitch as int, self.world_up)
        &&& self.camera_up == up_of(self.yaw as int, self.pitch as int, self.world_up)
        &&& abs_i(self.last_x as int) <= CURSOR_LIMIT
        &&& abs_i(self.last_y as int) <= CURSOR_LIMIT
    }

    /// A camera at the origin, looking down the negative z axis, with the
    /// cursor still untracked.
    pub fn new() -> (c: Camera)
        ensures
            c.wf(),
            c.position == (Vec3 { x: 0, y: 0, z: 0 }),
            c.yaw == -90 * SCALE,
            c.pitch == 0,
            c.fov == FOV_MAX,
            c.first_mouse_movement,
            c.last_x == 400 * SCALE,
            c.last_y == 300 * SCALE,
    {
        let mut camera = Camera {
            position: Vec3::new(0, 0, 0),
            camera_front: Vec3::new(0, 0, -SCALE),
            camera_up: Vec3::new(0, 0, 0),
            camera_right: Vec3::new(0, 0, 0),
            world_up: Vec3::new(0, SCALE, 0),
            yaw: -90 * SCALE,
            pitch: 0,
            movement_speed: SPEED,
            sens: SENS,
            fov: FOV_MAX,
            first_mouse_movement: true,
            last_x: 400 * SCALE,
            last_y: 300 * SCALE,
        };
        camera.update_camera_vectors();
        camera
    }

    /// The view matrix of the current pose: a look-at transform from the
    /// position toward the point one front vector ahead.
    #[allow(non_snake_case)]
    pub fn GetViewMatrix(&self) -> (m: Mat4)
        requires
            self.wf(),
        ensures
            m.mat@.len() == 16,
            m.mat@[0] == self.view_right().x,
            m.mat@[4] == self.view_right().y,
            m.mat@[8] == self.view_right().z,
            m.mat@[1] == self.view_up().x,
            m.mat@[5] == self.view_up().y,
            m.mat@[9] == self.view_up().z,
            m.mat@[2] == self.view_dir().x,
            m.mat@[6] == self.view_dir().y,
            m.mat@[10] == self.view_dir().z,
            m.mat@[12] == -dot_fx(self.view_right(), self.position),
            m.mat@[13] == -dot_fx(self.view_up(), self.position),
            m.mat@[14] == -dot_fx(self.view_dir(), self.position),
            m.mat@[3] == 0 && m.mat@[7] == 0 && m.mat@[11] == 0,
            m.mat@[15] == SCALE,
    {
        proof {
            lemma_spherical_within(self.yaw as int, self.pitch as int);
            lemma_norm_of_within(spherical(self.yaw as int, self.pitch as int));
            lemma_frame_within(self.yaw as int, self.pitch as int, self.world_up);
        }
        let mut m = Mat4::new(SCALE);
        let target = self.position.add(&self.camera_front);
        m.look_at(&self.position, &target, &self.camera_up);
        m
    }

    /// The axes of the view matrix this pose produces.
    pub open spec fn view_dir(self) -> Vec3 {
        look_dir(self.position, vadd(self.position, self.camera_front))
    }

    pub open spec fn view_right(self) -> Vec3 {
        look_right(self.position, vadd(self.position, self.camera_front), self.camera_up)
    }

    pub open spec fn view_up(self) -> Vec3 {
        look_up_vec(self.position, vadd(self.position, self.camera_front), self.camera_up)
    }

    /// Move along the front vector or the right vector, scaled by the
    /// movement speed and the frame time.  The speed itself never changes.
    pub fn translate(&mut self, camera_move: Move, delta_time: i64)
        requires
            old(self).wf(),
            0 <= delta_time <= 10 * SCALE,
            comps_within(old(self).position, POS_SAFE as int),
        ensures
            final(self).wf(),
            camera_move == Move::Forward ==> final(self).position == vadd(
                old(self).position,
                vscale(old(self).camera_front, step_velocity(SPEED as int, delta_time as int)),
            ),
            camera_move == Move::Backward ==> final(self).position == vsub(
                old(self).position,
                vscale(old(self).camera_front, step_velocity(SPEED as int, delta_time as int)),
            ),
            camera_move == Move::Left ==> final(self).position == vsub(
                old(self).position,
                vscale(old(self).camera_right, step_velocity(SPEED as int, delta_time as int)),
            ),
            camera_move == Move::Right ==> final(self).position == vadd(
                old(self).position,
                vscale(old(self).camera_right, step_velocity(SPEED as int, delta_time as int)),
            ),
            final(self).movement_speed == old(self).movement_speed,
            final(self).camera_front == old(self).camera_front,
            final(self).camera_right == old(self).camera_right,
            final(self).camera_up == old(self).camera_up,
            final(self).yaw == old(self).yaw && final(self).pitch == old(self).pitch,
            final(self).fov == old(self).fov,
            final(self).first_mouse_movement == old(self).first_mouse_movement,
            final(self).last_x == old(self).last_x && final(self).last_y == old(self).last_y,
    {
        proof {
            lemma_spherical_within(self.yaw as int, self.pitch as int);
            lemma_norm_of_within(spherical(self.yaw as int, self.pitch as int));
            lemma_frame_within(self.yaw as int, self.pitch as int, self.world_up);
        }
        proof {
            assert(abs_i(self.movement_speed as int) * abs_i(delta_time as int)
                <= 100_000_000_000_000int) by (nonlinear_arith)
                requires
                    abs_i(self.movement_speed as int) == 10_000_000,
                    0 <= abs_i(delta_time as int) <= 10_000_000,
            ;
        }
        let velocity = mul_fx(self.movement_speed, delta_time);
        proof {
            lemma_scaled_below(velocity as int, 100_000_000int);
            lemma_step_products_fit(old(self).camera_front, velocity as int);
            lemma_step_products_fit(old(self).camera_right, velocity as int);
        }
        match camera_move {
            Move::Forward => {
                let step = Vec3::mul(&self.camera_front, velocity);
                proof {
                    lemma_step_comps_small(old(self).camera_front, velocity as int, step);
                }
                self.position = self.position.add(&step);
            },
            Move::Backward => {
                let step = Vec3::mul(&self.camera_front, velocity);
                proof {
                    lemma_step_comps_small(old(self).camera_front, velocity as int, step);
                }
                self.position = self.position.sub(&step);
            },
            Move::Left => {
                let step = Vec3::mul(&self.camera_right, velocity);
                proof {
                    lemma_step_comps_small(old(self).camera_right, velocity as int, step);
                }
                self.position = self.position.sub(&step);
            },
            Move::Right => {
                let step = Vec3::mul(&self.camera_right, velocity);
                proof {
                    lemma_step_comps_small(old(self).camera_right, velocity as int, step);
                }
                self.position = self.position.add(&step);
            },
        }
    }

    /// Consume a cursor sample.  The first call only seeds the cursor
    /// tracking and leaves yaw and pitch untouched; later calls accumulate
    /// the sensitivity-scaled offsets and clamp the pitch.
    pub fn look_around(&mut self, x: i64, y: i64)
        requires
            old(self).wf(),
            abs_i(x as int) <= CURSOR_LIMIT,
            abs_i(y as int) <= CURSOR_LIMIT,
            abs_i(old(self).yaw as int) <= YAW_SAFE,
        ensures
            final(self).wf(),
            old(self).first_mouse_movement ==> final(self).yaw == old(self).yaw
                && final(self).pitch == old(self).pitch && final(self).camera_front == old(self).camera_front && final(self).camera_right == old(self).camera_right && final(self).camera_up == old(self).camera_up,
            !old(self).first_mouse_movement ==> final(self).yaw == old(self).yaw + mul_fx_spec(
                SENS as int,
                old(self).last_x - x,
            ) && final(self).pitch == clamp_pitch(
                old(self).pitch + mul_fx_spec(SENS as int, y - old(self).last_y),
            ),
            !final(self).first_mouse_movement,
            final(self).last_x == x && final(self).last_y == y,
            final(self).position == old(self).position,
            final(self).fov == old(self).fov,
            final(self).movement_speed == old(self).movement_speed,
            final(self).sens == old(self).sens,
    {
        if self.first_mouse_movement {
            self.last_x = x;
            self.last_y = y;
            self.first_mouse_movement = false;
        }
        let ghost used_x = self.last_x as int;
        let ghost used_y = self.last_y as int;
        proof {
            lemma_offset_product_fits(used_x, x as int);
            lemma_offset_product_fits(used_y, y as int);
        }
        let xoffset = mul_fx(self.sens, self.last_x - x);
        let yoffset = mul_fx(self.sens, y - self.last_y);

        self.last_x = x;
        self.last_y = y;

        proof {
            lemma_offset_within(used_x, x as int, xoffset as int);
            lemma_offset_within(used_y, y as int, yoffset as int);
            if old(self).first_mouse_movement {
                crate::fixed::lemma_mul_fx_zero(SENS as int, used_x - x as int);
                crate::fixed::lemma_mul_fx_zero(SENS as int, y as int - used_y);
                assert(xoffset == 0 && yoffset == 0);
            }
        }
        self.yaw = self.yaw + xoffset;
        self.pitch = self.pitch + yoffset;

        if self.pitch > PITCH_LIMIT {
            self.pitch = PITCH_LIMIT;
        }
        if self.pitch < -PITCH_LIMIT {
            self.pitch = -PITCH_LIMIT;
        }

        self.update_camera_vectors();
    }

    /// Narrow or widen the field of view by a scroll delta, saturating at
    /// the [1, 45] degree bounds.
    pub fn zoom(&mut self, yoffset: i64)
        requires
            old(self).wf(),
            abs_i(yoffset as int) <= 1_000_000_000,
        ensures
            final(self).wf(),
            final(self).fov == clamp_fov(old(self).fov - yoffset),
            *final(self) == (Camera { fov: final(self).fov, ..*old(self) }),
    {
        if self.fov >= FOV_MIN && self.fov <= FOV_MAX {
            self.fov = self.fov - yoffset;
        }
        if self.fov <= FOV_MIN {
            self.fov = FOV_MIN;
        }
        if self.fov >= FOV_MAX {
            self.fov = FOV_MAX;
        }
    }

    /// Recompute the orientation frame from the current yaw and pitch.
    fn update_camera_vectors(&mut self)
        requires
            comps_within(old(self).world_up, SCALE as int),
        ensures
            final(self).camera_front == front_of(old(self).yaw as int, old(self).pitch as int),
            final(self).camera_right == right_of(
                old(self).yaw as int,
                old(self).pitch as int,
                old(self).world_up,
            ),
            final(self).camera_up == up_of(
                old(self).yaw as int,
                old(self).pitch as int,
                old(self).world_up,
            ),
            *final(self) == (Camera {
                camera_front: final(self).camera_front,
                camera_right: final(self).camera_right,
                camera_up: final(self).camera_up,
                ..*old(self)
            }),
    {
        let cy = cos_fx(self.yaw);
        let sy = sin_fx(self.yaw);
        let cp = cos_fx(self.pitch);
        let sp = sin_fx(self.pitch);
        proof {
            lemma_trig_product_fits(cy as int, cp as int);
            lemma_trig_product_fits(sy as int, cp as int);
        }
        let front = Vec3 { x: mul_fx(cy, cp), y: sp, z: mul_fx(sy, cp) };
        proof {
            lemma_spherical_within(old(self).yaw as int, old(self).pitch as int);
            assert(front == spherical(old(self).yaw as int, old(self).pitch as int));
        }
        self.camera_front = front.normalize();
        proof {
            crate::math::lemma_cross_comps_small(
                self.camera_front,
                self.world_up,
                SCALE as int,
                SCALE as int,
                SCALE as int,
            );
        }
        let right_raw = Vec3::cross(&self.camera_front, &self.world_up);
        self.camera_right = right_raw.normalize();
        proof {
            crate::math::lemma_cross_comps_small(
                self.camera_right,
                self.camera_front,
                SCALE as int,
                SCALE as int,
                SCALE as int,
            );
        }
        let up_raw = Vec3::cross(&self.camera_right, &self.camera_front);
        self.camera_up = up_raw.normalize();
    }
}

/// Law: in every well-formed camera state the front vector is unit length
/// up to rounding: its squared magnitude is within 48 rounding units of one
/// (`SCALE * SCALE`).  Together with the invariant this holds after every
/// sequence of camera operations.
pub proof fn lemma_front_unit(c: Camera)
    requires
        c.wf(),
    ensures
        SCALE * SCALE - 6 * SCALE <= crate::math::dot(c.camera_front, c.camera_front) <= SCALE
            * SCALE + 48 * SCALE,
{
    let sph = spherical(c.yaw as int, c.pitch as int);
    lemma_spherical_within(c.yaw as int, c.pitch as int);
    lemma_spherical_norm_floor(c.yaw as int, c.pitch as int);
    crate::math::lemma_norm_of_is_normalized(sph);
    crate::math::lemma_normalize_unit(sph, c.camera_front);
}

/// The spherical direction of any angle pair never drops below a sixteenth
/// of a unit in magnitude: either the pitch's sine is large, or its cosine
/// is and one of the yaw's two values is.
proof fn lemma_spherical_norm_floor(yaw: int, pitch: int)
    ensures
        crate::math::dot(spherical(yaw, pitch), spherical(yaw, pitch)) >= 3_906_250_000int,
{
    let s = SCALE as int;
    let v = spherical(yaw, pitch);
    lemma_spherical_within(yaw, pitch);
    crate::trig::lemma_trig_range(yaw);
    crate::trig::lemma_trig_range(pitch);
    crate::trig::lemma_trig_not_both_small(pitch);
    let sy = sin_deg(yaw);
    let cy = cos_deg(yaw);
    let sp = sin_deg(pitch);
    let cp = cos_deg(pitch);
    assert(v.x * v.x >= 0 && v.y * v.y >= 0 && v.z * v.z >= 0) by (nonlinear_arith);
    if abs_i(sp) >= 300_000 {
        assert(v.y * v.y >= 300_000 * 300_000) by (nonlinear_arith)
            requires
                abs_i(v.y as int) >= 300_000,
        ;
    } else {
        assert(abs_i(cp) >= 300_000);
        crate::trig::lemma_trig_not_both_small(yaw);
        if abs_i(sy) >= 300_000 {
            crate::fixed::lemma_abs_mul(sy, cp);
            assert(abs_i(sy * cp) >= 300_000 * 300_000) by (nonlinear_arith)
                requires
                    abs_i(sy * cp) == abs_i(sy) * abs_i(cp),
                    abs_i(sy) >= 300_000,
                    abs_i(cp) >= 300_000,
            ;
            crate::fixed::lemma_div_trunc_lower(sy * cp, s);
            crate::fixed::lemma_div_trunc_small(sy * cp, s);
            let t = crate::fixed::div_trunc(sy * cp, s);
            assert(abs_i(sy * cp) <= 4_000_000_000_000int) by (nonlinear_arith)
                requires
                    abs_i(sy * cp) == abs_i(sy) * abs_i(cp),
                    abs_i(sy) <= 2_000_000,
                    abs_i(cp) <= 2_000_000,
            ;
            assert(abs_i(t) <= 4_000_000) by (nonlinear_arith)
                requires
                    abs_i(t) * s <= 4_000_000_000_000int,
                    s == 1_000_000,
            ;
            assert(abs_i(t) >= 89_999) by (nonlinear_arith)
                requires
                    abs_i(t) * s >= 90_000_000_000int - (s - 1),
                    s == 1_000_000,
            ;
            assert(v.z * v.z >= 89_999 * 89_999) by (nonlinear_arith)
                requires
                    abs_i(v.z as int) >= 89_999,
            ;
        } else {
            assert(abs_i(cy) >= 300_000);
            crate::fixed::lemma_abs_mul(cy, cp);
            assert(abs_i(cy * cp) >= 300_000 * 300_000) by (nonlinear_arith)
                requires
                    abs_i(cy * cp) == abs_i(cy) * abs_i(cp),
                    abs_i(cy) >= 300_000,
                    abs_i(cp) >= 300_000,
            ;
            crate::fixed::lemma_div_trunc_lower(cy * cp, s);
            crate::fixed::lemma_div_trunc_small(cy * cp, s);
            let t = crate::fixed::div_trunc(cy * cp, s);
            assert(abs_i(cy * cp) <= 4_000_000_000_000int) by (nonlinear_arith)
                requires
                    abs_i(cy * cp) == abs_i(cy) * abs_i(cp),
                    abs_i(cy) <= 2_000_000,
                    abs_i(cp) <= 2_000_000,
            ;
            assert(abs_i(t) <= 4_000_000) by (nonlinear_arith)
                requires
                    abs_i(t) * s <= 4_000_000_000_000int,
                    s == 1_000_000,
            ;
            assert(abs_i(t) >= 89_999) by (nonlinear_arith)
                requires
                    abs_i(t) * s >= 90_000_000_000int - (s - 1),
                    s == 1_000_000,
            ;
            assert(v.x * v.x >= 89_999 * 89_999) by (nonlinear_arith)
                requires
                    abs_i(v.x as int) >= 89_999,
            ;
        }
    }
}

/// The spherical direction of any angle pair is bounded by a few units.
proof fn lemma_spherical_within(yaw: int, pitch: int)
    ensures
        comps_within(spherical(yaw, pitch), 4 * SCALE),
        comps_within(spherical(yaw, pitch), COMP_LIMIT as int),
{
    crate::trig::lemma_trig_range(yaw);
    crate::trig::lemma_trig_range(pitch);
    lemma_trig_product_fits(cos_deg(yaw), cos_deg(pitch));
    lemma_trig_product_fits(sin_deg(yaw), cos_deg(pitch));
    crate::fixed::lemma_div_trunc_small(cos_deg(yaw) * cos_deg(pitch), SCALE as int);
    crate::fixed::lemma_div_trunc_small(sin_deg(yaw) * cos_deg(pitch), SCALE as int);
    crate::fixed::lemma_abs_mul(cos_deg(yaw), cos_deg(pitch));
    crate::fixed::lemma_abs_mul(sin_deg(yaw), cos_deg(pitch));
    assert(abs_i(cos_deg(yaw)) * abs_i(cos_deg(pitch)) <= 4_000_000_000_000int)
        by (nonlinear_arith)
        requires
            0 <= abs_i(cos_deg(yaw)) <= 2_000_000,
            0 <= abs_i(cos_deg(pitch)) <= 2_000_000,
    ;
    assert(abs_i(sin_deg(yaw)) * abs_i(cos_deg(pitch)) <= 4_000_000_000_000int)
        by (nonlinear_arith)
        requires
            0 <= abs_i(sin_deg(yaw)) <= 2_000_000,
            0 <= abs_i(cos_deg(pitch)) <= 2_000_000,
    ;
}

/// The full orientation frame of any pose is bounded by one unit per
/// component.
proof fn lemma_frame_within(yaw: int, pitch: int, world_up: Vec3)
    requires
        comps_within(world_up, SCALE as int),
    ensures
        comps_within(front_of(yaw, pitch), SCALE as int),
        comps_within(right_of(yaw, pitch, world_up), SCALE as int),
        comps_within(up_of(yaw, pitch, world_up), SCALE as int),
{
    lemma_spherical_within(yaw, pitch);
    lemma_norm_of_within(spherical(yaw, pitch));
    crate::math::lemma_cross_comps_small(
        front_of(yaw, pitch),
        world_up,
        SCALE as int,
        SCALE as int,
        SCALE as int,
    );
    lemma_norm_of_within(cross_of(front_of(yaw, pitch), world_up));
    crate::math::lemma_cross_comps_small(
        right_of(yaw, pitch, world_up),
        front_of(yaw, pitch),
        SCALE as int,
        SCALE as int,
        SCALE as int,
    );
    lemma_norm_of_within(cross_of(right_of(yaw, pitch, world_up), front_of(yaw, pitch)));
}

/// A product of two trig values fits comfortably in `i64`.
proof fn lemma_trig_product_fits(a: int, b: int)
    requires
        abs_i(a) <= 2 * SCALE,
        abs_i(b) <= 2 * SCALE,
    ensures
        abs_i(a) * abs_i(b) <= i64::MAX,
{
    assert(abs_i(a) * abs_i(b) <= 4_000_000_000_000int) by (nonlinear_arith)
        requires
            0 <= abs_i(a) <= 2_000_000,
            0 <= abs_i(b) <= 2_000_000,
    ;
}

/// A sensitivity-scaled cursor offset fits in `i64` and stays small.
proof fn lemma_offset_product_fits(last: int, cur: int)
    requires
        abs_i(last) <= CURSOR_LIMIT,
        abs_i(cur) <= CURSOR_LIMIT,
    ensures
        abs_i(SENS as int) * abs_i(last - cur) <= i64::MAX,
        abs_i(SENS as int) * abs_i(cur - last) <= i64::MAX,
{
    assert(abs_i(SENS as int) * abs_i(last - cur) <= 200_000_000_000_000_000int)
        by (nonlinear_arith)
        requires
            abs_i(SENS as int) == 100_000,
            abs_i(last - cur) <= 2_000_000_000_000int,
    ;
    assert(abs_i(SENS as int) * abs_i(cur - last) <= 200_000_000_000_000_000int)
        by (nonlinear_arith)
        requires
            abs_i(SENS as int) == 100_000,
            abs_i(cur - last) <= 2_000_000_000_000int,
    ;
}

/// The scaled offset itself is within a fifth of a billionth turn.
proof fn lemma_offset_within(last: int, cur: int, off: int)
    requires
        abs_i(last) <= CURSOR_LIMIT,
        abs_i(cur) <= CURSOR_LIMIT,
        off == mul_fx_spec(SENS as int, last - cur) || off == mul_fx_spec(SENS as int, cur - last),
    ensures
        abs_i(off) <= 200_000_000_000int,
{
    let s = SCALE as int;
    crate::fixed::lemma_div_trunc_small(SENS as int * (last - cur), s);
    crate::fixed::lemma_div_trunc_small(SENS as int * (cur - last), s);
    crate::fixed::lemma_abs_mul(SENS as int, last - cur);
    crate::fixed::lemma_abs_mul(SENS as int, cur - last);
    assert(abs_i(SENS as int) * abs_i(last - cur) <= 200_000_000_000int * 1_000_000)
        by (nonlinear_arith)
        requires
            abs_i(SENS as int) == 100_000,
            abs_i(last - cur) <= 2_000_000_000_000int,
    ;
    assert(abs_i(SENS as int) * abs_i(cur - last) <= 200_000_000_000int * 1_000_000)
        by (nonlinear_arith)
        requires
            abs_i(SENS as int) == 100_000,
            abs_i(cur - last) <= 2_000_000_000_000int,
    ;
    lemma_scaled_below(off, 200_000_000_000int);
}

/// A fixed-point product whose factors' magnitudes multiply to at most
/// `bound * SCALE` is itself within `bound`.
proof fn lemma_scaled_below(r: int, bound: int)
    requires
        abs_i(r) * SCALE <= bound * 1_000_000,
        bound >= 0,
    ensures
        abs_i(r) <= bound,
{
    let s = SCALE as int;
    assert(abs_i(r) <= bound) by (nonlinear_arith)
        requires
            abs_i(r) * s <= bound * 1_000_000,
            s == 1_000_000,
            abs_i(r) >= 0,
            bound >= 0,
    ;
}

/// Each component of a movement step is at most one hundred units.
proof fn lemma_step_comps_small(v: Vec3, vel: int, step: Vec3)
    requires
        comps_within(v, SCALE as int),
        abs_i(vel) <= 100_000_000int,
        abs_i(step.x as int) * SCALE <= abs_i(v.x as int) * abs_i(vel),
        abs_i(step.y as int) * SCALE <= abs_i(v.y as int) * abs_i(vel),
        abs_i(step.z as int) * SCALE <= abs_i(v.z as int) * abs_i(vel),
    ensures
        comps_within(step, 100_000_000int),
{
    assert forall|p: int| 0 <= p <= SCALE as int implies #[trigger] (p * abs_i(vel))
        <= 100_000_000_000_000int by {
        assert(p * abs_i(vel) <= 100_000_000_000_000int) by (nonlinear_arith)
            requires
                0 <= p <= 1_000_000,
                0 <= abs_i(vel) <= 100_000_000,
        ;
    }
    lemma_scaled_below(step.x as int, 100_000_000int);
    lemma_scaled_below(step.y as int, 100_000_000int);
    lemma_scaled_below(step.z as int, 100_000_000int);
}

/// One movement step's products fit in `i64`.
proof fn lemma_step_products_fit(v: Vec3, velocity: int)
    requires
        comps_within(v, SCALE as int),
        abs_i(velocity) <= 100 * SCALE,
    ensures
        abs_i(v.x as int) * abs_i(velocity) <= i64::MAX,
        abs_i(v.y as int) * abs_i(velocity) <= i64::MAX,
        abs_i(v.z as int) * abs_i(velocity) <= i64::MAX,
{
    assert forall|p: int| 0 <= p <= SCALE as int implies #[trigger] (p * abs_i(velocity))
        <= 100_000_000_000_000int by {
        assert(p * abs_i(velocity) <= 100_000_000_000_000int) by (nonlinear_arith)
            requires
                0 <= p <= 1_000_000,
                0 <= abs_i(velocity) <= 100_000_000,
        ;
    }
}

} // verus!
