//! Player movement: decoding key-binding actions into move directions,
//! facing the aim target, and recomputing velocity each tick.

use vstd::prelude::*;
use vstd::string::StringSliceAdditionalSpecFns;
use crate::math::{Vector2, div_toward_zero, isqrt_u128, spec_div_toward_zero, spec_isqrt};

verus! {

/// The move direction relative to facing.
#[derive(Clone, Copy, PartialEq, Eq, Structural, Debug)]
pub enum MoveDirection {
    Forward,
    Backward,
    StrafeLeft,
    StrafeRight,
}

/// Compares two byte slices for element-wise equality.
fn bytes_eq(a: &[u8], b: &[u8]) -> (r: bool)
    ensures
        r == (a@ == b@),
{
    if a.len() != b.len() {
        assert(a@ != b@);
        return false;
    }
    let mut i: usize = 0;
    while i < a.len()
        invariant
            i <= a@.len(),
            a@.len() == b@.len(),
            forall|j: int| 0 <= j < i ==> a@[j] == b@[j],
        decreases a@.len() - i,
    {
        let x: u8 = *vstd::slice::slice_index_get(a, i);
        let y: u8 = *vstd::slice::slice_index_get(b, i);
        if x != y {
            assert(a@ != b@);
            return false;
        }
        i += 1;
    }
    proof {
        assert(a@ =~= b@);
    }
    true
}

/// Compares two string slices by their characters.
fn str_eq(a: &str, b: &str) -> (r: bool)
    ensures
        r == (a@ == b@),
{
    let r = bytes_eq(a.as_bytes(), b.as_bytes());
    proof {
        broadcast use vstd::utf8::encode_utf8_decode_utf8;

        if a.spec_bytes() == b.spec_bytes() {
            assert(vstd::utf8::decode_utf8(vstd::utf8::encode_utf8(a@)) == a@);
            assert(vstd::utf8::decode_utf8(vstd::utf8::encode_utf8(b@)) == b@);
        }
    }
    r
}

/// What `from_action` returns for a key-binding name.
pub open spec fn spec_from_action(key: Seq<char>) -> Option<MoveDirection> {
    if key == "forward"@ {
        Some(MoveDirection::Forward)
    } else if key == "backward"@ {
        Some(MoveDirection::Backward)
    } else if key == "strafe_left"@ {
        Some(MoveDirection::StrafeLeft)
    } else if key == "strafe_right"@ {
        Some(MoveDirection::StrafeRight)
    } else {
        None
    }
}

impl MoveDirection {
    /// Decodes the name of a pressed key-binding action into the move
    /// direction it commands, or `None` for any other name.
    pub fn from_action(key: &str) -> (r: Option<MoveDirection>)
        ensures
            r == spec_from_action(key@),
    {
        if str_eq(key, "forward") {
            Some(MoveDirection::Forward)
        } else if str_eq(key, "backward") {
            Some(MoveDirection::Backward)
        } else if str_eq(key, "strafe_left") {
            Some(MoveDirection::StrafeLeft)
        } else if str_eq(key, "strafe_right") {
            Some(MoveDirection::StrafeRight)
        } else {
            None
        }
    }
}

/// Recomputes facing and velocity for every player entity each tick;
/// its step function lives in the systems module.
pub struct PlayerMovementSystem;

/// Greatest coordinate magnitude the world admits, in fixed position units.
pub const WORLD_BOUND: i64 = 1_000_000_000;

/// Maximum walk speed, in fixed velocity units per tick: 64 world speed
/// units times the fixed-point scale of 12.
pub const PLAYER_MAX_WALK_SPEED: i64 = 768;

/// Half the maximum walk speed, the magnitude of every direction but forward.
pub const PLAYER_HALF_WALK_SPEED: i64 = 384;

/// The direction an entity faces: the exact aim offset
/// `(aim_x - pos_x, pos_y - aim_y)`, never the zero vector.
///
/// The facing angle of the turning rule — the angle between the fixed
/// reference vector pointing up and this offset, reflected into
/// `[0, 2*pi)` when `dx` is negative — is fully determined by this pair;
/// the presentation layer converts it to radians.
#[derive(Clone, Copy, PartialEq, Eq, Structural, Debug)]
pub struct Facing {
    pub dx: i64,
    pub dy: i64,
}

/// A facing is well formed when it is a non-zero vector of bounded
/// magnitude (the difference of two in-world coordinates).
pub open spec fn facing_wf(f: Facing) -> bool {
    &&& (f.dx != 0 || f.dy != 0)
    &&& -2 * WORLD_BOUND <= f.dx <= 2 * WORLD_BOUND
    &&& -2 * WORLD_BOUND <= f.dy <= 2 * WORLD_BOUND
}

/// Position and facing of an entity.
#[derive(Clone, Copy, PartialEq, Eq, Structural, Debug)]
pub struct Transform {
    pub position: Vector2,
    pub rotation: Facing,
}

pub open spec fn transform_wf(t: Transform) -> bool {
    &&& facing_wf(t.rotation)
    &&& -WORLD_BOUND <= t.position.x <= WORLD_BOUND
    &&& -WORLD_BOUND <= t.position.y <= WORLD_BOUND
}

impl Transform {
    /// A transform at the given position, facing straight down (angle zero,
    /// as a fresh engine transform would).
    pub fn at_position(x: i64, y: i64) -> (r: Transform)
        requires
            -WORLD_BOUND <= x <= WORLD_BOUND,
            -WORLD_BOUND <= y <= WORLD_BOUND,
        ensures
            r.position.x == x && r.position.y == y,
            r.rotation == (Facing { dx: 0i64, dy: -1i64 }),
            transform_wf(r),
    {
        Transform { position: Vector2 { x, y }, rotation: Facing { dx: 0, dy: -1 } }
    }
}

/// What `rotate_toward_mouse` leaves as the rotation: the exact offset
/// from the position to the aim target, or the old rotation when the
/// target sits exactly on the position.
pub open spec fn spec_rotate_toward(t: Transform, mx: int, my: int) -> Transform {
    if mx == t.position.x && my == t.position.y {
        t
    } else {
        Transform {
            position: t.position,
            rotation: Facing {
                dx: (mx - t.position.x) as i64,
                dy: (t.position.y - my) as i64,
            },
        }
    }
}

/// Turns the entity toward the aim target: the new facing is the vector
/// from the current position to the target (with the vertical axis
/// flipped, as the screen's y axis points down). Aiming exactly at the
/// entity's own position leaves the facing unchanged.
pub fn rotate_toward_mouse(transform: &mut Transform, mouse_pos: (i64, i64))
    requires
        transform_wf(*old(transform)),
        -WORLD_BOUND <= mouse_pos.0 <= WORLD_BOUND,
        -WORLD_BOUND <= mouse_pos.1 <= WORLD_BOUND,
    ensures
        *final(transform) == spec_rotate_toward(
            *old(transform),
            mouse_pos.0 as int,
            mouse_pos.1 as int,
        ),
        transform_wf(*final(transform)),
{
    let (mouse_x, mouse_y) = mouse_pos;
    let dx: i64 = mouse_x - transform.position.x;
    let dy: i64 = transform.position.y - mouse_y;
    if dx != 0 || dy != 0 {
        transform.rotation = Facing { dx, dy };
    }
}

/// The facing angle in eighths of a full turn, where it is an exact
/// multiple: `Some(k)` means the angle is `k * pi / 4` in `[0, 2*pi)`,
/// measured as the turning rule measures it (down is zero, up is `pi`,
/// right is `pi / 2`, left is `3 * pi / 2`, that is `-pi / 2`). `None`
/// for any facing off the four axes and four diagonals.
pub open spec fn spec_angle_eighths(f: Facing) -> Option<u8> {
    if f.dx == 0 && f.dy > 0 {
        Some(4u8)
    } else if f.dx == 0 && f.dy < 0 {
        Some(0u8)
    } else if f.dy == 0 && f.dx > 0 {
        Some(2u8)
    } else if f.dy == 0 && f.dx < 0 {
        Some(6u8)
    } else if f.dx == f.dy && f.dx > 0 {
        Some(3u8)
    } else if f.dx == -f.dy && f.dx > 0 {
        Some(1u8)
    } else if f.dx == f.dy && f.dx < 0 {
        Some(7u8)
    } else if f.dx == -f.dy && f.dx < 0 {
        Some(5u8)
    } else {
        None
    }
}

/// The facing angle in eighths of a full turn where it is exact; see
/// `spec_angle_eighths` for the encoding.
pub fn angle_eighths(f: &Facing) -> (r: Option<u8>)
    requires
        facing_wf(*f),
    ensures
        r == spec_angle_eighths(*f),
{
    if f.dx == 0 && f.dy > 0 {
        Some(4)
    } else if f.dx == 0 && f.dy < 0 {
        Some(0)
    } else if f.dy == 0 && f.dx > 0 {
        Some(2)
    } else if f.dy == 0 && f.dx < 0 {
        Some(6)
    } else if f.dx == f.dy && f.dx > 0 {
        Some(3)
    } else if f.dx == 0 - f.dy && f.dx > 0 {
        Some(1)
    } else if f.dx == f.dy && f.dx < 0 {
        Some(7)
    } else if f.dx == 0 - f.dy && f.dx < 0 {
        Some(5)
    } else {
        None
    }
}

/// Aiming straight up, down, right or left from any position faces the
/// entity at angle `pi`, `0`, `pi / 2` or `-pi / 2` respectively (given
/// here in eighths of a turn: 4, 0, 2 and 6, where 6 eighths equals
/// `3 * pi / 2`, that is `-pi / 2`).
pub proof fn lemma_cardinal_facing_angles(t: Transform, mx: int, my: int)
    requires
        transform_wf(t),
        -WORLD_BOUND <= mx <= WORLD_BOUND,
        -WORLD_BOUND <= my <= WORLD_BOUND,
    ensures
        mx == t.position.x && my < t.position.y ==> spec_angle_eighths(
            spec_rotate_toward(t, mx, my).rotation,
        ) == Some(4u8),
        mx == t.position.x && my > t.position.y ==> spec_angle_eighths(
            spec_rotate_toward(t, mx, my).rotation,
        ) == Some(0u8),
        mx > t.position.x && my == t.position.y ==> spec_angle_eighths(
            spec_rotate_toward(t, mx, my).rotation,
        ) == Some(2u8),
        mx < t.position.x && my == t.position.y ==> spec_angle_eighths(
            spec_rotate_toward(t, mx, my).rotation,
        ) == Some(6u8),
{
}

/// The local-space vector a move direction commands: forward at full
/// walk speed, every other direction at half of it.
pub open spec fn spec_as_vector2(dir: MoveDirection) -> Vector2 {
    match dir {
        MoveDirection::Forward => Vector2 { x: 0, y: (-PLAYER_MAX_WALK_SPEED) as i64 },
        MoveDirection::Backward => Vector2 { x: 0, y: PLAYER_HALF_WALK_SPEED },
        MoveDirection::StrafeLeft => Vector2 { x: PLAYER_HALF_WALK_SPEED, y: 0 },
        MoveDirection::StrafeRight => Vector2 { x: (-PLAYER_HALF_WALK_SPEED) as i64, y: 0 },
    }
}

/// Gives the corresponding local-space vector to the given
/// `MoveDirection` element. For `Forward` the length of the returned
/// vector is the max walk speed, and the half of that in any other case.
pub fn as_vector2(move_dir: MoveDirection) -> (r: Vector2)
    ensures
        r == spec_as_vector2(move_dir),
{
    match move_dir {
        MoveDirection::Forward => Vector2 { x: 0, y: -PLAYER_MAX_WALK_SPEED },
        MoveDirection::Backward => Vector2 { x: 0, y: PLAYER_HALF_WALK_SPEED },
        MoveDirection::StrafeLeft => Vector2 { x: PLAYER_HALF_WALK_SPEED, y: 0 },
        MoveDirection::StrafeRight => Vector2 { x: -PLAYER_HALF_WALK_SPEED, y: 0 },
    }
}

/// Sum of the horizontal components of a sequence of vectors.
pub open spec fn spec_sum_x(s: Seq<Vector2>) -> int
    decreases s.len(),
{
    if s.len() == 0 {
        0
    } else {
        spec_sum_x(s.drop_last()) + s.last().x
    }
}

/// Sum of the vertical components of a sequence of vectors.
pub open spec fn spec_sum_y(s: Seq<Vector2>) -> int
    decreases s.len(),
{
    if s.len() == 0 {
        0
    } else {
        spec_sum_y(s.drop_last()) + s.last().y
    }
}

/// The component-wise average of the given vectors, each quotient
/// rounded toward zero.
pub fn vector_avg(velocities: &Vec<Vector2>) -> (r: Vector2)
    requires
        1 <= velocities@.len() <= 8,
        forall|k: int| 0 <= k < velocities@.len() ==>
            -1_000_000 <= (#[trigger] velocities@[k]).x <= 1_000_000
            && -1_000_000 <= velocities@[k].y <= 1_000_000,
    ensures
        r.x == spec_div_toward_zero(spec_sum_x(velocities@), velocities@.len() as int),
        r.y == spec_div_toward_zero(spec_sum_y(velocities@), velocities@.len() as int),
        -1_000_000 <= r.x <= 1_000_000,
        -1_000_000 <= r.y <= 1_000_000,
{
    let mut x: i64 = 0;
    let mut y: i64 = 0;
    let mut i: usize = 0;
    while i < velocities.len()
        invariant
            0 <= i <= velocities@.len() <= 8,
            forall|k: int| 0 <= k < velocities@.len() ==>
                -1_000_000 <= (#[trigger] velocities@[k]).x <= 1_000_000
                && -1_000_000 <= velocities@[k].y <= 1_000_000,
            x == spec_sum_x(velocities@.take(i as int)),
            y == spec_sum_y(velocities@.take(i as int)),
            -1_000_000 * i <= x <= 1_000_000 * i,
            -1_000_000 * i <= y <= 1_000_000 * i,
        decreases velocities@.len() - i,
    {
        let v = velocities[i];
        proof {
            assert(velocities@.take(i + 1).drop_last() =~= velocities@.take(i as int));
            assert(velocities@.take(i + 1).last() == velocities@[i as int]);
        }
        x = x + v.x;
        y = y + v.y;
        i += 1;
    }
    proof {
        assert(velocities@.take(velocities@.len() as int) =~= velocities@);
    }
    let len: u64 = velocities.len() as u64;
    proof {
        assert(x >= 0 ==> x as int / len as int <= 1_000_000) by (nonlinear_arith)
            requires x <= 1_000_000 * len && len >= 1;
        assert(x < 0 ==> (-x) as int / len as int <= 1_000_000) by (nonlinear_arith)
            requires -x <= 1_000_000 * len && len >= 1;
        assert(y >= 0 ==> y as int / len as int <= 1_000_000) by (nonlinear_arith)
            requires y <= 1_000_000 * len && len >= 1;
        assert(y < 0 ==> (-y) as int / len as int <= 1_000_000) by (nonlinear_arith)
            requires -y <= 1_000_000 * len && len >= 1;
    }
    Vector2 { x: div_toward_zero(x, len), y: div_toward_zero(y, len) }
}

/// The squared length of a facing vector.
pub open spec fn facing_norm_sq(f: Facing) -> int {
    f.dx * f.dx + f.dy * f.dy
}

/// The numerators of the rotation of `v` by the facing `f`: the rotated
/// vector is this pair divided by the length of `f`.
pub open spec fn spec_rotate_num(v: Vector2, f: Facing) -> (int, int) {
    (-(v.x * f.dy) - v.y * f.dx, v.x * f.dx - v.y * f.dy)
}

/// Sub-unit precision of the rotation divisor.
pub const ROTATION_SCALE: i64 = 1024;

/// The rotation divisor: the length of the facing scaled by
/// `ROTATION_SCALE`, rounded up. Rounding the divisor up rather than
/// down means a rotation can only ever shorten a vector, never
/// lengthen it, so the walk speed limit survives the rotation.
pub open spec fn spec_rotate_divisor(f: Facing) -> int {
    let wide = facing_norm_sq(f) * ROTATION_SCALE * ROTATION_SCALE;
    let d0 = spec_isqrt(wide);
    if d0 * d0 == wide {
        d0
    } else {
        d0 + 1
    }
}

/// Rotation of the local vector `v` into world space by the facing
/// `f`: the rotation numerators, scaled by `ROTATION_SCALE`, divided
/// by the scaled length of `f` rounded up, each component rounded
/// toward zero.
pub open spec fn spec_rotate_by_facing(v: Vector2, f: Facing) -> Vector2 {
    Vector2 {
        x: spec_div_toward_zero(
            spec_rotate_num(v, f).0 * ROTATION_SCALE,
            spec_rotate_divisor(f),
        ) as i64,
        y: spec_div_toward_zero(
            spec_rotate_num(v, f).1 * ROTATION_SCALE,
            spec_rotate_divisor(f),
        ) as i64,
    }
}

/// Rotates a bounded local-space vector into world space by the
/// facing. A rotation never lengthens a vector: the squared length of
/// the result is at most the squared length of the input, so a speed
/// limit on the local vector carries into world space.
/// A plane rotation preserves the squared length: the rotation
/// numerators of `(a, b)` by `(c, d)` have the squared norm of
/// `(a, b)` scaled by the squared norm of `(c, d)`.
proof fn lemma_rotation_preserves_norm_sq(a: int, b: int, c: int, d: int)
    ensures
        (-(a * d) - b * c) * (-(a * d) - b * c) + (a * c - b * d) * (a * c - b * d) == (a * a + b
            * b) * (c * c + d * d),
{
    let p = -(a * d) - b * c;
    let q = a * c - b * d;
    assert(p * p == a * d * (a * d) + 2 * (a * d * (b * c)) + b * c * (b * c)) by (nonlinear_arith)
        requires p == -(a * d) - b * c;
    assert(q * q == a * c * (a * c) - 2 * (a * c * (b * d)) + b * d * (b * d)) by (nonlinear_arith)
        requires q == a * c - b * d;
    assert(a * d * (b * c) == a * c * (b * d)) by (nonlinear_arith);
    assert(a * d * (a * d) == a * a * (d * d)) by (nonlinear_arith);
    assert(b * c * (b * c) == b * b * (c * c)) by (nonlinear_arith);
    assert(a * c * (a * c) == a * a * (c * c)) by (nonlinear_arith);
    assert(b * d * (b * d) == b * b * (d * d)) by (nonlinear_arith);
    assert((a * a + b * b) * (c * c + d * d) == a * a * (c * c) + a * a * (d * d) + b * b * (c
        * c) + b * b * (d * d)) by (nonlinear_arith);
}

pub fn rotate_by_facing(v: Vector2, f: Facing) -> (r: Vector2)
    requires
        facing_wf(f),
        -1_000_000 <= v.x <= 1_000_000,
        -1_000_000 <= v.y <= 1_000_000,
    ensures
        r == spec_rotate_by_facing(v, f),
        r.x * r.x + r.y * r.y <= v.x * v.x + v.y * v.y,
        -2_000_000 <= r.x <= 2_000_000,
        -2_000_000 <= r.y <= 2_000_000,
{
    proof {
        assert(f.dx * f.dx >= 0 && f.dy * f.dy >= 0) by (nonlinear_arith);
        assert(f.dx != 0 ==> f.dx * f.dx >= 1) by (nonlinear_arith);
        assert(f.dy != 0 ==> f.dy * f.dy >= 1) by (nonlinear_arith);
        assert(f.dx * f.dx <= 4_000_000_000_000_000_000
            && f.dy * f.dy <= 4_000_000_000_000_000_000) by (nonlinear_arith)
            requires
                -2_000_000_000 <= f.dx <= 2_000_000_000,
                -2_000_000_000 <= f.dy <= 2_000_000_000;
        assert(-2_000_000_000_000_000 <= v.x * f.dy <= 2_000_000_000_000_000
            && -2_000_000_000_000_000 <= v.y * f.dx <= 2_000_000_000_000_000
            && -2_000_000_000_000_000 <= v.x * f.dx <= 2_000_000_000_000_000
            && -2_000_000_000_000_000 <= v.y * f.dy <= 2_000_000_000_000_000) by (nonlinear_arith)
            requires
                -1_000_000 <= v.x <= 1_000_000,
                -1_000_000 <= v.y <= 1_000_000,
                -2_000_000_000 <= f.dx <= 2_000_000_000,
                -2_000_000_000 <= f.dy <= 2_000_000_000;
    }
    let norm_sq: i64 = f.dx * f.dx + f.dy * f.dy;
    let wide: u128 = (norm_sq as u128) * 1_048_576;
    proof {
        assert(1_048_576 == ROTATION_SCALE * ROTATION_SCALE);
        assert(wide == facing_norm_sq(f) * ROTATION_SCALE * ROTATION_SCALE);
        assert(wide >= 1_048_576 && wide as int <= 0x7000_0000_0000_0000 * 1_048_576) by (nonlinear_arith)
            requires
                wide == (norm_sq as int) * 1_048_576,
                1 <= norm_sq <= 0x7000_0000_0000_0000;
    }
    let d0: u128 = isqrt_u128(wide);
    proof {
        assert(d0 <= 3_000_000_000_000) by (nonlinear_arith)
            requires
                d0 as int * d0 as int <= wide as int,
                wide as int <= 0x7000_0000_0000_0000 * 1_048_576,
                d0 >= 0;
        assert(d0 >= 1024) by (nonlinear_arith)
            requires
                (d0 as int + 1) * (d0 as int + 1) > wide as int,
                wide >= 1_048_576,
                d0 >= 0;
    }
    let d: u64 = if d0 * d0 == wide {
        d0 as u64
    } else {
        (d0 + 1) as u64
    };
    proof {
        assert(d == spec_rotate_divisor(f));
        assert(d as int * d as int >= wide as int) by (nonlinear_arith)
            requires
                d as int == (if d0 as int * d0 as int == wide as int {
                    d0 as int
                } else {
                    d0 as int + 1
                }),
                d0 as int * d0 as int <= wide as int,
                (d0 as int + 1) * (d0 as int + 1) > wide as int,
                d0 >= 0;
    }
    let num_x: i64 = -(v.x * f.dy) - v.y * f.dx;
    let num_y: i64 = v.x * f.dx - v.y * f.dy;
    let sx: i64 = num_x * 1024;
    let sy: i64 = num_y * 1024;
    let rx: i64 = div_toward_zero(sx, d);
    let ry: i64 = div_toward_zero(sy, d);
    proof {
        let adx: int = if f.dx >= 0 { f.dx as int } else { -(f.dx as int) };
        let ady: int = if f.dy >= 0 { f.dy as int } else { -(f.dy as int) };
        let m: int = if adx >= ady { adx } else { ady };
        assert(m >= 1);
        assert(norm_sq >= m * m) by (nonlinear_arith)
            requires
                norm_sq == f.dx * f.dx + f.dy * f.dy,
                adx == (if f.dx >= 0 { f.dx as int } else { -(f.dx as int) }),
                ady == (if f.dy >= 0 { f.dy as int } else { -(f.dy as int) }),
                m == (if adx >= ady { adx } else { ady });
        assert(d as int >= 1024 * m) by (nonlinear_arith)
            requires
                d as int * d as int >= wide as int,
                wide as int == norm_sq as int * 1_048_576,
                norm_sq >= m * m,
                d as int >= 0,
                m >= 0;
        assert(-2_000_000 * m <= num_x <= 2_000_000 * m
            && -2_000_000 * m <= num_y <= 2_000_000 * m) by (nonlinear_arith)
            requires
                num_x == -(v.x * f.dy) - v.y * f.dx,
                num_y == v.x * f.dx - v.y * f.dy,
                -1_000_000 <= v.x <= 1_000_000,
                -1_000_000 <= v.y <= 1_000_000,
                adx == (if f.dx >= 0 { f.dx as int } else { -(f.dx as int) }),
                ady == (if f.dy >= 0 { f.dy as int } else { -(f.dy as int) }),
                m == (if adx >= ady { adx } else { ady });
        assert(-2_000_000 * (d as int) <= sx <= 2_000_000 * (d as int)
            && -2_000_000 * (d as int) <= sy <= 2_000_000 * (d as int)) by (nonlinear_arith)
            requires
                sx == num_x * 1024,
                sy == num_y * 1024,
                -2_000_000 * m <= num_x <= 2_000_000 * m,
                -2_000_000 * m <= num_y <= 2_000_000 * m,
                d as int >= 1024 * m,
                m >= 1;
        let asx: int = if sx >= 0 { sx as int } else { -(sx as int) };
        let asy: int = if sy >= 0 { sy as int } else { -(sy as int) };
        let qx: int = asx / (d as int);
        let qy: int = asy / (d as int);
        assert(rx == (if sx >= 0 { qx } else { -qx }));
        assert(ry == (if sy >= 0 { qy } else { -qy }));
        assert(qx <= 2_000_000) by (nonlinear_arith)
            requires qx == asx / (d as int) && 0 <= asx <= 2_000_000 * (d as int) && d >= 1;
        assert(qy <= 2_000_000) by (nonlinear_arith)
            requires qy == asy / (d as int) && 0 <= asy <= 2_000_000 * (d as int) && d >= 1;
        assert(qx * (d as int) <= asx && qx >= 0) by (nonlinear_arith)
            requires asx >= 0 && d >= 1 && qx == asx / (d as int);
        assert(qy * (d as int) <= asy && qy >= 0) by (nonlinear_arith)
            requires asy >= 0 && d >= 1 && qy == asy / (d as int);
        let dd: int = (d as int) * (d as int);
        assert(qx * qx * dd <= asx * asx) by (nonlinear_arith)
            requires dd == (d as int) * (d as int) && qx * (d as int) <= asx && qx >= 0 && d >= 1;
        assert(qy * qy * dd <= asy * asy) by (nonlinear_arith)
            requires dd == (d as int) * (d as int) && qy * (d as int) <= asy && qy >= 0 && d >= 1;
        assert(asx * asx == sx * sx) by (nonlinear_arith)
            requires asx == (if sx >= 0 { sx as int } else { -(sx as int) });
        assert(asy * asy == sy * sy) by (nonlinear_arith)
            requires asy == (if sy >= 0 { sy as int } else { -(sy as int) });
        assert(rx * rx == qx * qx) by (nonlinear_arith)
            requires rx == (if sx >= 0 { qx } else { -qx });
        assert(ry * ry == qy * qy) by (nonlinear_arith)
            requires ry == (if sy >= 0 { qy } else { -qy });
        assert(sx * sx + sy * sy == 1_048_576 * (num_x * num_x + num_y * num_y)) by (nonlinear_arith)
            requires sx == num_x * 1024 && sy == num_y * 1024;
        lemma_rotation_preserves_norm_sq(v.x as int, v.y as int, f.dx as int, f.dy as int);
        assert(num_x * num_x + num_y * num_y == (v.x * v.x + v.y * v.y) * (norm_sq as int));
        let vv: int = v.x * v.x + v.y * v.y;
        assert(vv >= 0) by (nonlinear_arith)
            requires vv == v.x * v.x + v.y * v.y;
        assert(1_048_576 * (num_x * num_x + num_y * num_y) == vv * (wide as int)) by (nonlinear_arith)
            requires
                num_x * num_x + num_y * num_y == vv * (norm_sq as int),
                wide as int == norm_sq as int * 1_048_576;
        assert(vv * (wide as int) <= vv * dd) by (nonlinear_arith)
            requires vv >= 0 && wide as int <= dd;
        assert((rx * rx + ry * ry) * dd <= vv * dd) by (nonlinear_arith)
            requires
                rx * rx == qx * qx,
                ry * ry == qy * qy,
                qx * qx * dd <= asx * asx,
                qy * qy * dd <= asy * asy,
                asx * asx == sx * sx,
                asy * asy == sy * sy,
                sx * sx + sy * sy == vv * (wide as int),
                vv * (wide as int) <= vv * dd;
        assert(rx * rx + ry * ry >= 0) by (nonlinear_arith);
        assert(rx * rx + ry * ry <= vv) by (nonlinear_arith)
            requires
                rx * rx + ry * ry >= 0,
                (rx * rx + ry * ry) * dd <= vv * dd,
                dd >= 1;
    }
    Vector2 { x: rx, y: ry }
}

/// The local-space velocity never exceeds the maximum walk speed: a
/// single held direction moves at most at full walk speed, and the
/// average of two or more held directions is strictly shorter. Stated
/// on squared lengths, which are exact in integers.
pub proof fn lemma_local_velocity_bounded(i: InputState)
    ensures
        spec_local_velocity(i).norm_sq() <= PLAYER_MAX_WALK_SPEED * PLAYER_MAX_WALK_SPEED,
{
    let s = spec_active_vectors(i);
    let s0 = Seq::<Vector2>::empty();
    let s1 = if i.forward { s0.push(spec_as_vector2(MoveDirection::Forward)) } else { s0 };
    let s2 = if i.backward { s1.push(spec_as_vector2(MoveDirection::Backward)) } else { s1 };
    let s3 = if i.strafe_left { s2.push(spec_as_vector2(MoveDirection::StrafeLeft)) } else { s2 };
    assert(spec_sum_x(s0) == 0 && spec_sum_y(s0) == 0);
    if i.forward {
        assert(s1.drop_last() =~= s0);
        assert(spec_sum_x(s1) == 0 && spec_sum_y(s1) == -768);
    }
    if i.backward {
        assert(s2.drop_last() =~= s1);
        assert(spec_sum_x(s2) == spec_sum_x(s1) && spec_sum_y(s2) == spec_sum_y(s1) + 384);
    }
    if i.strafe_left {
        assert(s3.drop_last() =~= s2);
        assert(spec_sum_x(s3) == spec_sum_x(s2) + 384 && spec_sum_y(s3) == spec_sum_y(s2));
    }
    if i.strafe_right {
        assert(s.drop_last() =~= s3);
        assert(spec_sum_x(s) == spec_sum_x(s3) - 384 && spec_sum_y(s) == spec_sum_y(s3));
    }
    assert(-384 <= spec_sum_x(s) <= 384);
    assert(-768 <= spec_sum_y(s) <= 768);
    if s.len() == 0 {
        assert(spec_local_velocity(i).norm_sq() == 0);
    } else if s.len() == 1 {
        lemma_local_speed_is_average_magnitude(i);
        assert(0 <= spec_sum_magnitudes(i) <= 768);
        assert(spec_sum_magnitudes(i) * spec_sum_magnitudes(i) <= 768 * 768) by (nonlinear_arith)
            requires 0 <= spec_sum_magnitudes(i) <= 768;
    } else {
        let n = s.len() as int;
        let sx = spec_sum_x(s);
        let sy = spec_sum_y(s);
        let qx = spec_div_toward_zero(sx, n);
        let qy = spec_div_toward_zero(sy, n);
        if sx >= 0 {
            assert(0 <= sx / n <= 192) by (nonlinear_arith)
                requires 0 <= sx <= 384 && n >= 2;
        } else {
            assert(0 <= (-sx) / n <= 192) by (nonlinear_arith)
                requires 0 <= -sx <= 384 && n >= 2;
        }
        if sy >= 0 {
            assert(0 <= sy / n <= 384) by (nonlinear_arith)
                requires 0 <= sy <= 768 && n >= 2;
        } else {
            assert(0 <= (-sy) / n <= 384) by (nonlinear_arith)
                requires 0 <= -sy <= 768 && n >= 2;
        }
        assert(-192 <= qx <= 192 && -384 <= qy <= 384);
        assert(qx * qx + qy * qy <= 768 * 768) by (nonlinear_arith)
            requires -192 <= qx <= 192 && -384 <= qy <= 384;
        assert(spec_local_velocity(i).norm_sq() == qx * qx + qy * qy);
    }
}

/// The decoded, per-tick desired action of a controlled entity:
/// which movement directions are held, where it aims, and whether it
/// wants to fire or reload. Overwritten each tick by the command
/// transformer on the server, or by local input capture on the client.
#[derive(Clone, Copy, PartialEq, Eq, Structural, Debug)]
pub struct InputState {
    pub forward: bool,
    pub backward: bool,
    pub strafe_left: bool,
    pub strafe_right: bool,
    /// Aim target in fixed position units.
    pub aim: Vector2,
    pub fire: bool,
    pub reload: bool,
    /// Sequence number of the last applied command; commands numbered
    /// below it are stale and discarded.
    pub last_seq: u64,
}

impl InputState {
    /// The idle intention: nothing held, aiming at the origin.
    pub fn neutral() -> (r: InputState)
        ensures
            r == spec_neutral_input(),
            input_wf(r),
    {
        InputState {
            forward: false,
            backward: false,
            strafe_left: false,
            strafe_right: false,
            aim: Vector2 { x: 0, y: 0 },
            fire: false,
            reload: false,
            last_seq: 0,
        }
    }
}

/// An input intention is well formed when its aim target lies in the
/// world; the command transformer drops commands that do not.
pub open spec fn input_wf(i: InputState) -> bool {
    &&& -WORLD_BOUND <= i.aim.x <= WORLD_BOUND
    &&& -WORLD_BOUND <= i.aim.y <= WORLD_BOUND
}

pub open spec fn spec_neutral_input() -> InputState {
    InputState {
        forward: false,
        backward: false,
        strafe_left: false,
        strafe_right: false,
        aim: Vector2 { x: 0, y: 0 },
        fire: false,
        reload: false,
        last_seq: 0,
    }
}

/// World-space velocity of an entity in fixed velocity units per tick,
/// recomputed every tick from the input intention and facing.
#[derive(Clone, Copy, PartialEq, Eq, Structural, Debug)]
pub struct Velocity(pub Vector2);

impl Default for Velocity {
    /// The resting velocity: the zero vector.
    fn default() -> (r: Velocity)
        ensures
            r == (Velocity(Vector2 { x: 0i64, y: 0i64 })),
    {
        Velocity(Vector2 { x: 0, y: 0 })
    }
}

/// The local-space vectors of the movement directions held in the
/// input, in the fixed order forward, backward, strafe left, strafe
/// right.
pub open spec fn spec_active_vectors(i: InputState) -> Seq<Vector2> {
    let s0 = Seq::<Vector2>::empty();
    let s1 = if i.forward { s0.push(spec_as_vector2(MoveDirection::Forward)) } else { s0 };
    let s2 = if i.backward { s1.push(spec_as_vector2(MoveDirection::Backward)) } else { s1 };
    let s3 = if i.strafe_left { s2.push(spec_as_vector2(MoveDirection::StrafeLeft)) } else { s2 };
    if i.strafe_right { s3.push(spec_as_vector2(MoveDirection::StrafeRight)) } else { s3 }
}

/// How many movement directions the input holds down.
pub open spec fn spec_active_count(i: InputState) -> int {
    spec_active_vectors(i).len() as int
}

/// The local-space velocity: the component-wise average of the vectors
/// of all held directions, or zero when none is held.
pub open spec fn spec_local_velocity(i: InputState) -> Vector2 {
    let s = spec_active_vectors(i);
    if s.len() == 0 {
        Vector2 { x: 0, y: 0 }
    } else {
        Vector2 {
            x: spec_div_toward_zero(spec_sum_x(s), s.len() as int) as i64,
            y: spec_div_toward_zero(spec_sum_y(s), s.len() as int) as i64,
        }
    }
}

/// The world-space velocity: the local-space velocity rotated by the
/// facing, or zero when no direction is held.
pub open spec fn spec_world_velocity(i: InputState, f: Facing) -> Velocity {
    if spec_active_count(i) == 0 {
        Velocity(Vector2 { x: 0, y: 0 })
    } else {
        Velocity(spec_rotate_by_facing(spec_local_velocity(i), f))
    }
}

/// Recomputes the velocity from the current intention and facing:
/// averages the local-space vectors of all held movement directions and
/// rotates the average into world space; with no direction held the
/// velocity is exactly zero.
pub fn update_velocity(transform: &Transform, input: &InputState, velocity: &mut Velocity)
    requires
        transform_wf(*transform),
    ensures
        *final(velocity) == spec_world_velocity(*input, transform.rotation),
        -2_000_000 <= final(velocity).0.x <= 2_000_000,
        -2_000_000 <= final(velocity).0.y <= 2_000_000,
        final(velocity).0.x * final(velocity).0.x + final(velocity).0.y * final(velocity).0.y
            <= PLAYER_MAX_WALK_SPEED * PLAYER_MAX_WALK_SPEED,
{
    let mut velocities: Vec<Vector2> = Vec::new();
    if input.forward {
        velocities.push(as_vector2(MoveDirection::Forward));
    }
    if input.backward {
        velocities.push(as_vector2(MoveDirection::Backward));
    }
    if input.strafe_left {
        velocities.push(as_vector2(MoveDirection::StrafeLeft));
    }
    if input.strafe_right {
        velocities.push(as_vector2(MoveDirection::StrafeRight));
    }
    proof {
        assert(velocities@ =~= spec_active_vectors(*input));
    }
    if velocities.len() == 0 {
        *velocity = Velocity::default();
    } else {
        proof {
            assert(forall|k: int| 0 <= k < velocities@.len() ==>
                -1_000_000 <= (#[trigger] velocities@[k]).x <= 1_000_000
                && -1_000_000 <= velocities@[k].y <= 1_000_000);
        }
        let avg = vector_avg(&velocities);
        proof {
            lemma_local_velocity_bounded(*input);
            assert(avg == spec_local_velocity(*input));
        }
        *velocity = Velocity(rotate_by_facing(avg, transform.rotation));
    }
}

/// The speed a single move direction commands.
pub open spec fn spec_dir_magnitude(d: MoveDirection) -> int {
    match d {
        MoveDirection::Forward => PLAYER_MAX_WALK_SPEED as int,
        _ => PLAYER_HALF_WALK_SPEED as int,
    }
}

/// Sum of the speeds of all held movement directions.
pub open spec fn spec_sum_magnitudes(i: InputState) -> int {
    (if i.forward { spec_dir_magnitude(MoveDirection::Forward) } else { 0 })
        + (if i.backward { spec_dir_magnitude(MoveDirection::Backward) } else { 0 })
        + (if i.strafe_left { spec_dir_magnitude(MoveDirection::StrafeLeft) } else { 0 })
        + (if i.strafe_right { spec_dir_magnitude(MoveDirection::StrafeRight) } else { 0 })
}

/// With no movement direction held the local-space velocity is exactly
/// zero, and with exactly one held its length equals the average of the
/// magnitudes in play — that direction's own speed. Stated on squared
/// lengths, which are exact in integers. With two or more directions
/// held the averaged vector is shorter than the average of the
/// magnitudes, so the claim is confined to these inputs.
pub proof fn lemma_local_speed_is_average_magnitude(i: InputState)
    requires
        spec_active_count(i) <= 1,
    ensures
        spec_active_count(i) == 0 ==> spec_local_velocity(i) == (Vector2 { x: 0i64, y: 0i64 }),
        spec_active_count(i) == 1 ==> spec_local_velocity(i).norm_sq()
            == spec_sum_magnitudes(i) * spec_sum_magnitudes(i),
{
    let s = spec_active_vectors(i);
    assert(spec_sum_x(Seq::<Vector2>::empty()) == 0);
    assert(spec_sum_y(Seq::<Vector2>::empty()) == 0);
    if i.forward {
        assert(s =~= Seq::<Vector2>::empty().push(spec_as_vector2(MoveDirection::Forward)));
        assert(s.drop_last() =~= Seq::<Vector2>::empty());
        assert(spec_sum_x(s) == 0 && spec_sum_y(s) == -768);
        assert(spec_div_toward_zero(0, 1) == 0 && spec_div_toward_zero(-768, 1) == -768);
        assert(spec_local_velocity(i) == (Vector2 { x: 0i64, y: -768i64 }));
        assert(spec_local_velocity(i).norm_sq() == 768 * 768);
    } else if i.backward {
        assert(s =~= Seq::<Vector2>::empty().push(spec_as_vector2(MoveDirection::Backward)));
        assert(s.drop_last() =~= Seq::<Vector2>::empty());
        assert(spec_sum_x(s) == 0 && spec_sum_y(s) == 384);
        assert(spec_div_toward_zero(0, 1) == 0 && spec_div_toward_zero(384, 1) == 384);
        assert(spec_local_velocity(i) == (Vector2 { x: 0i64, y: 384i64 }));
        assert(spec_local_velocity(i).norm_sq() == 384 * 384);
    } else if i.strafe_left {
        assert(s =~= Seq::<Vector2>::empty().push(spec_as_vector2(MoveDirection::StrafeLeft)));
        assert(s.drop_last() =~= Seq::<Vector2>::empty());
        assert(spec_sum_x(s) == 384 && spec_sum_y(s) == 0);
        assert(spec_div_toward_zero(0, 1) == 0 && spec_div_toward_zero(384, 1) == 384);
        assert(spec_local_velocity(i) == (Vector2 { x: 384i64, y: 0i64 }));
        assert(spec_local_velocity(i).norm_sq() == 384 * 384);
    } else if i.strafe_right {
        assert(s =~= Seq::<Vector2>::empty().push(spec_as_vector2(MoveDirection::StrafeRight)));
        assert(s.drop_last() =~= Seq::<Vector2>::empty());
        assert(spec_sum_x(s) == -384 && spec_sum_y(s) == 0);
        assert(spec_div_toward_zero(0, 1) == 0 && spec_div_toward_zero(-384, 1) == -384);
        assert(spec_local_velocity(i) == (Vector2 { x: -384i64, y: 0i64 }));
        assert(spec_local_velocity(i).norm_sq() == 384 * 384);
    } else {
        assert(s =~= Seq::<Vector2>::empty());
    }
}

} // verus!
