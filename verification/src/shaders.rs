//! The vertex stage: the model transform and the procedural surface colour.
//!
//! Each material blends the two base colours of the draw call by weights
//! that depend on the surface point. The blend is evaluated exactly and
//! stored once. Sines and hashed noise of the surface point are not computed
//! here: the caller samples them at the vertex and hands them in.

use vstd::prelude::*;
use crate::fixed::isqrt;
use crate::fixed::lemma_product_bound;
use crate::fixed::mix;
use crate::fixed::mixed;
use crate::fixed::sqrt_floor;
use crate::fixed::store;
use crate::fixed::stored;
use crate::fixed::ONE;
use crate::matrix::dot4;
use crate::matrix::dot4_stored;
use crate::matrix::Matrix;
use crate::vector::Vector3;
use crate::vector::Vector4;
use crate::vertex::Vertex;

verus! {

/// The procedural material evaluated for a surface point.
#[derive(Clone, Copy, Debug, PartialEq, Eq, Structural)]
pub enum ShaderKind {
    Star,
    Rocky,
    GasGiant,
    Cyber,
    Magma,
    Flat,
    Ring,
    Fallback,
}

impl ShaderKind {
    /// The material that an integer selector names.
    pub open spec fn of_tag(tag: u32) -> ShaderKind {
        if tag == 0 {
            ShaderKind::Star
        } else if tag == 1 {
            ShaderKind::Rocky
        } else if tag == 2 {
            ShaderKind::GasGiant
        } else if tag == 3 {
            ShaderKind::Cyber
        } else if tag == 4 {
            ShaderKind::Magma
        } else if tag == 5 {
            ShaderKind::Flat
        } else if tag == 6 {
            ShaderKind::Ring
        } else {
            ShaderKind::Fallback
        }
    }

    /// Decodes a selector; every unrecognised value is the fallback material.
    pub fn from_tag(tag: u32) -> (kind: ShaderKind)
        ensures
            kind == Self::of_tag(tag),
    {
        match tag {
            0 => ShaderKind::Star,
            1 => ShaderKind::Rocky,
            2 => ShaderKind::GasGiant,
            3 => ShaderKind::Cyber,
            4 => ShaderKind::Magma,
            5 => ShaderKind::Flat,
            6 => ShaderKind::Ring,
            _ => ShaderKind::Fallback,
        }
    }
}

/// The parameters of one draw call.
#[derive(Clone, Copy, Debug, PartialEq, Eq, Structural)]
pub struct Uniforms {
    pub model_matrix: Matrix,
    pub shader_type: u32,
    pub base_color1: Vector3,
    pub base_color2: Vector3,
    pub light_intensity: i32,
    pub ambient_strength: i32,
    pub emission_strength: i32,
}

/// What the caller samples at a vertex's model-space position `p`.
#[derive(Clone, Copy, Debug, PartialEq, Eq, Structural)]
pub struct SurfaceSamples {
    /// The hashed noise of `p`, in `[0, 1)`.
    pub noise: i32,
    /// The sine of ten times `p.y`.
    pub band: i32,
    /// The sines of fifteen times `p.x`, `p.y` and `p.z`.
    pub grid: Vector3,
}

/// The raw value of one, squared: the unit of a product of two fixed-point numbers.
pub const ONE_SQUARED: i64 = 0x1_0000_0000;

/// `value` limited to the interval from `lo` to `hi`.
pub open spec fn clamped(value: int, lo: int, hi: int) -> int {
    if value < lo {
        lo
    } else if value > hi {
        hi
    } else {
        value
    }
}

fn clamp(value: i128, lo: i128, hi: i128) -> (r: i128)
    requires
        lo <= hi,
    ensures
        r as int == clamped(value as int, lo as int, hi as int),
        lo <= r <= hi,
{
    if value < lo {
        lo
    } else if value > hi {
        hi
    } else {
        value
    }
}

/// Channel by channel, `c1 * w1 + c2 * w2` over `den`, stored.
pub open spec fn mixed_color(c1: Vector3, w1: int, c2: Vector3, w2: int, den: int) -> Vector3 {
    Vector3 {
        x: mixed(c1.x as int, w1, c2.x as int, w2, den) as i32,
        y: mixed(c1.y as int, w1, c2.y as int, w2, den) as i32,
        z: mixed(c1.z as int, w1, c2.z as int, w2, den) as i32,
    }
}

fn mix_color(c1: Vector3, w1: i128, c2: Vector3, w2: i128, den: i128) -> (out: Vector3)
    requires
        -0x1_0000_0000_0000 <= w1 <= 0x1_0000_0000_0000,
        -0x1_0000_0000_0000 <= w2 <= 0x1_0000_0000_0000,
        0 < den <= 0x1_0000_0000_0000,
    ensures
        out == mixed_color(c1, w1 as int, c2, w2 as int, den as int),
{
    Vector3 {
        x: mix(c1.x, w1, c2.x, w2, den),
        y: mix(c1.y, w1, c2.y, w2, den),
        z: mix(c1.z, w1, c2.z, w2, den),
    }
}

/// The squared distance of a point from the origin, in units of `ONE_SQUARED`.
pub open spec fn squared_length(p: Vector3) -> int {
    p.x * p.x + p.y * p.y + p.z * p.z
}

/// The glow of a star at `pos`: `1.5 - |pos|^2` limited to `[0, 1]`, in
/// units of `ONE_SQUARED`.
pub open spec fn star_glow(pos: Vector3) -> int {
    clamped(3 * ONE_SQUARED / 2 - squared_length(pos), 0, ONE_SQUARED as int)
}

/// Star: `core * (0.85 + 0.15 * glow) + outer * 0.1`.
pub open spec fn star_color(pos: Vector3, core: Vector3, outer: Vector3) -> Vector3 {
    mixed_color(
        core,
        85 * ONE_SQUARED + 15 * star_glow(pos),
        outer,
        10 * ONE_SQUARED,
        100 * ONE_SQUARED,
    )
}

/// Rocky: `base * (0.8 + 0.2 * h) + dark * (0.4 * h)` for the noise `h`.
pub open spec fn rocky_color(noise: i32, base: Vector3, dark: Vector3) -> Vector3 {
    mixed_color(base, 8 * ONE + 2 * noise, dark, 4 * noise, 10 * ONE)
}

/// Gas giant: `c1 * bands + c2 * (1 - bands)` with `bands = 0.5 * s + 0.5`
/// for the sine `s`.
pub open spec fn gas_giant_color(band: i32, c1: Vector3, c2: Vector3) -> Vector3 {
    mixed_color(c1, ONE + band, c2, ONE - band, 2 * ONE)
}

/// Whether the magnitude of a sine exceeds `0.95`.
pub open spec fn on_grid_line(s: i32) -> bool {
    (if s < 0 { -s } else { s as int }) * 100 > 95 * ONE
}

/// Cyber: `c2 * 1.5` where any of the three sines lies on a grid line, else `c1`.
pub open spec fn cyber_color(grid: Vector3, c1: Vector3, c2: Vector3) -> Vector3 {
    if on_grid_line(grid.x) || on_grid_line(grid.y) || on_grid_line(grid.z) {
        mixed_color(c1, 0, c2, 3, 2)
    } else {
        c1
    }
}

/// The share of lava for the noise `h`: `2 * h - 0.9` limited to `[0, 1]`,
/// in tenths of `ONE`.
pub open spec fn magma_mix(noise: i32) -> int {
    clamped(20 * noise - 9 * ONE, 0, 10 * ONE)
}

/// Magma: `lava * mix + rock * (1 - mix)`.
pub open spec fn magma_color(noise: i32, lava: Vector3, rock: Vector3) -> Vector3 {
    mixed_color(lava, magma_mix(noise), rock, 10 * ONE - magma_mix(noise), 10 * ONE)
}

/// The distance of a point from the y axis, rounded down to the grid.
pub open spec fn ring_radius(pos: Vector3) -> int {
    sqrt_floor(pos.x * pos.x + pos.z * pos.z)
}

/// The share of the outer colour at radius `r`: `(r - 0.6) * 2` limited to
/// `[0, 1]`, in fifths of `ONE`.
pub open spec fn ring_mix(pos: Vector3) -> int {
    clamped(10 * ring_radius(pos) - 6 * ONE, 0, 5 * ONE)
}

/// Ring: `inner * (1 - t) + outer * t`.
pub open spec fn ring_color(pos: Vector3, inner: Vector3, outer: Vector3) -> Vector3 {
    mixed_color(inner, 5 * ONE - ring_mix(pos), outer, ring_mix(pos), 5 * ONE)
}

/// The colour of a material at a surface point.
pub open spec fn shaded_color(
    kind: ShaderKind,
    pos: Vector3,
    samples: SurfaceSamples,
    c1: Vector3,
    c2: Vector3,
) -> Vector3 {
    match kind {
        ShaderKind::Star => star_color(pos, c1, c2),
        ShaderKind::Rocky => rocky_color(samples.noise, c1, c2),
        ShaderKind::GasGiant => gas_giant_color(samples.band, c1, c2),
        ShaderKind::Cyber => cyber_color(samples.grid, c1, c2),
        ShaderKind::Magma => magma_color(samples.noise, c1, c2),
        ShaderKind::Flat => c1,
        ShaderKind::Ring => ring_color(pos, c1, c2),
        ShaderKind::Fallback => c1,
    }
}

fn square(v: i32) -> (r: i128)
    ensures
        r as int == v * v,
        0 <= r <= 0x4000_0000_0000_0000,
{
    proof {
        lemma_product_bound(v as int, v as int, 0x8000_0000, 0x8000_0000);
        assert(v * v >= 0) by (nonlinear_arith);
    }
    v as i128 * v as i128
}

/// An emissive star: brightest within the unit sphere, fading outside it.
pub fn shade_star(pos: Vector3, c_core: Vector3, c_outer: Vector3) -> (color: Vector3)
    ensures
        color == star_color(pos, c_core, c_outer),
{
    let r2: i128 = square(pos.x) + square(pos.y) + square(pos.z);
    let glow: i128 = clamp(6442450944 - r2, 0, 4294967296);
    mix_color(c_core, 365072220160 + 15 * glow, c_outer, 42949672960, 429496729600)
}

/// A rocky surface: the base colour mottled by the noise sampled at the point.
pub fn shade_rocky(noise: i32, c_base: Vector3, c_dark: Vector3) -> (color: Vector3)
    ensures
        color == rocky_color(noise, c_base, c_dark),
{
    mix_color(c_base, 524288 + 2 * (noise as i128), c_dark, 4 * (noise as i128), 655360)
}

/// A gas giant: bands that follow the sine sampled along the y axis.
pub fn shade_gas_giant(band: i32, c1: Vector3, c2: Vector3) -> (color: Vector3)
    ensures
        color == gas_giant_color(band, c1, c2),
{
    mix_color(c1, 65536 + band as i128, c2, 65536 - band as i128, 131072)
}

fn is_on_grid_line(s: i32) -> (on: bool)
    ensures
        on == on_grid_line(s),
{
    let magnitude: i64 = if s < 0 { -(s as i64) } else { s as i64 };
    magnitude * 100 > 6225920
}

/// A lit grid over dark metal: the second colour, brightened, on the lines.
pub fn shade_cyber(grid: Vector3, c1: Vector3, c2: Vector3) -> (color: Vector3)
    ensures
        color == cyber_color(grid, c1, c2),
{
    if is_on_grid_line(grid.x) || is_on_grid_line(grid.y) || is_on_grid_line(grid.z) {
        mix_color(c1, 0, c2, 3, 2)
    } else {
        c1
    }
}

/// Magma: lava where the noise is high, rock elsewhere.
pub fn shade_magma(noise: i32, lava: Vector3, rock: Vector3) -> (color: Vector3)
    ensures
        color == magma_color(noise, lava, rock),
{
    let share: i128 = clamp(20 * (noise as i128) - 589824, 0, 655360);
    mix_color(lava, share, rock, 655360 - share, 655360)
}

/// A flat material: the first colour at every point.
pub fn shade_flat(_pos: Vector3, color: Vector3) -> (out: Vector3)
    ensures
        out == color,
{
    color
}

/// A planetary ring: a gradient from the inner to the outer colour by the
/// distance from the axis.
pub fn shade_ring(pos: Vector3, inner: Vector3, outer: Vector3) -> (color: Vector3)
    ensures
        color == ring_color(pos, inner, outer),
{
    let sum: i128 = square(pos.x) + square(pos.z);
    let r: u64 = isqrt(sum as u64);
    let share: i128 = clamp(10 * (r as i128) - 393216, 0, 327680);
    mix_color(inner, 327680 - share, outer, share, 327680)
}

/// The dot product of two vectors, stored.
pub open spec fn dot_product(a: Vector3, b: Vector3) -> int {
    stored(a.x * b.x + a.y * b.y + a.z * b.z, ONE as int)
}

/// The dot product of two vectors.
pub fn dot(a: Vector3, b: Vector3) -> (d: i32)
    ensures
        d as int == dot_product(a, b),
{
    proof {
        lemma_product_bound(a.x as int, b.x as int, 0x8000_0000, 0x8000_0000);
        lemma_product_bound(a.y as int, b.y as int, 0x8000_0000, 0x8000_0000);
        lemma_product_bound(a.z as int, b.z as int, 0x8000_0000, 0x8000_0000);
    }
    store(a.x as i128 * b.x as i128 + a.y as i128 * b.y as i128 + a.z as i128 * b.z as i128, 65536)
}

/// The length of a vector, rounded down to the grid.
pub open spec fn length(v: Vector3) -> int {
    sqrt_floor(squared_length(v))
}

/// The vector scaled to length one; the zero vector is left as it is.
pub open spec fn normalized(v: Vector3) -> Vector3 {
    if squared_length(v) > 0 {
        Vector3 {
            x: stored(v.x * ONE, length(v)) as i32,
            y: stored(v.y * ONE, length(v)) as i32,
            z: stored(v.z * ONE, length(v)) as i32,
        }
    } else {
        v
    }
}

/// Scales a vector to length one.
pub fn normalize(v: Vector3) -> (n: Vector3)
    ensures
        n == normalized(v),
{
    let len2: i128 = square(v.x) + square(v.y) + square(v.z);
    if len2 > 0 {
        let len: u64 = isqrt(len2 as u64);
        assert(len > 0) by {
            if len == 0 {
                assert((len + 1) * (len + 1) == 1) by (nonlinear_arith)
                    requires
                        len == 0,
                ;
            }
        }
        Vector3 {
            x: store(v.x as i128 * 65536, len as i128),
            y: store(v.y as i128 * 65536, len as i128),
            z: store(v.z as i128 * 65536, len as i128),
        }
    } else {
        v
    }
}

/// The Lambert term of a surface: the cosine of the angle between its
/// normal and the direction of the light, or zero where the surface faces
/// away, the same in all three channels.
pub open spec fn lambert_term(normal: Vector3, light_dir: Vector3) -> Vector3 {
    let cosine = dot_product(normalized(normal), normalized(light_dir));
    let intensity = if cosine > 0 {
        cosine as i32
    } else {
        0i32
    };
    Vector3 { x: intensity, y: intensity, z: intensity }
}

/// Simple Lambert lighting. The vertex stage does not blend it into the
/// colour.
pub fn lambert_light(normal: Vector3, light_dir: Vector3) -> (light: Vector3)
    ensures
        light == lambert_term(normal, light_dir),
{
    let n = normalize(normal);
    let l = normalize(light_dir);
    let cosine: i32 = dot(n, l);
    let intensity: i32 = if cosine > 0 { cosine } else { 0 };
    Vector3 { x: intensity, y: intensity, z: intensity }
}

/// The product of a matrix and a homogeneous point, each component stored.
pub open spec fn matrix_times_vector(m: Matrix, v: Vector4) -> Vector4 {
    Vector4 {
        x: dot4_stored(
            m.m0 as int,
            v.x as int,
            m.m4 as int,
            v.y as int,
            m.m8 as int,
            v.z as int,
            m.m12 as int,
            v.w as int,
        ) as i32,
        y: dot4_stored(
            m.m1 as int,
            v.x as int,
            m.m5 as int,
            v.y as int,
            m.m9 as int,
            v.z as int,
            m.m13 as int,
            v.w as int,
        ) as i32,
        z: dot4_stored(
            m.m2 as int,
            v.x as int,
            m.m6 as int,
            v.y as int,
            m.m10 as int,
            v.z as int,
            m.m14 as int,
            v.w as int,
        ) as i32,
        w: dot4_stored(
            m.m3 as int,
            v.x as int,
            m.m7 as int,
            v.y as int,
            m.m11 as int,
            v.z as int,
            m.m15 as int,
            v.w as int,
        ) as i32,
    }
}

/// Applies a matrix to a homogeneous point.
pub fn multiply_matrix_vector4(matrix: &Matrix, vector: &Vector4) -> (out: Vector4)
    ensures
        out == matrix_times_vector(*matrix, *vector),
{
    Vector4 {
        x: dot4(
            matrix.m0,
            vector.x,
            matrix.m4,
            vector.y,
            matrix.m8,
            vector.z,
            matrix.m12,
            vector.w,
        ),
        y: dot4(
            matrix.m1,
            vector.x,
            matrix.m5,
            vector.y,
            matrix.m9,
            vector.z,
            matrix.m13,
            vector.w,
        ),
        z: dot4(
            matrix.m2,
            vector.x,
            matrix.m6,
            vector.y,
            matrix.m10,
            vector.z,
            matrix.m14,
            vector.w,
        ),
        w: dot4(
            matrix.m3,
            vector.x,
            matrix.m7,
            vector.y,
            matrix.m11,
            vector.z,
            matrix.m15,
            vector.w,
        ),
    }
}

/// A homogeneous point brought back to three dimensions: divided by `w`
/// where `w` is not zero, else taken as it is.
pub open spec fn divided_by_w(t: Vector4) -> Vector3 {
    if t.w != 0 {
        Vector3 {
            x: stored(t.x * ONE, t.w as int) as i32,
            y: stored(t.y * ONE, t.w as int) as i32,
            z: stored(t.z * ONE, t.w as int) as i32,
        }
    } else {
        Vector3 { x: t.x, y: t.y, z: t.z }
    }
}

/// The position of a model-space point after the model transform.
pub open spec fn transformed_point(m: Matrix, p: Vector3) -> Vector3 {
    divided_by_w(matrix_times_vector(m, Vector4 { x: p.x, y: p.y, z: p.z, w: ONE }))
}

/// What the vertex stage makes of a vertex: the position transformed, the
/// colour that of the material at the model-space position, the rest kept.
pub open spec fn shaded_vertex(v: Vertex, uniforms: Uniforms, samples: SurfaceSamples) -> Vertex {
    Vertex {
        position: v.position,
        normal: v.normal,
        tex_coords: v.tex_coords,
        color: shaded_color(
            ShaderKind::of_tag(uniforms.shader_type),
            v.position,
            samples,
            uniforms.base_color1,
            uniforms.base_color2,
        ),
        transformed_position: transformed_point(uniforms.model_matrix, v.position),
        transformed_normal: v.normal,
    }
}

fn divide_by_w(value: i32, w: i32) -> (r: i32)
    requires
        w != 0,
    ensures
        r as int == stored(value * ONE, w as int),
{
    store(value as i128 * 65536, w as i128)
}

/// The vertex stage: transforms the position by the model matrix and gives
/// the vertex the colour of the draw call's material. The lighting scalars
/// of the uniforms do not enter the colour, and the normal is passed on as
/// it is.
pub fn vertex_shader(v: &Vertex, uniforms: &Uniforms, samples: &SurfaceSamples) -> (out: Vertex)
    ensures
        out == shaded_vertex(*v, *uniforms, *samples),
{
    let pos4 = Vector4 { x: v.position.x, y: v.position.y, z: v.position.z, w: 65536 };
    let t = multiply_matrix_vector4(&uniforms.model_matrix, &pos4);
    let transformed = if t.w != 0 {
        Vector3 { x: divide_by_w(t.x, t.w), y: divide_by_w(t.y, t.w), z: divide_by_w(t.z, t.w) }
    } else {
        Vector3 { x: t.x, y: t.y, z: t.z }
    };

    let c1 = uniforms.base_color1;
    let c2 = uniforms.base_color2;
    let color = match ShaderKind::from_tag(uniforms.shader_type) {
        ShaderKind::Star => shade_star(v.position, c1, c2),
        ShaderKind::Rocky => shade_rocky(samples.noise, c1, c2),
        ShaderKind::GasGiant => shade_gas_giant(samples.band, c1, c2),
        ShaderKind::Cyber => shade_cyber(samples.grid, c1, c2),
        ShaderKind::Magma => shade_magma(samples.noise, c1, c2),
        ShaderKind::Flat => shade_flat(v.position, c1),
        ShaderKind::Ring => shade_ring(v.position, c1, c2),
        ShaderKind::Fallback => c1,
    };

    Vertex {
        position: v.position,
        normal: v.normal,
        tex_coords: v.tex_coords,
        color,
        transformed_position: transformed,
        transformed_normal: v.normal,
    }
}

} // verus!
