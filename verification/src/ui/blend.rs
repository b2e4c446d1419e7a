//! How the overlay is blended onto the host's frame, and the fixed pipeline
//! settings that go with it.
//!
//! The colour channels are blended "alpha over": the overlay's colour weighted
//! by its alpha, the host's colour by the rest. The alpha channel takes the
//! overlay's alpha as it is. The GPU does the blending; `blend_pixel` says in
//! integer terms what comes out, to eight bits and rounded to the nearest value.

use vstd::prelude::*;

verus! {

/// A weight in the blend equation.
#[derive(Clone, Copy, Debug, PartialEq, Eq, Structural)]
pub enum BlendFactor {
    Zero,
    One,
    SrcAlpha,
    InvSrcAlpha,
}

/// How the two weighted values are combined.
#[derive(Clone, Copy, Debug, PartialEq, Eq, Structural)]
pub enum BlendOp {
    Add,
}

/// The blend state of the render target.
#[derive(Clone, Copy, Debug, PartialEq, Eq, Structural)]
pub struct BlendSetup {
    pub enabled: bool,
    pub src_blend: BlendFactor,
    pub dest_blend: BlendFactor,
    pub blend_op: BlendOp,
    pub src_blend_alpha: BlendFactor,
    pub dest_blend_alpha: BlendFactor,
    pub blend_op_alpha: BlendOp,
    /// Which channels are written: one bit each for red, green, blue and alpha.
    pub write_mask: u8,
}

/// How the overlay's texture is sampled.
#[derive(Clone, Copy, Debug, PartialEq, Eq, Structural)]
pub struct SamplerSetup {
    /// Linear filtering for minification, magnification and mip levels.
    pub linear: bool,
    /// Coordinates outside the texture are clamped to its edge, on all three axes.
    pub clamp: bool,
    /// The comparison never passes.
    pub compare_never: bool,
    pub min_lod: u32,
    /// No upper limit on the level of detail.
    pub unbounded_max_lod: bool,
}

/// The draw call of the overlay: one triangle that covers the screen, made up
/// in the vertex shader from the vertex index alone.
#[derive(Clone, Copy, Debug, PartialEq, Eq, Structural)]
pub struct DrawCall {
    pub vertex_count: u32,
    pub start_vertex: u32,
}

/// Write mask that lets all four channels through.
pub const COLOR_WRITE_ENABLE_ALL: u8 = 15;

/// The overlay's blend state: alpha over for the colours, the overlay's own
/// alpha for the alpha channel.
pub open spec fn overlay_blend() -> BlendSetup {
    BlendSetup {
        enabled: true,
        src_blend: BlendFactor::SrcAlpha,
        dest_blend: BlendFactor::InvSrcAlpha,
        blend_op: BlendOp::Add,
        src_blend_alpha: BlendFactor::One,
        dest_blend_alpha: BlendFactor::Zero,
        blend_op_alpha: BlendOp::Add,
        write_mask: COLOR_WRITE_ENABLE_ALL,
    }
}

/// Describes the blend state to create.
pub fn create_blend_state() -> (setup: BlendSetup)
    ensures
        setup == overlay_blend(),
{
    BlendSetup {
        enabled: true,
        src_blend: BlendFactor::SrcAlpha,
        dest_blend: BlendFactor::InvSrcAlpha,
        blend_op: BlendOp::Add,
        src_blend_alpha: BlendFactor::One,
        dest_blend_alpha: BlendFactor::Zero,
        blend_op_alpha: BlendOp::Add,
        write_mask: COLOR_WRITE_ENABLE_ALL,
    }
}

/// Describes the sampler state to create.
pub fn create_sampler_state() -> (setup: SamplerSetup)
    ensures
        setup == (SamplerSetup {
            linear: true,
            clamp: true,
            compare_never: true,
            min_lod: 0,
            unbounded_max_lod: true,
        }),
{
    SamplerSetup {
        linear: true,
        clamp: true,
        compare_never: true,
        min_lod: 0,
        unbounded_max_lod: true,
    }
}

/// Describes the draw call of the overlay.
pub fn overlay_draw() -> (call: DrawCall)
    ensures
        call == (DrawCall { vertex_count: 3, start_vertex: 0 }),
{
    DrawCall { vertex_count: 3, start_vertex: 0 }
}

/// The weight that a factor stands for, in 255ths, given the overlay's alpha.
pub open spec fn weight(factor: BlendFactor, src_alpha: u8) -> int {
    match factor {
        BlendFactor::Zero => 0,
        BlendFactor::One => 255,
        BlendFactor::SrcAlpha => src_alpha as int,
        BlendFactor::InvSrcAlpha => 255 - src_alpha,
    }
}

/// One blended channel: the weighted sum of the overlay's and the host's value,
/// rounded to the nearest of the 256 values and capped at 255.
pub open spec fn blended(
    src: u8,
    dst: u8,
    src_factor: BlendFactor,
    dest_factor: BlendFactor,
    src_alpha: u8,
) -> int {
    let sum = (src * weight(src_factor, src_alpha) + dst * weight(dest_factor, src_alpha) + 127)
        / 255;
    if sum > 255 {
        255
    } else {
        sum
    }
}

/// The pixel that blending the overlay's pixel `src` onto the host's pixel `dst`
/// gives: red, green and blue by the colour factors, alpha by the alpha factors.
pub open spec fn blended_pixel(setup: BlendSetup, src: Seq<u8>, dst: Seq<u8>) -> Seq<u8> {
    if setup.enabled {
        Seq::new(
            4,
            |c: int|
                if c < 3 {
                    blended(src[c], dst[c], setup.src_blend, setup.dest_blend, src[3]) as u8
                } else {
                    blended(
                        src[3],
                        dst[3],
                        setup.src_blend_alpha,
                        setup.dest_blend_alpha,
                        src[3],
                    ) as u8
                },
        )
    } else {
        src
    }
}

fn weight_of(factor: BlendFactor, src_alpha: u8) -> (w: u32)
    ensures
        w == weight(factor, src_alpha),
        w <= 255,
{
    match factor {
        BlendFactor::Zero => 0,
        BlendFactor::One => 255,
        BlendFactor::SrcAlpha => src_alpha as u32,
        BlendFactor::InvSrcAlpha => 255 - src_alpha as u32,
    }
}

fn blend_channel(
    src: u8,
    dst: u8,
    src_factor: BlendFactor,
    dest_factor: BlendFactor,
    src_alpha: u8,
) -> (out: u8)
    ensures
        out == blended(src, dst, src_factor, dest_factor, src_alpha),
{
    let ws = weight_of(src_factor, src_alpha);
    let wd = weight_of(dest_factor, src_alpha);
    assert(src * ws <= 255 * 255 && dst * wd <= 255 * 255) by (nonlinear_arith)
        requires
            src <= 255,
            dst <= 255,
            ws <= 255,
            wd <= 255,
    ;
    let sum: u32 = (src as u32 * ws + dst as u32 * wd + 127) / 255;
    if sum > 255 {
        255
    } else {
        sum as u8
    }
}

/// Blends one pixel of the overlay onto one pixel of the host's frame, as the
/// blend state prescribes.
pub fn blend_pixel(setup: &BlendSetup, src: [u8; 4], dst: [u8; 4]) -> (out: [u8; 4])
    ensures
        out@ == blended_pixel(*setup, src@, dst@),
{
    if !setup.enabled {
        return src;
    }
    let a = src[3];
    let out = [
        blend_channel(src[0], dst[0], setup.src_blend, setup.dest_blend, a),
        blend_channel(src[1], dst[1], setup.src_blend, setup.dest_blend, a),
        blend_channel(src[2], dst[2], setup.src_blend, setup.dest_blend, a),
        blend_channel(src[3], dst[3], setup.src_blend_alpha, setup.dest_blend_alpha, a),
    ];
    assert(out@ =~= blended_pixel(*setup, src@, dst@));
    out
}

/// The overlay's blend state layers correctly. Where the overlay is fully
/// transparent the host's colour shows unchanged, where it is fully opaque the
/// overlay's colour shows, and in between each colour lies between the two, so
/// that nothing gets darker or brighter than both. The alpha that comes out is
/// the overlay's own.
pub proof fn lemma_overlay_blend_layers(src: Seq<u8>, dst: Seq<u8>, c: int)
    requires
        src.len() == 4,
        dst.len() == 4,
        0 <= c < 3,
    ensures
        blended_pixel(overlay_blend(), src, dst).len() == 4,
        blended_pixel(overlay_blend(), src, dst)[3] == src[3],
        src[3] == 0 ==> blended_pixel(overlay_blend(), src, dst)[c] == dst[c],
        src[3] == 255 ==> blended_pixel(overlay_blend(), src, dst)[c] == src[c],
        src[c] <= dst[c] ==> src[c] <= blended_pixel(overlay_blend(), src, dst)[c] <= dst[c],
        dst[c] <= src[c] ==> dst[c] <= blended_pixel(overlay_blend(), src, dst)[c] <= src[c],
{
    let a = src[3] as int;
    let s = src[c] as int;
    let d = dst[c] as int;
    let total = s * a + d * (255 - a);
    assert(s <= d ==> s * 255 <= total <= d * 255) by (nonlinear_arith)
        requires
            0 <= a <= 255,
            0 <= s <= 255,
            0 <= d <= 255,
            total == s * a + d * (255 - a),
    ;
    assert(d <= s ==> d * 255 <= total <= s * 255) by (nonlinear_arith)
        requires
            0 <= a <= 255,
            0 <= s <= 255,
            0 <= d <= 255,
            total == s * a + d * (255 - a),
    ;
    assert(a == 0 ==> total == d * 255) by (nonlinear_arith)
        requires
            total == s * a + d * (255 - a),
    ;
    assert(a == 255 ==> total == s * 255) by (nonlinear_arith)
        requires
            total == s * a + d * (255 - a),
    ;
    assert(s * weight(BlendFactor::SrcAlpha, src[3]) + d * weight(
        BlendFactor::InvSrcAlpha,
        src[3],
    ) == total);
    assert(src[3] * 255 + dst[3] * 0 == a * 255) by (nonlinear_arith)
        requires
            a == src[3] as int,
    ;
}

} // verus!
