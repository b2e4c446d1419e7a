use dx11_overlay::ui::blend::{
    blend_pixel, create_blend_state, create_sampler_state, overlay_draw, BlendFactor, BlendOp,
    BlendSetup, DrawCall, SamplerSetup,
};

#[test]
fn blend_state_is_alpha_over_with_the_overlays_own_alpha() {
    assert_eq!(
        create_blend_state(),
        BlendSetup {
            enabled: true,
            src_blend: BlendFactor::SrcAlpha,
            dest_blend: BlendFactor::InvSrcAlpha,
            blend_op: BlendOp::Add,
            src_blend_alpha: BlendFactor::One,
            dest_blend_alpha: BlendFactor::Zero,
            blend_op_alpha: BlendOp::Add,
            write_mask: 0x0F,
        }
    );
}

#[test]
fn sampler_and_draw_call() {
    assert_eq!(
        create_sampler_state(),
        SamplerSetup {
            linear: true,
            clamp: true,
            compare_never: true,
            min_lod: 0,
            unbounded_max_lod: true
        }
    );
    assert_eq!(overlay_draw(), DrawCall { vertex_count: 3, start_vertex: 0 });
}

#[test]
fn transparent_overlay_leaves_the_host_colour() {
    let setup = create_blend_state();
    assert_eq!(blend_pixel(&setup, [255, 128, 7, 0], [10, 20, 30, 255]), [10, 20, 30, 0]);
    assert_eq!(blend_pixel(&setup, [0, 0, 0, 0], [255, 255, 255, 9]), [255, 255, 255, 0]);
}

#[test]
fn opaque_overlay_shows_its_own_colour() {
    let setup = create_blend_state();
    assert_eq!(blend_pixel(&setup, [255, 128, 7, 255], [10, 20, 30, 40]), [255, 128, 7, 255]);
    assert_eq!(blend_pixel(&setup, [0, 0, 0, 255], [255, 255, 255, 255]), [0, 0, 0, 255]);
}

#[test]
fn half_transparent_overlay_lies_in_between() {
    let setup = create_blend_state();
    // (200 * 128 + 100 * 127 + 127) / 255 = 150, (0 * 128 + 255 * 127 + 127) / 255 = 127
    assert_eq!(blend_pixel(&setup, [200, 0, 50, 128], [100, 255, 50, 255]), [150, 127, 50, 128]);
    // (255 * 1 + 0 * 254 + 127) / 255 = 1
    assert_eq!(blend_pixel(&setup, [255, 255, 255, 1], [0, 0, 0, 0]), [1, 1, 1, 1]);
}

#[test]
fn blended_colours_never_leave_the_range_of_the_two() {
    let setup = create_blend_state();
    for a in 0..=255u8 {
        for (s, d) in [(0u8, 255u8), (255, 0), (17, 200), (200, 17), (90, 90)] {
            let out = blend_pixel(&setup, [s, s, s, a], [d, d, d, 77]);
            assert!(out[0] >= s.min(d) && out[0] <= s.max(d));
            assert_eq!(out[3], a);
        }
    }
}

#[test]
fn other_factors_and_a_disabled_blend() {
    let additive = BlendSetup {
        src_blend: BlendFactor::One,
        dest_blend: BlendFactor::One,
        ..create_blend_state()
    };
    assert_eq!(blend_pixel(&additive, [200, 10, 0, 50], [100, 20, 0, 60]), [255, 30, 0, 50]);
    let off = BlendSetup { enabled: false, ..create_blend_state() };
    assert_eq!(blend_pixel(&off, [1, 2, 3, 4], [9, 9, 9, 9]), [1, 2, 3, 4]);
    let nothing = BlendSetup {
        src_blend: BlendFactor::Zero,
        dest_blend: BlendFactor::Zero,
        src_blend_alpha: BlendFactor::Zero,
        dest_blend_alpha: BlendFactor::One,
        ..create_blend_state()
    };
    assert_eq!(blend_pixel(&nothing, [1, 2, 3, 4], [9, 9, 9, 9]), [0, 0, 0, 9]);
}
