use tinyrenderer::basetype::Viewport;
use tinyrenderer::color::Color;
use tinyrenderer::fixed::SCALE;
use tinyrenderer::pass::RenderPass;
use tinyrenderer::pipeline::{CullMode, DepthCompare, Pipeline};
use tinyrenderer::shader::{FsPayload, ShaderProgram, VsOutput};
use tinyrenderer::vector::{Vec2, Vec4};

/// A shader drawing its vertex list in one flat color.
struct FlatShader {
    verts: Vec<Vec4>,
    color: Color,
}

impl ShaderProgram for FlatShader {
    type Varying = ();

    fn vertex_shader(&self, index: usize) -> VsOutput<()> {
        VsOutput { position: self.verts[index], varying: () }
    }

    fn fragment_shader(&self, _payload: FsPayload<()>) -> Color {
        self.color
    }
}

/// A triangle that covers the whole clip square, at the given depth.
fn full_screen_triangle(z: i64) -> Vec<Vec4> {
    vec![
        Vec4::new(-SCALE, -SCALE, z, SCALE),
        Vec4::new(3 * SCALE, -SCALE, z, SCALE),
        Vec4::new(-SCALE, 3 * SCALE, z, SCALE),
    ]
}

fn draw_flat(pass: &mut RenderPass, z: i64, color: Color, compare: DepthCompare) {
    let shader = FlatShader { verts: full_screen_triangle(z), color };
    let pipeline = Pipeline {
        program: &shader,
        cull_mode: CullMode::Disabled,
        depth_write_enable: true,
        depth_compare: compare,
    };
    pass.draw(&pipeline, 3);
}

#[test]
fn flat_triangle_fills_viewport() {
    let viewport = Viewport::new(0, 0, 4, 4);
    let mut pass = RenderPass::new(viewport);
    pass.clear();
    let red = Color::new(SCALE, 0, 0, SCALE);
    let shader = FlatShader { verts: full_screen_triangle(0), color: red };
    let pipeline = Pipeline {
        program: &shader,
        cull_mode: CullMode::Disabled,
        depth_write_enable: false,
        depth_compare: DepthCompare::Always,
    };
    pass.draw(&pipeline, 3);
    for y in 0..4i64 {
        for x in 0..4i64 {
            assert_eq!(pass.frame_texture.get_texel(&Vec2::new(x, y)), red);
            // Depth writes were disabled.
            assert_eq!(pass.depth_texture.get_texel(&Vec2::new(x, y)), None);
        }
    }
}

#[test]
fn clear_resets_frame_and_depth() {
    let viewport = Viewport::new(0, 0, 4, 4);
    let mut pass = RenderPass::new(viewport);
    pass.clear();
    draw_flat(&mut pass, SCALE / 2, Color::new(SCALE, 0, 0, SCALE), DepthCompare::Less);
    pass.clear();
    for y in 0..4i64 {
        for x in 0..4i64 {
            assert_eq!(pass.frame_texture.get_texel(&Vec2::new(x, y)), Color::white());
            assert_eq!(pass.depth_texture.get_texel(&Vec2::new(x, y)), None);
        }
    }
}

#[test]
fn depth_less_overwrites_and_rejects() {
    let viewport = Viewport::new(0, 0, 2, 2);
    let mut pass = RenderPass::new(viewport);
    pass.clear();
    let red = Color::new(SCALE, 0, 0, SCALE);
    let green = Color::new(0, SCALE, 0, SCALE);
    let blue = Color::new(0, 0, SCALE, SCALE);
    let half = SCALE / 2;  // depth 0.5
    let near = 3 * SCALE / 10;  // depth 0.3
    let far = 7 * SCALE / 10;  // depth 0.7

    draw_flat(&mut pass, half, red, DepthCompare::Less);
    assert_eq!(pass.frame_texture.get_texel(&Vec2::new(0, 0)), red);
    assert_eq!(pass.depth_texture.get_texel(&Vec2::new(0, 0)), Some(half));

    // A nearer draw overwrites color and depth.
    draw_flat(&mut pass, near, green, DepthCompare::Less);
    assert_eq!(pass.frame_texture.get_texel(&Vec2::new(0, 0)), green);
    assert_eq!(pass.depth_texture.get_texel(&Vec2::new(0, 0)), Some(near));

    // A farther draw leaves the pixel unchanged.
    draw_flat(&mut pass, far, blue, DepthCompare::Less);
    assert_eq!(pass.frame_texture.get_texel(&Vec2::new(0, 0)), green);
    assert_eq!(pass.depth_texture.get_texel(&Vec2::new(0, 0)), Some(near));
}

#[test]
fn unset_depth_always_accepts_first_write() {
    // Even DepthCompare::Never passes against a never-written entry.
    let viewport = Viewport::new(0, 0, 2, 2);
    let mut pass = RenderPass::new(viewport);
    pass.clear();
    let red = Color::new(SCALE, 0, 0, SCALE);
    draw_flat(&mut pass, SCALE / 2, red, DepthCompare::Never);
    assert_eq!(pass.frame_texture.get_texel(&Vec2::new(0, 0)), red);
    assert_eq!(pass.depth_texture.get_texel(&Vec2::new(0, 0)), Some(SCALE / 2));
    // Against the now-written entry, Never rejects everything.
    let blue = Color::new(0, 0, SCALE, SCALE);
    draw_flat(&mut pass, 0, blue, DepthCompare::Never);
    assert_eq!(pass.frame_texture.get_texel(&Vec2::new(0, 0)), red);
}

#[test]
fn back_face_culling_skips_clockwise_triangles() {
    let viewport = Viewport::new(0, 0, 4, 4);
    let mut pass = RenderPass::new(viewport);
    pass.clear();
    let red = Color::new(SCALE, 0, 0, SCALE);
    // Reversed winding: clockwise in screen space.
    let mut verts = full_screen_triangle(0);
    verts.swap(1, 2);
    let shader = FlatShader { verts, color: red };
    let pipeline = Pipeline {
        program: &shader,
        cull_mode: CullMode::Back,
        depth_write_enable: false,
        depth_compare: DepthCompare::Always,
    };
    pass.draw(&pipeline, 3);
    // Nothing was drawn: the frame is still the clear color.
    assert_eq!(pass.frame_texture.get_texel(&Vec2::new(0, 0)), Color::white());
    // With culling disabled the same triangle draws.
    let shader = FlatShader { verts: {
        let mut v = full_screen_triangle(0);
        v.swap(1, 2);
        v
    }, color: red };
    let pipeline = Pipeline {
        program: &shader,
        cull_mode: CullMode::Disabled,
        depth_write_enable: false,
        depth_compare: DepthCompare::Always,
    };
    pass.draw(&pipeline, 3);
    assert_eq!(pass.frame_texture.get_texel(&Vec2::new(0, 0)), red);
}

#[test]
fn trailing_vertices_are_ignored() {
    let viewport = Viewport::new(0, 0, 2, 2);
    let mut pass = RenderPass::new(viewport);
    pass.clear();
    let red = Color::new(SCALE, 0, 0, SCALE);
    let mut verts = full_screen_triangle(0);
    verts.push(Vec4::new(0, 0, 0, SCALE));
    let shader = FlatShader { verts, color: red };
    let pipeline = Pipeline {
        program: &shader,
        cull_mode: CullMode::Disabled,
        depth_write_enable: false,
        depth_compare: DepthCompare::Always,
    };
    // Four vertex outputs: one triangle, one ignored leftover.
    pass.draw(&pipeline, 4);
    assert_eq!(pass.frame_texture.get_texel(&Vec2::new(0, 0)), red);
}

#[test]
fn draw_pixel_flips_vertically_and_clips() {
    let viewport = Viewport::new(0, 0, 2, 2);
    let mut pass = RenderPass::new(viewport);
    pass.clear();
    let red = Color::new(SCALE, 0, 0, SCALE);
    // Viewport coordinate (0, 0) is the bottom-left: it lands in storage
    // row 1 (the top row of storage is viewport row height-1).
    pass.draw_pixel(&Vec2::new(0, 0), &red);
    assert_eq!(pass.frame_texture.get_texel(&Vec2::new(0, 1)), red);
    assert_eq!(pass.frame_texture.get_texel(&Vec2::new(0, 0)), Color::white());
    // Writes outside the viewport are dropped.
    pass.draw_pixel(&Vec2::new(5, 5), &red);
    pass.draw_pixel(&Vec2::new(-1, 0), &red);
    assert_eq!(pass.frame_texture.get_texel(&Vec2::new(1, 0)), Color::white());
    assert_eq!(pass.frame_texture.get_texel(&Vec2::new(1, 1)), Color::white());
}

#[test]
fn draw_line_clips_to_viewport() {
    let viewport = Viewport::new(0, 0, 4, 4);
    let mut pass = RenderPass::new(viewport);
    pass.clear();
    let red = Color::new(SCALE, 0, 0, SCALE);
    // A horizontal line reaching far past both sides of the viewport.
    pass.draw_line(
        &Vec2::new(-10 * SCALE, 2 * SCALE),
        &Vec2::new(20 * SCALE, 2 * SCALE),
        &red,
    );
    for x in 0..4i64 {
        // Viewport row 2 is storage row 1.
        assert_eq!(pass.frame_texture.get_texel(&Vec2::new(x, 1)), red);
    }
    // A line entirely outside draws nothing.
    let mut other = RenderPass::new(viewport);
    other.clear();
    other.draw_line(
        &Vec2::new(-10 * SCALE, -SCALE),
        &Vec2::new(20 * SCALE, -SCALE),
        &red,
    );
    for y in 0..4i64 {
        for x in 0..4i64 {
            assert_eq!(other.frame_texture.get_texel(&Vec2::new(x, y)), Color::white());
        }
    }
}

#[test]
fn draw_line_writes_flat_color() {
    let viewport = Viewport::new(0, 0, 4, 4);
    let mut pass = RenderPass::new(viewport);
    pass.clear();
    let red = Color::new(SCALE, 0, 0, SCALE);
    // A horizontal line across row 1 (pixel centers at y = 1).
    pass.draw_line(
        &Vec2::new(0, SCALE),
        &Vec2::new(3 * SCALE, SCALE),
        &red,
    );
    for x in 0..4i64 {
        // Viewport row 1 is storage row height-1-1 = 2.
        assert_eq!(pass.frame_texture.get_texel(&Vec2::new(x, 2)), red);
        assert_eq!(pass.frame_texture.get_texel(&Vec2::new(x, 0)), Color::white());
    }
}
