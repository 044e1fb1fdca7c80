use boids::trail::{trail_head, Rgba, SimpleTrail2D, TrailBuilder, TrailColour};
use boids::vector::{Vec2, UNIT};

fn v(x: i64, y: i64) -> Vec2 {
    Vec2 { x, y }
}

#[test]
fn new_trail_starts_at_spawn() {
    let t = SimpleTrail2D::new(5, 2500, v(3, 4), v(0, -4000));
    assert_eq!(t.points, vec![v(3, 4); 5]);
    assert_eq!(t.thickness, 2500);
    assert_eq!(t.local_offset, v(0, -4000));
    assert!(t.taper_end);
}

#[test]
fn update_trail_shifts_points_and_builds_strip() {
    let mut t = SimpleTrail2D::new(3, 2000, v(0, 0), v(0, 0));
    let first = t.update_trail(v(1000, 0));
    assert_eq!(t.points, vec![v(1000, 0), v(0, 0), v(0, 0)]);
    assert_eq!(first, vec![v(0, 0), v(0, 0), v(0, 0), v(0, 0), v(1000, 1000), v(1000, -1000)]);
    let second = t.update_trail(v(2000, 0));
    assert_eq!(t.points, vec![v(2000, 0), v(1000, 0), v(0, 0)]);
    assert_eq!(
        second,
        vec![v(0, 0), v(0, 0), v(1000, 667), v(1000, -667), v(2000, 1000), v(2000, -1000)]
    );
}

#[test]
fn untapered_trail_keeps_width() {
    let mut t = SimpleTrail2D::new(2, 2000, v(0, 0), v(0, 0));
    t.taper_end = false;
    t.update_trail(v(0, 500));
    let strip = t.update_trail(v(0, 1000));
    assert_eq!(strip, vec![v(-1000, 500), v(1000, 500), v(-1000, 1000), v(1000, 1000)]);
}

#[test]
fn single_colour_fills_every_vertex() {
    let c = Rgba { r: 255, g: 221, b: 0, a: 255 };
    let colours = TrailColour::single(c).get_vertex_colours(3);
    assert_eq!(colours, vec![c; 6]);
}

#[test]
fn gradient_runs_from_end_toward_start() {
    let start = Rgba { r: 255, g: 0, b: 0, a: 255 };
    let end = Rgba { r: 0, g: 0, b: 255, a: 0 };
    let colours = TrailColour::gradient(start, end).get_vertex_colours(4);
    assert_eq!(colours.len(), 8);
    assert_eq!(colours[0], end);
    assert_eq!(colours[1], end);
    assert_eq!(colours[2], Rgba { r: 63, g: 0, b: 192, a: 63 });
    assert_eq!(colours[7], Rgba { r: 191, g: 0, b: 64, a: 191 });
}

#[test]
fn builder_defaults_and_setters() {
    let b = TrailBuilder::new(v(7, 8));
    assert_eq!(b.segments, 100);
    assert_eq!(b.thickness, UNIT);
    assert!(b.taper_end);
    assert_eq!(b.depth, -UNIT);
    let colour = TrailColour::gradient(Rgba { r: 1, g: 2, b: 3, a: 4 }, Rgba { r: 5, g: 6, b: 7, a: 8 });
    let b = b
        .with_segments(4)
        .with_thickness(2500)
        .with_taper_end(false)
        .with_local_offset(v(0, -4000))
        .with_colour(colour)
        .with_depth(-2000);
    assert_eq!(b.segments, 4);
    assert_eq!(b.thickness, 2500);
    assert!(!b.taper_end);
    assert_eq!(b.local_offset, v(0, -4000));
    assert_eq!(b.colour, colour);
    assert_eq!(b.depth, -2000);
    let (trail, colours) = b.build();
    assert!(!trail.taper_end);
    assert_eq!(trail.points, vec![v(7, 8); 4]);
    assert_eq!(trail.thickness, 2500);
    assert_eq!(colours.len(), 8);
    assert_eq!(colours[0], Rgba { r: 5, g: 6, b: 7, a: 8 });
}

#[test]
fn tapering_default_survives_build() {
    let (trail, _) = TrailBuilder::new(v(0, 0)).build();
    assert!(trail.taper_end);
}

#[test]
fn trail_head_turns_offset_with_heading() {
    let offset = v(0, -4000);
    assert_eq!(trail_head(v(100, 100), offset, v(0, 1000)), v(100, -3900));
    assert_eq!(trail_head(v(100, 100), offset, v(1000, 0)), v(-3900, 100));
    assert_eq!(trail_head(v(100, 100), offset, v(0, -1000)), v(100, 4100));
    assert_eq!(trail_head(v(100, 100), offset, v(0, 0)), v(100, -3900));
    assert_eq!(trail_head(v(0, 0), v(7000, -8000), v(3000, 4000)), v(800, -10600));
}
