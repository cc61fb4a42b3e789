use place_ipv6::{Bounds, Color, DrawCommand, EncodingProfile, ImageFilter, Placement, Pos, SizeTag};

fn filter(width: u32, height: u32, alpha_threshold: Option<u8>, bounds: Bounds, offset: (u16, u16)) -> ImageFilter {
    ImageFilter {
        width,
        height,
        alpha_threshold,
        placement: Placement { offset_x: offset.0, offset_y: offset.1, bounds },
    }
}

fn open_bounds() -> Bounds {
    Bounds { min_x: 0, max_x: 9999, min_y: 0, max_y: 9999 }
}

/// A 12x12 transparent image with the given opaque pixels.
fn image(pixels: &[(u32, u32, [u8; 4])]) -> Vec<u8> {
    let mut rgba = vec![0u8; 12 * 12 * 4];
    for &(x, y, c) in pixels {
        let i = ((y * 12 + x) * 4) as usize;
        rgba[i..i + 4].copy_from_slice(&c);
    }
    rgba
}

#[test]
fn uniform_block_merges_into_one_command() {
    let c = [5, 6, 7, 255];
    let rgba = image(&[(10, 10, c), (11, 10, c), (10, 11, c), (11, 11, c)]);
    let f = filter(12, 12, Some(1), open_bounds(), (0, 0));
    let cmds = f.merged_commands(&rgba);
    assert_eq!(
        cmds,
        vec![DrawCommand { pos: Pos::new(10, 10), color: Color::new(5, 6, 7), size: SizeTag::Area2x2 }]
    );
    assert_eq!(f.plan_commands(EncodingProfile::SizeFlag, &rgba), cmds);
}

#[test]
fn block_with_differing_corner_gives_four_pixels() {
    let c = [5, 6, 7, 255];
    let rgba = image(&[(10, 10, c), (11, 10, c), (10, 11, c), (11, 11, [5, 6, 8, 255])]);
    let f = filter(12, 12, Some(1), open_bounds(), (0, 0));
    let cmds = f.merged_commands(&rgba);
    assert_eq!(cmds.len(), 4);
    assert!(cmds.iter().all(|d| d.size == SizeTag::SinglePixel));
    let pos: Vec<Pos> = cmds.iter().map(|d| d.pos).collect();
    assert_eq!(pos, vec![Pos::new(10, 10), Pos::new(11, 10), Pos::new(10, 11), Pos::new(11, 11)]);
}

#[test]
fn block_partly_outside_bounds_is_not_merged() {
    let c = [5, 6, 7, 255];
    let rgba = image(&[(10, 10, c), (11, 10, c), (10, 11, c), (11, 11, c)]);
    let b = Bounds { min_x: 0, max_x: 10, min_y: 0, max_y: 9999 };
    let cmds = filter(12, 12, Some(1), b, (0, 0)).merged_commands(&rgba);
    let pos: Vec<(Pos, SizeTag)> = cmds.iter().map(|d| (d.pos, d.size)).collect();
    assert_eq!(pos, vec![(Pos::new(10, 10), SizeTag::SinglePixel), (Pos::new(10, 11), SizeTag::SinglePixel)]);
}

#[test]
fn uniform_image_is_covered_by_blocks() {
    let rgba = vec![1u8; 4 * 4 * 4];
    let cmds = filter(4, 4, None, open_bounds(), (0, 0)).merged_commands(&rgba);
    let pos: Vec<Pos> = cmds.iter().map(|d| d.pos).collect();
    assert_eq!(pos, vec![Pos::new(0, 0), Pos::new(2, 0), Pos::new(0, 2), Pos::new(2, 2)]);
    assert!(cmds.iter().all(|d| d.size == SizeTag::Area2x2));
}

#[test]
fn plain_commands_skip_transparent_and_offset() {
    let c = [5, 6, 7, 200];
    let rgba = image(&[(3, 4, c)]);
    let cmds = filter(12, 12, Some(100), open_bounds(), (7, 9)).commands(&rgba);
    assert_eq!(
        cmds,
        vec![DrawCommand { pos: Pos::new(10, 13), color: Color::new_alpha(5, 6, 7, 200), size: SizeTag::SinglePixel }]
    );
    assert_eq!(filter(12, 12, Some(201), open_bounds(), (7, 9)).commands(&rgba).len(), 0);
    assert_eq!(filter(12, 12, None, open_bounds(), (0, 0)).commands(&rgba).len(), 144);
    assert_eq!(filter(12, 12, None, open_bounds(), (0, 0)).plan_commands(EncodingProfile::Alpha, &rgba).len(), 144);
}

#[test]
fn pixels_past_the_canvas_are_dropped() {
    let rgba = vec![255u8; 12 * 12 * 4];
    let cmds = filter(12, 12, None, open_bounds(), (1910, 1070)).commands(&rgba);
    assert_eq!(cmds.len(), 100);
    assert!(cmds.iter().all(|d| d.pos.x <= 1919 && d.pos.y <= 1079));
}

#[test]
fn image_bounds_are_inclusive() {
    let rgba = vec![255u8; 12 * 12 * 4];
    let b = Bounds { min_x: 2, max_x: 3, min_y: 5, max_y: 5 };
    let cmds = filter(12, 12, None, b, (0, 0)).commands(&rgba);
    let pos: Vec<Pos> = cmds.iter().map(|d| d.pos).collect();
    assert_eq!(pos, vec![Pos::new(2, 5), Pos::new(3, 5)]);
}

#[test]
fn image_bounds_apply_after_offset() {
    let rgba = vec![255u8; 12 * 12 * 4];
    let b = Bounds { min_x: 52, max_x: 52, min_y: 60, max_y: 60 };
    let cmds = filter(12, 12, None, b, (50, 50)).commands(&rgba);
    let pos: Vec<Pos> = cmds.iter().map(|d| d.pos).collect();
    assert_eq!(pos, vec![Pos::new(52, 60)]);
}
