use tagdriver::canvas::Canvas;
use tagdriver::color::BWRColor;
use tagdriver::framebuffer::{unpack, BWRDisplay, DisplayFlip, DisplayRotation};

#[test]
fn new_display_is_byte_aligned_and_clear() {
    let d = BWRDisplay::new(250, 122, DisplayRotation::Zero, DisplayFlip::NoFlip);
    assert_eq!(d.buffer_height(), 128);
    assert_eq!(d.columns(), 250);
    assert_eq!(d.raw().len(), 250 * 128);
    assert!(d.raw().iter().all(|p| *p == 0));
    assert_eq!(d.size(), (250, 122));
}

#[test]
fn rotated_display_swaps_physical_axes() {
    let d = BWRDisplay::new(400, 300, DisplayRotation::Rotate270, DisplayFlip::Horizontal);
    assert_eq!(d.columns(), 300);
    assert_eq!(d.buffer_height(), 400);
    assert_eq!(d.raw().len(), 300 * 400);
}

#[test]
fn unrotated_write_lands_column_major() {
    let mut d = BWRDisplay::new(250, 122, DisplayRotation::Zero, DisplayFlip::NoFlip);
    d.draw_pixel(0, 0, BWRColor::On);
    d.draw_pixel(3, 5, BWRColor::Red);
    assert_eq!(d.raw()[0], 1);
    assert_eq!(d.raw()[3 * 128 + 5], 2);
}

#[test]
fn rotations_and_flips_map_coordinates() {
    let mut d = BWRDisplay::new(250, 122, DisplayRotation::Rotate180, DisplayFlip::NoFlip);
    d.draw_pixel(0, 0, BWRColor::On);
    assert_eq!(d.raw()[249 * 128 + 121], 1);

    let mut d = BWRDisplay::new(250, 122, DisplayRotation::Rotate90, DisplayFlip::NoFlip);
    d.draw_pixel(3, 5, BWRColor::On);
    assert_eq!(d.raw()[5 * 256 + 3], 1);

    let mut d = BWRDisplay::new(250, 122, DisplayRotation::Rotate270, DisplayFlip::NoFlip);
    d.draw_pixel(3, 5, BWRColor::On);
    assert_eq!(d.raw()[5 * 256 + 3], 1);

    let mut d = BWRDisplay::new(2, 1, DisplayRotation::Rotate270, DisplayFlip::NoFlip);
    d.draw_pixel(0, 0, BWRColor::On);
    assert_eq!(d.raw()[0], 1);

    let mut d = BWRDisplay::new(250, 122, DisplayRotation::Zero, DisplayFlip::Vertical);
    d.draw_pixel(3, 5, BWRColor::On);
    assert_eq!(d.raw()[3 * 128 + 116], 1);
}

fn transform(w: i32, h: i32, r: DisplayRotation, f: DisplayFlip, x: i32, y: i32) -> (i32, i32) {
    let (mut cx, mut cy) = (x, y);
    if r == DisplayRotation::Rotate180 {
        cx = w - 1 - cx;
        cy = h - 1 - cy;
    }
    match f {
        DisplayFlip::Horizontal => cx = w - 1 - cx,
        DisplayFlip::Vertical => cy = h - 1 - cy,
        DisplayFlip::NoFlip => {}
    }
    if r == DisplayRotation::Rotate90 || r == DisplayRotation::Rotate270 {
        std::mem::swap(&mut cx, &mut cy);
    }
    (cx, cy)
}

#[test]
fn rotated_write_lands_like_plain_write_at_transformed_point() {
    let rotations = [
        DisplayRotation::Zero,
        DisplayRotation::Rotate90,
        DisplayRotation::Rotate180,
        DisplayRotation::Rotate270,
    ];
    let flips = [DisplayFlip::NoFlip, DisplayFlip::Horizontal, DisplayFlip::Vertical];
    let (w, h) = (16i32, 8i32);
    for r in rotations {
        for f in flips {
            let swapped = r == DisplayRotation::Rotate90 || r == DisplayRotation::Rotate270;
            let (pw, ph) = if swapped { (h, w) } else { (w, h) };
            for (x, y) in [(0, 0), (3, 2), (15, 7), (9, 4)] {
                let mut rotated = BWRDisplay::new(w as u32, h as u32, r, f);
                rotated.draw_pixel(x, y, BWRColor::On);
                let (tx, ty) = transform(w, h, r, f, x, y);
                let mut plain =
                    BWRDisplay::new(pw as u32, ph as u32, DisplayRotation::Zero, DisplayFlip::NoFlip);
                plain.draw_pixel(tx, ty, BWRColor::On);
                assert_eq!(rotated.raw(), plain.raw());
            }
        }
    }
}

#[test]
fn off_display_writes_are_dropped() {
    let mut d = BWRDisplay::new(16, 8, DisplayRotation::Rotate90, DisplayFlip::Horizontal);
    let before = d.raw().clone();
    d.draw_pixel(-1, 0, BWRColor::On);
    d.draw_pixel(0, -1, BWRColor::On);
    d.draw_pixel(16, 0, BWRColor::On);
    d.draw_pixel(0, 8, BWRColor::On);
    d.draw_pixel(i32::MAX, i32::MIN, BWRColor::Red);
    assert_eq!(d.raw(), &before);
}

#[test]
fn clear_framebuffer_packs_to_background() {
    let d = BWRDisplay::new(8, 8, DisplayRotation::Zero, DisplayFlip::NoFlip);
    let (black, red) = d.get_fixed_buffer();
    assert_eq!(black, vec![0xFF; 8]);
    assert_eq!(red, vec![0; 8]);
}

#[test]
fn packing_inverts_black_plane_only() {
    let mut d = BWRDisplay::new(8, 8, DisplayRotation::Zero, DisplayFlip::NoFlip);
    d.draw_pixel(0, 0, BWRColor::On);
    d.draw_pixel(0, 1, BWRColor::Red);
    d.draw_pixel(1, 7, BWRColor::On);
    let (black, red) = d.get_fixed_buffer();
    assert_eq!(black[0], 0x7F);
    assert_eq!(red[0], 0x40);
    assert_eq!(black[1], 0xFE);
    assert_eq!(red[1], 0);
}

#[test]
fn unpacking_packed_planes_gives_framebuffer_back() {
    let mut d = BWRDisplay::new(20, 12, DisplayRotation::Rotate90, DisplayFlip::Vertical);
    for i in 0..240i32 {
        let color = match i % 3 {
            0 => BWRColor::Off,
            1 => BWRColor::On,
            _ => BWRColor::Red,
        };
        d.draw_pixel(i % 20, (i * 7) % 12, color);
    }
    let (black, red) = d.get_fixed_buffer();
    assert_eq!(&unpack(&black, &red), d.raw());
}

#[test]
fn clear_sets_every_pixel() {
    let mut d = BWRDisplay::new(8, 8, DisplayRotation::Zero, DisplayFlip::NoFlip);
    d.clear(BWRColor::Red);
    assert!(d.raw().iter().all(|p| *p == 2));
}

#[test]
fn canvas_starts_transparent_and_drops_off_canvas_writes() {
    let mut c = Canvas::new(4, 3);
    assert_eq!(c.size(), (4, 3));
    assert_eq!(c.get_pixel(0, 0), None);
    c.set_pixel(1, 2, BWRColor::On);
    c.set_pixel(4, 0, BWRColor::On);
    c.set_pixel(-1, 0, BWRColor::On);
    assert_eq!(c.get_pixel(1, 2), Some(BWRColor::On));
    assert_eq!(c.get_pixel(4, 0), None);
}

#[test]
fn placing_canvas_writes_painted_pixels_only() {
    let mut d = BWRDisplay::new(8, 8, DisplayRotation::Zero, DisplayFlip::NoFlip);
    d.clear(BWRColor::Red);
    let mut c = Canvas::new(2, 2);
    c.set_pixel(1, 0, BWRColor::Off);
    c.place_at(&mut d, 3, 4);
    assert_eq!(d.raw()[4 * 8 + 4], 0);
    assert_eq!(d.raw().iter().filter(|p| **p != 2).count(), 1);

    let mut e = BWRDisplay::new(8, 8, DisplayRotation::Zero, DisplayFlip::NoFlip);
    c.place_at(&mut e, -2, -1);
    assert!(e.raw().iter().all(|p| *p == 0));
}

#[test]
fn partial_buffer_cuts_a_region_of_a_plane() {
    let d = BWRDisplay::new(16, 16, DisplayRotation::Zero, DisplayFlip::NoFlip);
    let plane: Vec<u8> = (0..32u8).collect();
    assert_eq!(d.partial_buffer(&plane, 2, 8, 3, 8), vec![5, 7, 9]);
    assert_eq!(d.partial_buffer(&plane, 0, 0, 2, 16), vec![0, 1, 2, 3]);
}
