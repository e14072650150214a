use embedded_graphics::pixelcolor::raw::{RawData, RawU2};
use embedded_graphics::pixelcolor::{Rgb565, RgbColor};
use tagdriver::color::BWRColor;

#[test]
fn default_color_is_off() {
    assert_eq!(BWRColor::default(), BWRColor::Off);
}

#[test]
fn invert_binary_color() {
    assert_eq!(BWRColor::Off.invert(), BWRColor::On);
    assert_eq!(BWRColor::On.invert(), BWRColor::Off);
}

#[test]
fn invert_red_is_off() {
    assert_eq!(BWRColor::Red.invert(), BWRColor::Off);
}

#[test]
fn map_binary_color() {
    assert_eq!(
        BWRColor::Off.map_color(Rgb565::BLUE, Rgb565::GREEN, Rgb565::RED),
        Rgb565::BLUE
    );
    assert_eq!(
        BWRColor::On.map_color(Rgb565::BLUE, Rgb565::GREEN, Rgb565::RED),
        Rgb565::GREEN
    );
    assert_eq!(
        BWRColor::Red.map_color(Rgb565::BLUE, Rgb565::GREEN, Rgb565::RED),
        Rgb565::RED
    );
}

#[test]
fn from_data() {
    assert_eq!(BWRColor::from_storage(RawU2::new(0).into_inner()), BWRColor::Off);
    assert_eq!(BWRColor::from_storage(RawU2::new(1).into_inner()), BWRColor::On);
    assert_eq!(BWRColor::from_storage(RawU2::new(2).into_inner()), BWRColor::Red);
}

#[test]
fn into_data() {
    assert_eq!(RawU2::new(BWRColor::Off.into_storage()).into_inner(), 0);
    assert_eq!(RawU2::new(BWRColor::On.into_storage()).into_inner(), 1);
    assert_eq!(RawU2::new(BWRColor::Red.into_storage()).into_inner(), 2);
}

#[test]
fn from_bool() {
    assert_eq!(BWRColor::from_bool(false), BWRColor::Off);
    assert_eq!(BWRColor::from_bool(true), BWRColor::On);
}

#[test]
fn is_on_off() {
    assert!(BWRColor::Off.is_off());
    assert!(!BWRColor::On.is_off());
    assert!(!BWRColor::Red.is_off());

    assert!(!BWRColor::Off.is_on());
    assert!(BWRColor::On.is_on());
    assert!(BWRColor::Red.is_on());
}

#[test]
fn into_storage() {
    assert_eq!(BWRColor::Off.into_storage(), 0u8);
    assert_eq!(BWRColor::On.into_storage(), 1u8);
    assert_eq!(BWRColor::Red.into_storage(), 2u8);
}

#[test]
fn storage_above_two_reads_as_red() {
    assert_eq!(BWRColor::from_storage(7), BWRColor::Red);
}

#[test]
fn rgb_colours_map_to_panel_colours() {
    assert_eq!(BWRColor::from_rgb(255, 0, 0), BWRColor::Red);
    assert_eq!(BWRColor::from_rgb(255, 255, 255), BWRColor::On);
    assert_eq!(BWRColor::from_rgb(0, 0, 0), BWRColor::Off);
    assert_eq!(BWRColor::from_rgb(10, 200, 30), BWRColor::Off);
}

#[test]
fn image_levels_map_to_panel_colours() {
    assert_eq!(BWRColor::from_image_levels(200, 50), BWRColor::Red);
    assert_eq!(BWRColor::from_image_levels(200, 200), BWRColor::On);
    assert_eq!(BWRColor::from_image_levels(10, 200), BWRColor::On);
    assert_eq!(BWRColor::from_image_levels(128, 10), BWRColor::Off);
    assert_eq!(BWRColor::from_image_levels(0, 128), BWRColor::Off);
}
