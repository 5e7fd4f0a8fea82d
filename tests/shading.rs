use raytrace::integrator::{ray_step, Outcome, Step};
use raytrace::material::{scatters, MaterialKind};
use raytrace::order::Key;
use raytrace::raster::{pixel_count, raster_pixel, Pixel};
use raytrace::tone::clamp_channel;

fn alignment(v: f32) -> Option<Key> {
    Key::from_bits(v.to_bits())
}

#[test]
fn lambertian_always_scatters() {
    for v in [1.0f32, 0.0, -1.0, f32::NAN] {
        assert!(scatters(MaterialKind::Lambertian, alignment(v)));
    }
}

#[test]
fn metal_absorbs_grazing_reflection() {
    assert!(!scatters(MaterialKind::Metal, alignment(-0.01)));
    assert!(!scatters(MaterialKind::Metal, alignment(0.0)));
    assert!(!scatters(MaterialKind::Metal, alignment(f32::NAN)));
    assert!(scatters(MaterialKind::Metal, alignment(0.3)));
}

#[test]
fn no_depth_left_gives_black() {
    for traced in [None, Some(Outcome::Miss), Some(Outcome::Scattered), Some(Outcome::Absorbed)] {
        assert_eq!(ray_step(0, traced), Step::Black);
        assert_eq!(ray_step(-4, traced), Step::Black);
    }
}

#[test]
fn ray_steps_with_depth_left() {
    assert_eq!(ray_step(50, None), Step::Trace);
    assert_eq!(ray_step(50, Some(Outcome::Miss)), Step::Background);
    assert_eq!(ray_step(50, Some(Outcome::Scattered)), Step::Follow(49));
    assert_eq!(ray_step(1, Some(Outcome::Scattered)), Step::Follow(0));
    assert_eq!(ray_step(50, Some(Outcome::Absorbed)), Step::Black);
}

#[test]
fn raster_order_starts_at_top_left() {
    assert_eq!(pixel_count(400, 225), 90000);
    assert_eq!(raster_pixel(0, 400, 225), Pixel { x: 0, y: 224 });
    assert_eq!(raster_pixel(399, 400, 225), Pixel { x: 399, y: 224 });
    assert_eq!(raster_pixel(400, 400, 225), Pixel { x: 0, y: 223 });
    assert_eq!(raster_pixel(89999, 400, 225), Pixel { x: 399, y: 0 });
}

#[test]
fn pixel_count_of_largest_image() {
    assert_eq!(pixel_count(u32::MAX, u32::MAX), (u32::MAX as u64) * (u32::MAX as u64));
    assert_eq!(pixel_count(0, 225), 0);
}

#[test]
fn channel_clamped_to_display_range() {
    let lo = Key::from_bits(0.0f32.to_bits()).unwrap();
    let hi = Key::from_bits(0.999f32.to_bits()).unwrap();
    let c = |v: f32| f32::from_bits(clamp_channel(Key::from_bits(v.to_bits()), lo, hi).to_bits());
    assert_eq!(c(0.5), 0.5);
    assert_eq!(c(1.5), 0.999);
    assert_eq!(c(-0.25), 0.0);
    assert_eq!(c(f32::NAN), 0.0);
    assert_eq!(c(f32::INFINITY), 0.999);
}

#[test]
fn gamma_of_quarter_intensity_is_half_scale() {
    let lo = Key::from_bits(0.0f32.to_bits()).unwrap();
    let hi = Key::from_bits(0.999f32.to_bits()).unwrap();
    let samples_per_pixel: u32 = 100;
    let sum = samples_per_pixel as f32 * 0.25;
    let s = (sum / samples_per_pixel as f32).sqrt();
    let clamped = f32::from_bits(clamp_channel(Key::from_bits(s.to_bits()), lo, hi).to_bits());
    assert_eq!((clamped * 256.0) as u32, 128);
}
