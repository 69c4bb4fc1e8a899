use vtracer_webapp::keying::{
    apply, color_exists, find_unused_color, key_transparent, should_key, PixelBuffer, Rgba,
};

fn image(width: usize, height: usize, pixels: &[[u8; 4]]) -> PixelBuffer {
    let mut bytes: Vec<u8> = Vec::new();
    for p in pixels {
        bytes.extend_from_slice(p);
    }
    PixelBuffer::from_bytes(&bytes, width, height).unwrap()
}

fn uniform(width: usize, height: usize, p: [u8; 4]) -> PixelBuffer {
    image(width, height, &vec![p; width * height])
}

const WHITE: [u8; 4] = [255, 255, 255, 255];
const CLEAR: [u8; 4] = [9, 9, 9, 0];

#[test]
fn from_bytes_checks_the_length() {
    assert!(PixelBuffer::from_bytes(&[0u8; 15], 2, 2).is_none());
    assert!(PixelBuffer::from_bytes(&[0u8; 17], 2, 2).is_none());
    let img = PixelBuffer::from_bytes(&[7u8; 16], 2, 2).unwrap();
    assert_eq!(img.width, 2);
    assert_eq!(img.height, 2);
    assert_eq!(img.pixels, vec![7u8; 16]);
    assert!(PixelBuffer::from_bytes(&[], usize::MAX, 2).is_none());
}

#[test]
fn get_pixel_is_row_major() {
    let img = image(2, 2, &[[1, 2, 3, 4], [5, 6, 7, 8], [9, 10, 11, 12], [13, 14, 15, 16]]);
    assert_eq!(img.get_pixel(1, 0), Rgba { r: 5, g: 6, b: 7, a: 8 });
    assert_eq!(img.get_pixel(0, 1), Rgba { r: 9, g: 10, b: 11, a: 12 });
}

#[test]
fn should_key_is_false_without_pixels() {
    assert!(!should_key(&PixelBuffer::from_bytes(&[], 0, 0).unwrap()));
    assert!(!should_key(&PixelBuffer::from_bytes(&[], 0, 5).unwrap()));
    assert!(!should_key(&PixelBuffer::from_bytes(&[], 5, 0).unwrap()));
}

#[test]
fn should_key_threshold_is_two_fifths_of_the_width() {
    // 10 wide, 5 high: the five sampled rows are the five rows; threshold 4.
    let mut pixels = vec![WHITE; 50];
    pixels[0] = CLEAR;
    pixels[13] = CLEAR;
    pixels[27] = CLEAR;
    assert!(!should_key(&image(10, 5, &pixels)));
    pixels[49] = CLEAR;
    assert!(should_key(&image(10, 5, &pixels)));
}

#[test]
fn should_key_counts_a_row_as_often_as_it_is_sampled() {
    // 10 wide, 1 high: row 0 is sampled five times, so one pixel counts five times.
    let mut pixels = vec![WHITE; 10];
    assert!(!should_key(&image(10, 1, &pixels)));
    pixels[3] = CLEAR;
    assert!(should_key(&image(10, 1, &pixels)));
}

#[test]
fn should_key_ignores_rows_that_are_not_sampled() {
    // 10 wide, 9 high: rows 0, 2, 4, 6, 8 are sampled.
    let mut pixels = vec![WHITE; 90];
    for x in 0..10 {
        pixels[10 + x] = CLEAR;
        pixels[30 + x] = CLEAR;
    }
    assert!(!should_key(&image(10, 9, &pixels)));
    for x in 0..4 {
        pixels[60 + x] = CLEAR;
    }
    assert!(should_key(&image(10, 9, &pixels)));
}

#[test]
fn should_key_needs_a_transparent_pixel_when_the_threshold_is_zero() {
    assert!(!should_key(&uniform(2, 5, WHITE)));
    let mut pixels = vec![WHITE; 10];
    pixels[9] = CLEAR;
    assert!(should_key(&image(2, 5, &pixels)));
}

#[test]
fn color_exists_ignores_alpha() {
    let img = image(2, 1, &[[1, 2, 3, 0], [4, 5, 6, 255]]);
    assert!(color_exists(&img, Rgba { r: 1, g: 2, b: 3, a: 255 }));
    assert!(color_exists(&img, Rgba { r: 4, g: 5, b: 6, a: 0 }));
    assert!(!color_exists(&img, Rgba { r: 1, g: 2, b: 6, a: 255 }));
}

#[test]
fn find_unused_color_takes_the_first_free_candidate() {
    let img = image(3, 1, &[[255, 0, 0, 255], [0, 255, 0, 17], [255, 255, 0, 255]]);
    assert_eq!(find_unused_color(&img), Ok(Rgba { r: 0, g: 0, b: 255, a: 255 }));
    assert_eq!(find_unused_color(&uniform(2, 2, WHITE)), Ok(Rgba::new(255, 0, 0)));
}

fn all_candidates() -> Vec<[u8; 4]> {
    vec![
        [255, 0, 0, 255],
        [0, 255, 0, 255],
        [0, 0, 255, 255],
        [255, 255, 0, 255],
        [0, 255, 255, 255],
        [255, 0, 255, 255],
        [128, 128, 128, 0],
        [1, 1, 1, 0],
    ]
}

#[test]
fn find_unused_color_fails_when_all_candidates_are_used() {
    let img = image(8, 1, &all_candidates());
    assert_eq!(
        find_unused_color(&img),
        Err(String::from("unable to find unused color in image to use as key"))
    );
}

#[test]
fn keying_is_given_up_silently_when_all_candidates_are_used() {
    let mut img = image(8, 1, &all_candidates());
    assert!(should_key(&img));
    let before = img.pixels.clone();
    let key = key_transparent(&mut img);
    assert_eq!(key, Rgba { r: 0, g: 0, b: 0, a: 0 });
    assert_eq!(img.pixels, before);
}

#[test]
fn an_opaque_image_is_not_keyed() {
    let mut img = uniform(4, 4, WHITE);
    let key = key_transparent(&mut img);
    assert_eq!(key, Rgba::transparent_black());
    assert_eq!(img.pixels, uniform(4, 4, WHITE).pixels);
}

#[test]
fn apply_recolors_transparent_pixels_only() {
    let mut img = image(3, 1, &[[1, 2, 3, 0], [4, 5, 6, 1], [7, 8, 9, 0]]);
    apply(&mut img, Rgba { r: 50, g: 60, b: 70, a: 255 });
    assert_eq!(img.pixels, vec![50, 60, 70, 255, 4, 5, 6, 1, 50, 60, 70, 255]);
    assert_eq!((img.width, img.height), (3, 1));
}

#[test]
fn apply_twice_is_apply_once() {
    for key in [Rgba::new(255, 0, 0), Rgba { r: 3, g: 4, b: 5, a: 0 }] {
        let mut img = image(3, 1, &[[1, 2, 3, 0], [4, 5, 6, 1], [7, 8, 9, 0]]);
        apply(&mut img, key);
        let once = img.pixels.clone();
        apply(&mut img, key);
        assert_eq!(img.pixels, once);
    }
}

#[test]
fn a_transparent_two_by_two_image_is_keyed_with_the_first_candidate() {
    let mut img = uniform(2, 2, [0, 0, 0, 0]);
    assert!(should_key(&img));
    let key = find_unused_color(&img).unwrap();
    assert_eq!(key, Rgba { r: 255, g: 0, b: 0, a: 255 });
    apply(&mut img, key);
    assert_eq!(img.pixels, vec![255, 0, 0, 255, 255, 0, 0, 255, 255, 0, 0, 255, 255, 0, 0, 255]);
    let mut again = uniform(2, 2, [0, 0, 0, 0]);
    assert_eq!(key_transparent(&mut again), key);
    assert_eq!(again.pixels, img.pixels);
}

#[test]
fn copy_of_keeps_bytes_and_size() {
    let img = PixelBuffer::copy_of(&[1, 2, 3, 4, 5, 6, 7, 8], 1, 2);
    assert_eq!((img.width, img.height), (1, 2));
    assert_eq!(img.pixels, vec![1, 2, 3, 4, 5, 6, 7, 8]);
    assert_eq!(Rgba::new(1, 2, 3), Rgba { r: 1, g: 2, b: 3, a: 255 });
}
