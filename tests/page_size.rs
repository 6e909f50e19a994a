use dangerzone_rs::{pixels_to_pdf, PageData};

#[test]
fn lib_test_page_size_calculation() {
    let width_pixels = 1500u16;
    let height_pixels = 2000u16;
    let dpi = 150.0f32;

    let width_mm = (width_pixels as f32) / dpi * 25.4;
    let height_mm = (height_pixels as f32) / dpi * 25.4;

    assert_eq!(width_mm, 254.0);
    assert_eq!(height_mm, 338.66666);
}

#[test]
fn main_test_page_size_calculation() {
    let width_pixels = 1500u16;
    let height_pixels = 2000u16;
    let dpi = 150.0f32;

    let width_mm = (width_pixels as f32) / dpi * 25.4;
    let height_mm = (height_pixels as f32) / dpi * 25.4;

    assert_eq!(width_mm, 254.0);
    assert_eq!(height_mm, 338.66666);
}

fn contains(hay: &[u8], needle: &str) -> bool {
    hay.windows(needle.len()).any(|w| w == needle.as_bytes())
}

fn media_box_of(width: u16, height: u16) -> Vec<u8> {
    let pixels = vec![0u8; (width as usize) * (height as usize) * 3];
    pixels_to_pdf(vec![PageData::new(width, height, pixels)]).unwrap()
}

#[test]
fn media_box_in_points_at_150_dpi() {
    let pdf = media_box_of(1500, 2000);
    assert!(contains(&pdf, "/MediaBox [0 0 720.00 960.00]\n"));
    assert!(contains(&pdf, "q\n720.00 0 0 960.00 0 0 cm\n/Im0 Do\nQ\n"));
}

#[test]
fn media_box_matches_float_formatting() {
    for (w, h) in [(1u16, 3u16), (7, 11), (333, 17), (1001, 1)] {
        let pdf = media_box_of(w, h);
        let wp = (w as f32) / 150.0 * 72.0;
        let hp = (h as f32) / 150.0 * 72.0;
        let expected = format!("/MediaBox [0 0 {wp:.2} {hp:.2}]\n");
        assert!(contains(&pdf, &expected), "{expected}");
    }
}

#[test]
fn media_box_of_zero_sized_page() {
    let pdf = media_box_of(0, 0);
    assert!(contains(&pdf, "/MediaBox [0 0 0.00 0.00]\n"));
    assert!(contains(&pdf, "/Width 0\n/Height 0\n"));
}
