use dangerzone_rs::{
    encode_pixel_stream, parse_pixel_data, read_u16_be, ConversionError, PageData, StreamField,
};

#[test]
fn lib_test_pixel_data_parsing() {
    let mut data = Vec::new();

    let page_count: u16 = 1;
    data.extend_from_slice(&page_count.to_be_bytes());

    let width: u16 = 100;
    let height: u16 = 50;
    data.extend_from_slice(&width.to_be_bytes());
    data.extend_from_slice(&height.to_be_bytes());

    let num_pixels = (width as usize) * (height as usize) * 3;
    data.extend(vec![128u8; num_pixels]);

    let result = parse_pixel_data(data);
    assert!(result.is_ok());

    let pages = result.unwrap();
    assert_eq!(pages.len(), 1);
    assert_eq!(pages[0].width, width);
    assert_eq!(pages[0].height, height);
    assert_eq!(pages[0].pixels.len(), num_pixels);
}

#[test]
fn main_test_pixel_data_parsing() {
    let mut data = Vec::new();

    let page_count: u16 = 1;
    data.extend_from_slice(&page_count.to_be_bytes());

    let width: u16 = 100;
    let height: u16 = 50;
    data.extend_from_slice(&width.to_be_bytes());
    data.extend_from_slice(&height.to_be_bytes());

    let num_pixels = (width as usize) * (height as usize) * 3;
    data.extend(vec![128u8; num_pixels]);

    let result = parse_pixel_data(data.clone());
    assert!(result.is_ok());

    let pages = result.unwrap();
    assert_eq!(pages.len(), 1);
    assert_eq!(pages[0].width, width);
    assert_eq!(pages[0].height, height);
    assert_eq!(pages[0].pixels.len(), num_pixels);
}

fn page(width: u16, height: u16, seed: u8) -> PageData {
    let n = (width as usize) * (height as usize) * 3;
    let pixels = (0..n).map(|i| (i as u8).wrapping_mul(31).wrapping_add(seed)).collect();
    PageData::new(width, height, pixels)
}

fn sample_pages() -> Vec<PageData> {
    vec![page(3, 2, 1), page(0, 7, 2), page(5, 0, 3), page(1, 1, 4), page(4, 4, 5)]
}

#[test]
fn round_trip_keeps_every_page() {
    for count in 0..=5 {
        let pages: Vec<PageData> = sample_pages().into_iter().take(count).collect();
        let stream = encode_pixel_stream(&pages);
        let decoded = parse_pixel_data(stream).unwrap();
        assert_eq!(decoded.len(), pages.len());
        for (a, b) in decoded.iter().zip(pages.iter()) {
            assert_eq!(a.width, b.width);
            assert_eq!(a.height, b.height);
            assert_eq!(a.pixels, b.pixels);
        }
    }
}

#[test]
fn encoded_stream_layout() {
    let stream = encode_pixel_stream(&[page(1, 1, 9), page(0, 258, 0)]);
    assert_eq!(&stream[0..2], &[0, 2]);
    assert_eq!(&stream[2..6], &[0, 1, 0, 1]);
    assert_eq!(&stream[6..9], &[9, 40, 71]);
    assert_eq!(&stream[9..13], &[0, 0, 1, 2]);
    assert_eq!(stream.len(), 13);
}

#[test]
fn every_strict_prefix_is_truncated() {
    let stream = encode_pixel_stream(&sample_pages());
    for cut in 0..stream.len() {
        match parse_pixel_data(stream[..cut].to_vec()) {
            Err(ConversionError::TruncatedStream { .. }) => {}
            other => panic!("prefix of {cut} bytes gave {other:?}"),
        }
    }
    assert!(parse_pixel_data(stream).is_ok());
}

#[test]
fn truncated_page_count() {
    assert_eq!(
        parse_pixel_data(vec![]).unwrap_err(),
        ConversionError::TruncatedStream { field: StreamField::PageCount, expected: 2, available: 0 }
    );
    assert_eq!(
        parse_pixel_data(vec![0]).unwrap_err(),
        ConversionError::TruncatedStream { field: StreamField::PageCount, expected: 2, available: 1 }
    );
}

#[test]
fn truncated_width_height_and_pixels() {
    assert_eq!(
        parse_pixel_data(vec![0, 1, 0]).unwrap_err(),
        ConversionError::TruncatedStream { field: StreamField::Width(0), expected: 2, available: 1 }
    );
    assert_eq!(
        parse_pixel_data(vec![0, 1, 0, 2, 0]).unwrap_err(),
        ConversionError::TruncatedStream { field: StreamField::Height(0), expected: 2, available: 1 }
    );
    assert_eq!(
        parse_pixel_data(vec![0, 1, 0, 2, 0, 3, 1, 2, 3]).unwrap_err(),
        ConversionError::TruncatedStream { field: StreamField::Pixels(0), expected: 18, available: 3 }
    );
    let mut two = encode_pixel_stream(&[page(1, 1, 0)]);
    two[1] = 2;
    assert_eq!(
        parse_pixel_data(two).unwrap_err(),
        ConversionError::TruncatedStream { field: StreamField::Width(1), expected: 2, available: 0 }
    );
}

#[test]
fn huge_declared_page_is_truncated_not_allocated() {
    let data = vec![0, 1, 0xFF, 0xFF, 0xFF, 0xFF, 1, 2, 3];
    assert_eq!(
        parse_pixel_data(data).unwrap_err(),
        ConversionError::TruncatedStream {
            field: StreamField::Pixels(0),
            expected: 65535u64 * 65535 * 3,
            available: 3,
        }
    );
}

#[test]
fn trailing_bytes_are_ignored() {
    let mut data = encode_pixel_stream(&[page(1, 1, 0)]);
    data.extend_from_slice(&[7, 7, 7]);
    let pages = parse_pixel_data(data).unwrap();
    assert_eq!(pages.len(), 1);
    assert_eq!(pages[0].pixels, vec![0, 31, 62]);
}

#[test]
fn zero_pages_decode_to_nothing() {
    assert_eq!(parse_pixel_data(vec![0, 0]).unwrap().len(), 0);
}

#[test]
fn read_u16_be_reads_big_endian() {
    assert_eq!(read_u16_be(&[0x12, 0x34]), Some(0x1234));
    assert_eq!(read_u16_be(&[0xFF, 0xFE, 0x00]), Some(0xFFFE));
    assert_eq!(read_u16_be(&[0x12]), None);
    assert_eq!(read_u16_be(&[]), None);
}
