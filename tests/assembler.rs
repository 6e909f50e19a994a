use std::io::{Cursor, Read};

use dangerzone_rs::{
    assemble_pdf, compress_pages, parse_pixel_data, pixels_to_pdf, write_pdf, ConversionError,
    PageData,
};

#[test]
fn test_pdf_generation() {
    let width = 10u16;
    let height = 10u16;
    let mut pixels = Vec::new();

    for _ in 0..(width * height) {
        pixels.push(255);
        pixels.push(0);
        pixels.push(0);
    }

    let page = PageData {
        width,
        height,
        pixels,
    };
    let pages = vec![page];

    let mut buffer = Cursor::new(Vec::new());
    let result = write_pdf(buffer.get_mut(), &pages);
    assert!(result.is_ok(), "PDF generation should succeed");

    let pdf_data = buffer.into_inner();
    assert!(!pdf_data.is_empty(), "PDF should have data");

    let header = String::from_utf8_lossy(&pdf_data[0..9]);
    assert!(
        header.starts_with("%PDF-1.4"),
        "PDF should have correct header"
    );

    let trailer = String::from_utf8_lossy(&pdf_data);
    assert!(trailer.contains("%%EOF"), "PDF should have EOF marker");
    assert!(
        trailer.contains("/Type /Catalog"),
        "PDF should have catalog"
    );
    assert!(trailer.contains("/Type /Pages"), "PDF should have pages");
    assert!(
        trailer.contains("/Type /Page"),
        "PDF should have page object"
    );
    assert!(
        trailer.contains("/Type /XObject"),
        "PDF should have image object"
    );

    assert!(
        trailer.contains("/Filter /FlateDecode"),
        "PDF should use Flate compression for images"
    );
}

#[test]
fn test_pdf_compression_reduces_size() {
    let width = 100u16;
    let height = 100u16;
    let mut pixels = Vec::new();

    for _ in 0..(width * height) {
        pixels.push(255);
        pixels.push(0);
        pixels.push(0);
    }

    let page = PageData {
        width,
        height,
        pixels: pixels.clone(),
    };
    let pages = vec![page];

    let mut buffer = Cursor::new(Vec::new());
    let result = write_pdf(buffer.get_mut(), &pages);
    assert!(result.is_ok(), "PDF generation should succeed");

    let pdf_data = buffer.into_inner();

    let uncompressed_pixel_size = pixels.len();
    assert_eq!(uncompressed_pixel_size, 30000);

    let estimated_uncompressed_pdf_size = uncompressed_pixel_size + 1000;

    println!("PDF size with compression: {} bytes", pdf_data.len());
    println!("Estimated uncompressed size: {estimated_uncompressed_pdf_size} bytes");
    println!(
        "Compression ratio: {:.2}%",
        (pdf_data.len() as f32 / estimated_uncompressed_pdf_size as f32) * 100.0
    );

    assert!(
        pdf_data.len() < estimated_uncompressed_pdf_size / 2,
        "PDF with compression should be significantly smaller than uncompressed"
    );
}

fn find(hay: &[u8], needle: &[u8], from: usize) -> Option<usize> {
    if needle.len() > hay.len() {
        return None;
    }
    (from..=hay.len() - needle.len()).find(|&i| &hay[i..i + needle.len()] == needle)
}

fn count(hay: &[u8], needle: &str) -> usize {
    hay.windows(needle.len()).filter(|w| *w == needle.as_bytes()).count()
}

fn uniform_page(width: u16, height: u16, rgb: [u8; 3]) -> PageData {
    let mut pixels = Vec::new();
    for _ in 0..(width as usize) * (height as usize) {
        pixels.extend_from_slice(&rgb);
    }
    PageData::new(width, height, pixels)
}

fn text_between(pdf: &[u8], start: &str, end: &str) -> String {
    let a = find(pdf, start.as_bytes(), 0).unwrap() + start.len();
    let b = find(pdf, end.as_bytes(), a).unwrap();
    String::from_utf8(pdf[a..b].to_vec()).unwrap()
}

/// The offsets that the cross-reference table records, object 1 first.
fn xref_offsets(pdf: &[u8]) -> Vec<usize> {
    let start: usize = text_between(pdf, "startxref\n", "\n").parse().unwrap();
    assert_eq!(&pdf[start..start + 5], b"xref\n");
    let size: usize = text_between(&pdf[start..], "xref\n0 ", "\n").parse().unwrap();
    let head = start + "xref\n0 ".len() + size.to_string().len() + 1;
    assert_eq!(&pdf[head..head + 20], b"0000000000 65535 f \n");
    (1..size)
        .map(|n| {
            let line = &pdf[head + 20 * n..head + 20 * n + 20];
            assert_eq!(&line[10..], b" 00000 n \n");
            std::str::from_utf8(&line[..10]).unwrap().parse().unwrap()
        })
        .collect()
}

#[test]
fn empty_document_writes_nothing() {
    let mut sink = vec![1u8, 2, 3];
    assert_eq!(write_pdf(&mut sink, &[]), Err(ConversionError::EmptyDocument));
    assert_eq!(sink, vec![1, 2, 3]);
    assert_eq!(pixels_to_pdf(vec![]), Err(ConversionError::EmptyDocument));
    assert_eq!(assemble_pdf(&[], &[]), Err(ConversionError::EmptyDocument));
}

#[test]
fn write_pdf_appends_to_the_sink() {
    let pages = vec![uniform_page(2, 2, [1, 2, 3])];
    let mut sink = b"prefix".to_vec();
    write_pdf(&mut sink, &pages).unwrap();
    assert_eq!(&sink[..6], b"prefix");
    assert_eq!(&sink[6..], &pixels_to_pdf(pages).unwrap()[..]);
}

#[test]
fn xref_offsets_point_at_object_headers() {
    for n in 1..=4u16 {
        let pages: Vec<PageData> = (0..n).map(|i| uniform_page(3 + i, 2, [i as u8, 9, 200])).collect();
        let pdf = pixels_to_pdf(pages).unwrap();
        let offsets = xref_offsets(&pdf);
        assert_eq!(offsets.len(), 2 + 3 * n as usize);
        for (k, off) in offsets.iter().enumerate() {
            let header = format!("{} 0 obj\n", k + 1);
            assert_eq!(&pdf[*off..*off + header.len()], header.as_bytes());
        }
        let size = format!("/Size {}\n", offsets.len() + 1);
        assert_eq!(count(&pdf, &size), 1);
        assert!(pdf.ends_with(b"%%EOF\n"));
    }
}

#[test]
fn uniform_page_compresses_well() {
    let pdf = pixels_to_pdf(vec![uniform_page(100, 100, [255, 0, 0])]).unwrap();
    let length: usize = text_between(&pdf, "/Filter /FlateDecode\n/Length ", "\n").parse().unwrap();
    assert!(length < 15000, "{length}");
    let streams = compress_pages(&[uniform_page(100, 100, [255, 0, 0])]);
    assert_eq!(streams[0].len(), length);
}

#[test]
fn image_stream_inflates_to_the_samples() {
    let page = PageData::new(2, 1, vec![10, 20, 30, 40, 50, 60]);
    let streams = compress_pages(&[page.clone()]);
    assert_ne!(streams[0], page.pixels);
    let mut inflated = Vec::new();
    flate2::read::ZlibDecoder::new(&streams[0][..]).read_to_end(&mut inflated).unwrap();
    assert_eq!(inflated, page.pixels);
    let pdf = pixels_to_pdf(vec![page]).unwrap();
    let at = find(&pdf, b"stream\n", 0).unwrap() + 7;
    assert_eq!(&pdf[at..at + streams[0].len()], &streams[0][..]);
}

#[test]
fn gray_page_from_the_wire() {
    let mut data = vec![0x00, 0x01, 0x00, 0x64, 0x00, 0x32];
    data.extend(vec![0x80u8; 9600]);
    let result = parse_pixel_data(data);
    let Err(ConversionError::TruncatedStream { expected, available, .. }) = result else {
        panic!("a 100x50 page needs 15000 sample bytes");
    };
    assert_eq!((expected, available), (15000, 9600));

    let mut data = vec![0x00, 0x01, 0x00, 0x64, 0x00, 0x32];
    data.extend(vec![0x80u8; 15000]);
    let pages = parse_pixel_data(data).unwrap();
    assert_eq!(pages.len(), 1);
    assert_eq!((pages[0].width, pages[0].height, pages[0].pixels.len()), (100, 50, 15000));
    let pdf = pixels_to_pdf(pages).unwrap();
    assert!(pdf.starts_with(b"%PDF-1.4\n"));
    assert_eq!(&pdf[9..15], &[b'%', 0xE2, 0xE3, 0xCF, 0xD3, b'\n']);
    assert_eq!(count(&pdf, "%%EOF"), 1);
    assert_eq!(count(&pdf, "/Type /Catalog\n"), 1);
    assert_eq!(count(&pdf, "/Type /Pages\n"), 1);
    assert_eq!(count(&pdf, "/Type /Page\n"), 1);
    assert_eq!(count(&pdf, "/Type /XObject\n"), 1);
    assert_eq!(count(&pdf, "/Filter /FlateDecode\n"), 1);
}

#[test]
fn two_pages_are_numbered_in_emission_order() {
    let pages = vec![uniform_page(4, 3, [0, 0, 0]), uniform_page(6, 5, [255, 255, 255])];
    let pdf = pixels_to_pdf(pages).unwrap();
    assert_eq!(count(&pdf, "/Kids [3 0 R 5 0 R ]\n/Count 2\n"), 1);
    let page0 = find(&pdf, b"3 0 obj\n", 0).unwrap();
    let page1 = find(&pdf, b"5 0 obj\n", 0).unwrap();
    assert_eq!(text_between(&pdf[page0..], "/Contents ", "\n"), "7 0 R");
    assert_eq!(text_between(&pdf[page1..], "/Contents ", "\n"), "8 0 R");
    assert_eq!(text_between(&pdf[page0..], "/XObject << ", " >>"), "/Im0 4 0 R");
    assert_eq!(text_between(&pdf[page1..], "/XObject << ", " >>"), "/Im1 6 0 R");
    let content1 = find(&pdf, b"8 0 obj\n", 0).unwrap();
    let program = "q\n2.88 0 0 2.40 0 0 cm\n/Im1 Do\nQ\n";
    assert_eq!(
        text_between(&pdf[content1..], "/Length ", "\n"),
        program.len().to_string()
    );
    assert_eq!(count(&pdf[content1..], program), 1);
    assert_eq!(count(&pdf, "/Size 9\n"), 1);
}

#[test]
fn catalog_and_page_tree_bytes() {
    let pdf = pixels_to_pdf(vec![uniform_page(1, 1, [0, 0, 0])]).unwrap();
    let expected = "1 0 obj\n<<\n/Type /Catalog\n/Pages 2 0 R\n>>\nendobj\n\
                    2 0 obj\n<<\n/Type /Pages\n/Kids [3 0 R ]\n/Count 1\n>>\nendobj\n\
                    3 0 obj\n<<\n/Type /Page\n/Parent 2 0 R\n/MediaBox [0 0 0.48 0.48]\n\
                    /Resources <<\n  /XObject << /Im0 4 0 R >>\n>>\n/Contents 5 0 R\n>>\nendobj\n\
                    4 0 obj\n<<\n/Type /XObject\n/Subtype /Image\n/Width 1\n/Height 1\n\
                    /ColorSpace /DeviceRGB\n/BitsPerComponent 8\n/Filter /FlateDecode\n/Length ";
    assert_eq!(&pdf[15..15 + expected.len()], expected.as_bytes());
}
