use rasterbatch::encode::encode_pixels;
use rasterbatch::naming::{output_file_name, parse_format, usize_to_decimal, NameSuffix};
use rasterbatch::pixels::PixelBuffer;
use rasterbatch::OutputFormat;

#[test]
fn format_matching_is_case_insensitive() {
    assert_eq!(parse_format("png"), OutputFormat::Png);
    assert_eq!(parse_format("PNG"), OutputFormat::Png);
    assert_eq!(parse_format("Png"), OutputFormat::Png);
    assert_eq!(parse_format("jpg"), OutputFormat::Jpeg);
    assert_eq!(parse_format("jpeg"), OutputFormat::Jpeg);
    assert_eq!(parse_format(""), OutputFormat::Jpeg);
}

#[test]
fn decimal_rendering_is_exact() {
    assert_eq!(usize_to_decimal(0), "0");
    assert_eq!(usize_to_decimal(7), "7");
    assert_eq!(usize_to_decimal(10), "10");
    assert_eq!(usize_to_decimal(90210), "90210");
}

#[test]
fn single_output_takes_the_bare_name() {
    assert_eq!(
        output_file_name("out", "doc", NameSuffix::Plain, OutputFormat::Png),
        "out/doc.png"
    );
}

#[test]
fn multi_page_outputs_carry_their_page_number() {
    assert_eq!(
        output_file_name("out", "doc", NameSuffix::PageNumber(12), OutputFormat::Jpeg),
        "out/doc_page_12.jpg"
    );
}

#[test]
fn merged_output_is_marked_merged() {
    assert_eq!(
        output_file_name("/tmp/images", "report", NameSuffix::Merged, OutputFormat::Png),
        "/tmp/images/report_merged.png"
    );
}

fn gradient(width: u32, height: u32) -> PixelBuffer {
    let mut data = Vec::new();
    for y in 0..height {
        for x in 0..width {
            data.push((x * 40) as u8);
            data.push((y * 40) as u8);
            data.push(200);
            data.push(255);
        }
    }
    PixelBuffer::from_rgba(width, height, data).unwrap()
}

#[test]
fn png_stream_decodes_back_to_the_same_pixels() {
    let buf = gradient(3, 2);
    let bytes = encode_pixels(&buf, OutputFormat::Png, 80).unwrap();
    assert_eq!(&bytes[..8], &[0x89, b'P', b'N', b'G', 0x0d, 0x0a, 0x1a, 0x0a]);
    let decoded = image::load_from_memory(&bytes).unwrap().to_rgba8();
    assert_eq!(decoded.width(), 3);
    assert_eq!(decoded.height(), 2);
    assert_eq!(decoded.as_raw(), buf.pixel_data());
}

#[test]
fn jpeg_stream_has_the_right_dimensions() {
    let buf = gradient(4, 3);
    let bytes = encode_pixels(&buf, OutputFormat::Jpeg, 90).unwrap();
    assert_eq!(&bytes[..2], &[0xff, 0xd8]);
    let decoded = image::load_from_memory(&bytes).unwrap();
    assert_eq!(image::GenericImageView::width(&decoded), 4);
    assert_eq!(image::GenericImageView::height(&decoded), 3);
}

#[test]
fn zero_sized_canvas_cannot_be_encoded() {
    let buf = PixelBuffer::from_rgba(0, 0, Vec::new()).unwrap();
    assert!(encode_pixels(&buf, OutputFormat::Png, 80).is_err());
}

#[test]
fn quality_changes_the_lossy_stream() {
    let buf = gradient(16, 16);
    let low = encode_pixels(&buf, OutputFormat::Jpeg, 10).unwrap();
    let high = encode_pixels(&buf, OutputFormat::Jpeg, 95).unwrap();
    assert_ne!(low, high);
}
