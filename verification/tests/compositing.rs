use rasterbatch::compositor::try_compose;
use rasterbatch::pixels::PixelBuffer;
use rasterbatch::renderer::{validate_render_dimensions, RenderError};

fn solid(width: u32, height: u32, rgba: [u8; 4]) -> PixelBuffer {
    let mut data = Vec::new();
    for _ in 0..(width * height) {
        data.extend_from_slice(&rgba);
    }
    PixelBuffer::from_rgba(width, height, data).unwrap()
}

fn pixel(b: &PixelBuffer, x: u32, y: u32) -> [u8; 4] {
    let i = (4 * (y * b.width() + x)) as usize;
    let d = b.pixel_data();
    [d[i], d[i + 1], d[i + 2], d[i + 3]]
}

#[test]
fn canvas_width_is_maximum_of_inputs() {
    let bufs = vec![
        solid(100, 1, [1, 2, 3, 255]),
        solid(50, 1, [4, 5, 6, 255]),
        solid(80, 1, [7, 8, 9, 255]),
    ];
    let canvas = try_compose(&bufs).unwrap();
    assert_eq!(canvas.width(), 100);
    assert_eq!(canvas.height(), 3);
}

#[test]
fn canvas_height_adds_up_like_stacking_in_two_steps() {
    let a = solid(10, 2, [1, 0, 0, 255]);
    let b = solid(10, 3, [0, 1, 0, 255]);
    let c = solid(10, 5, [0, 0, 1, 255]);
    let whole = try_compose(&vec![
        solid(10, 2, [1, 0, 0, 255]),
        solid(10, 3, [0, 1, 0, 255]),
        solid(10, 5, [0, 0, 1, 255]),
    ])
    .unwrap();
    let first = try_compose(&vec![a, b]).unwrap();
    let offset = first.height();
    let appended = try_compose(&vec![first, c]).unwrap();
    assert_eq!(whole.height(), appended.height());
    assert_eq!(whole.height(), offset + 5);
}

#[test]
fn buffers_stack_top_to_bottom_left_aligned() {
    let bufs = vec![solid(2, 1, [10, 20, 30, 255]), solid(1, 2, [40, 50, 60, 255])];
    let canvas = try_compose(&bufs).unwrap();
    assert_eq!(canvas.width(), 2);
    assert_eq!(canvas.height(), 3);
    assert_eq!(pixel(&canvas, 0, 0), [10, 20, 30, 255]);
    assert_eq!(pixel(&canvas, 1, 0), [10, 20, 30, 255]);
    assert_eq!(pixel(&canvas, 0, 1), [40, 50, 60, 255]);
    assert_eq!(pixel(&canvas, 0, 2), [40, 50, 60, 255]);
}

#[test]
fn narrow_rows_leave_the_remainder_transparent() {
    let bufs = vec![solid(3, 1, [9, 9, 9, 255]), solid(1, 1, [7, 7, 7, 255])];
    let canvas = try_compose(&bufs).unwrap();
    assert_eq!(pixel(&canvas, 1, 1), [0, 0, 0, 0]);
    assert_eq!(pixel(&canvas, 2, 1), [0, 0, 0, 0]);
}

#[test]
fn zero_area_canvas_is_skipped() {
    let bufs = vec![solid(0, 3, [0, 0, 0, 0])];
    assert!(try_compose(&bufs).is_none());
}

#[test]
fn from_rgba_rejects_mismatched_length() {
    assert!(PixelBuffer::from_rgba(2, 2, vec![0; 15]).is_none());
    assert!(PixelBuffer::from_rgba(2, 2, vec![0; 16]).is_some());
}

#[test]
fn render_dimensions_must_be_positive() {
    assert_eq!(validate_render_dimensions(100, 200), Ok((100, 200)));
    assert_eq!(
        validate_render_dimensions(0, 200),
        Err(RenderError::InvalidDimensions)
    );
    assert_eq!(
        validate_render_dimensions(100, -3),
        Err(RenderError::InvalidDimensions)
    );
}
