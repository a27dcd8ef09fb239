use video_to_ascii::render::{draw_ascii_image, draw_ascii_video, ColorMode, PixelGrid};

fn solid(width: u32, height: u32, r: u8, g: u8, b: u8) -> PixelGrid {
    let mut data = Vec::new();
    for _ in 0..(width * height) {
        data.extend_from_slice(&[r, g, b, 255]);
    }
    PixelGrid::new(width, height, data).unwrap()
}

#[test]
fn grid_rejects_wrong_length() {
    assert!(PixelGrid::new(2, 2, vec![0; 15]).is_none());
    assert!(PixelGrid::new(2, 2, vec![0; 16]).is_some());
    assert!(PixelGrid::new(0, 5, vec![]).is_some());
}

#[test]
fn image_row_counts() {
    for (h, rows) in [(1u32, 1usize), (10, 5), (199, 100), (200, 100), (400, 100), (401, 101), (600, 100)] {
        let text = draw_ascii_image(&solid(1, h, 0, 0, 0), ColorMode::NoColor);
        assert_eq!(text.matches('\n').count(), rows, "height {}", h);
    }
}

#[test]
fn solid_red_four_by_four() {
    let text = draw_ascii_image(&solid(4, 4, 255, 0, 0), ColorMode::NoColor);
    assert_eq!(text, "gg\ngg\n");
}

#[test]
fn solid_rows_repeat_one_glyph() {
    let text = draw_ascii_image(&solid(9, 7, 0, 255, 0), ColorMode::NoColor);
    for line in text.lines() {
        assert_eq!(line, "%%%%%");
    }
    assert_eq!(text.lines().count(), 4);
    let wide = draw_ascii_image(&solid(1000, 400, 255, 255, 255), ColorMode::NoColor);
    for line in wide.lines() {
        assert_eq!(line, "#".repeat(250));
    }
}

#[test]
fn image_without_color_has_no_escape() {
    let mut data = Vec::new();
    for i in 0..(6 * 6) {
        data.extend_from_slice(&[(i * 7) as u8, (i * 13) as u8, (i * 29) as u8, 0]);
    }
    let text = draw_ascii_image(&PixelGrid::new(6, 6, data).unwrap(), ColorMode::NoColor);
    assert!(!text.contains('\x1B'));
    assert_eq!(text.lines().count(), 3);
}

#[test]
fn image_foreground_escapes() {
    let text = draw_ascii_image(&solid(2, 2, 7, 42, 200), ColorMode::Foreground);
    assert_eq!(text, "\x1B[38;2;7;42;200m=\x1B[38;2;255;255;255m\n");
}

#[test]
fn image_background_escapes() {
    let text = draw_ascii_image(&solid(3, 1, 255, 0, 10), ColorMode::Background);
    assert_eq!(
        text,
        "\x1B[48;2;255;0;10m \x1B[48;2;255;0;10m \x1B[38;2;255;255;255;48;2;0;0;0m\n"
    );
}

#[test]
fn image_of_zero_width() {
    let text = draw_ascii_image(&PixelGrid::new(0, 3, vec![]).unwrap(), ColorMode::NoColor);
    assert_eq!(text, "\n\n");
}

#[test]
fn video_samples_every_fourth_row() {
    let mut frame = Vec::new();
    for row in 0..9u8 {
        for _ in 0..3 {
            frame.extend_from_slice(&[row * 30, row * 30, row * 30, 0]);
        }
    }
    let text = draw_ascii_video(&frame, 3, ColorMode::NoColor);
    assert_eq!(text, "   \nggg\n###\n");
}

#[test]
fn video_partial_last_row() {
    let frame = vec![255u8; 4 * 5];
    let text = draw_ascii_video(&frame, 3, ColorMode::NoColor);
    assert_eq!(text, "###\n");
    let frame = vec![255u8; 4 * 2];
    assert_eq!(draw_ascii_video(&frame, 3, ColorMode::NoColor), "##");
}

#[test]
fn video_color_modes() {
    let frame = vec![1u8, 2, 3, 4, 250, 251, 252, 253];
    assert_eq!(
        draw_ascii_video(&frame, 2, ColorMode::Foreground),
        "\x1B[38;2;1;2;3m \x1B[38;2;250;251;252m#\x1B[38;2;255;255;255m\n"
    );
    assert_eq!(
        draw_ascii_video(&frame, 2, ColorMode::Background),
        "\x1B[48;2;1;2;3m \x1B[48;2;250;251;252m \x1B[38;2;255;255;255;48;2;0;0;0m\n"
    );
    assert!(!draw_ascii_video(&frame, 2, ColorMode::NoColor).contains('\x1B'));
}
