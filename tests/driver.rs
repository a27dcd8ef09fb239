use video_to_ascii::camera::{camera_step, CameraAction, CameraEvent, FRAME_PAUSE_MS};
use video_to_ascii::cli::{parse_args, Command, Source};
use video_to_ascii::render::ColorMode;

fn args(list: &[&str]) -> Vec<String> {
    list.iter().map(|s| s.to_string()).collect()
}

fn assert_render(cmd: &Command, source: Source, path: &str, mode: ColorMode) {
    match cmd {
        Command::Render { source: s, path: p, mode: m } => {
            assert_eq!(*s, source);
            assert_eq!(p, path);
            assert_eq!(*m, mode);
        }
        other => panic!("expected a render command, got {:?}", other),
    }
}

#[test]
fn no_arguments_prints_help() {
    let inv = parse_args(&args(&["prog"]));
    assert!(inv.notice.is_none());
    assert!(matches!(inv.command, Command::Help { preface: Some(ref p) } if p == "No source args passed."));
}

#[test]
fn plain_image_and_video() {
    let inv = parse_args(&args(&["prog", "--image", "pic.png"]));
    assert!(inv.notice.is_none());
    assert_render(&inv.command, Source::Image, "pic.png", ColorMode::NoColor);
    let inv = parse_args(&args(&["prog", "--video", "/dev/video0"]));
    assert_render(&inv.command, Source::Video, "/dev/video0", ColorMode::NoColor);
}

#[test]
fn unknown_source_flag_prints_help() {
    let inv = parse_args(&args(&["prog", "--audio", "x"]));
    assert!(matches!(inv.command, Command::Help { preface: None }));
}

#[test]
fn foreground_color_flag() {
    let inv = parse_args(&args(&["prog", "--image", "a.jpg", "--color"]));
    assert_eq!(inv.notice.as_deref(), Some("\n\n NOTE: Colored Rendering will be choppy"));
    assert_render(&inv.command, Source::Image, "a.jpg", ColorMode::Foreground);
}

#[test]
fn background_color_flag() {
    let inv = parse_args(&args(&["prog", "--video", "/dev/video1", "--color", "bgcolor"]));
    assert_eq!(inv.notice.as_deref(), Some("\n\nNOTE: Colored Rendering will be the choppiest"));
    assert_render(&inv.command, Source::Video, "/dev/video1", ColorMode::Background);
}

#[test]
fn misplaced_color_flag_prints_help() {
    let inv = parse_args(&args(&["prog", "--image", "a.jpg", "--colour"]));
    assert!(inv.notice.is_none());
    assert!(matches!(inv.command, Command::Help { preface: None }));
    let inv = parse_args(&args(&["prog", "--image", "a.jpg", "x", "bgcolor"]));
    assert!(matches!(inv.command, Command::Help { preface: None }));
}

#[test]
fn wrong_argument_count_prints_help() {
    for list in [&["prog", "--image"][..], &["prog", "a", "b", "c", "d", "e"][..]] {
        let inv = parse_args(&args(list));
        assert!(matches!(inv.command, Command::Help { preface: Some(ref p) } if p == "Invalid usage"));
    }
}

#[test]
fn camera_open_failure_exits() {
    match camera_step(CameraEvent::OpenFailed, ColorMode::NoColor) {
        CameraAction::Exit { message, code } => {
            assert_eq!(message, "Error opening webcam");
            assert_eq!(code, 1);
        }
        other => panic!("expected exit, got {:?}", other),
    }
}

#[test]
fn camera_capture_failure_exits() {
    match camera_step(CameraEvent::CaptureFailed, ColorMode::Foreground) {
        CameraAction::Exit { message, code } => {
            assert_eq!(message, "Error reading frame");
            assert_eq!(code, 1);
        }
        other => panic!("expected exit, got {:?}", other),
    }
}

#[test]
fn camera_malformed_frame_exits() {
    let event = CameraEvent::Frame { data: vec![0; 7], width: 2 };
    assert!(matches!(camera_step(event, ColorMode::NoColor), CameraAction::Exit { code: 1, .. }));
    let event = CameraEvent::Frame { data: vec![0; 8], width: 0 };
    assert!(matches!(camera_step(event, ColorMode::NoColor), CameraAction::Exit { code: 1, .. }));
}

#[test]
fn camera_frame_is_drawn_on_cleared_screen() {
    let event = CameraEvent::Frame { data: vec![255; 8], width: 2 };
    match camera_step(event, ColorMode::NoColor) {
        CameraAction::Show { text, pause_ms } => {
            assert_eq!(text, "\x1B[2J\x1B[1;1H##\n");
            assert_eq!(pause_ms, FRAME_PAUSE_MS);
        }
        other => panic!("expected a frame, got {:?}", other),
    }
}
