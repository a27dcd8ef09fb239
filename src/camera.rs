use vstd::prelude::*;

use crate::render::{draw_ascii_video, video_text, ColorMode, PIX_BYTES};

verus! {

/// Frame interval asked of the capture device, as numerator and denominator of a second.
pub const FRAME_INTERVAL_NUM: u32 = 1;
pub const FRAME_INTERVAL_DEN: u32 = 30;

/// Resolution asked of the capture device.
pub const FRAME_WIDTH: u32 = 640;
pub const FRAME_HEIGHT: u32 = 480;

/// Pause after each frame is drawn, in milliseconds.
pub const FRAME_PAUSE_MS: u64 = 20;

/// Status the program exits with when the device fails.
pub const DEVICE_FAILURE_CODE: i32 = 1;

/// What the capture device last reported.
pub enum CameraEvent {
    /// The device could not be opened or set up.
    OpenFailed,
    /// A frame could not be read.
    CaptureFailed,
    /// A frame was read: `data` holds rows of `width` pixels.
    Frame { data: Vec<u8>, width: u32 },
}

/// What the camera loop does next.
#[derive(Debug)]
pub enum CameraAction {
    /// Print `message` and end the process with status `code`.
    Exit { message: String, code: i32 },
    /// Print `text`, wait `pause_ms` milliseconds, then read the next frame.
    Show { text: String, pause_ms: u64 },
}

/// `ESC [2J ESC [1;1H`: clear the screen and move to its top left corner.
pub open spec fn clear_screen() -> Seq<char> {
    seq!['\x1B', '[', '2', 'J', '\x1B', '[', '1', ';', '1', 'H']
}

/// A frame can be drawn: its rows have a width and it holds whole pixels.
pub open spec fn frame_is_whole(data: Seq<u8>, width: u32) -> bool {
    width > 0 && data.len() % (PIX_BYTES as nat) == 0
}

/// The camera loop's decision on one event: a device failure or a frame that cannot be drawn
/// ends the process with a message; a frame is drawn on a cleared screen, followed by a pause.
pub fn camera_step(event: CameraEvent, mode: ColorMode) -> (action: CameraAction)
    ensures
        match event {
            CameraEvent::OpenFailed => action matches CameraAction::Exit { message, code }
                && message@ == "Error opening webcam"@ && code == DEVICE_FAILURE_CODE,
            CameraEvent::CaptureFailed => action matches CameraAction::Exit { message, code }
                && message@ == "Error reading frame"@ && code == DEVICE_FAILURE_CODE,
            CameraEvent::Frame { data, width } => if frame_is_whole(data@, width) {
                action matches CameraAction::Show { text, pause_ms }
                    && text@ == clear_screen() + video_text(data@, width as int, mode, data@.len() / PIX_BYTES as nat)
                    && pause_ms == FRAME_PAUSE_MS
            } else {
                action matches CameraAction::Exit { message, code }
                    && message@ == "Error reading frame"@ && code == DEVICE_FAILURE_CODE
            },
        },
{
    match event {
        CameraEvent::OpenFailed => CameraAction::Exit {
            message: String::from_str("Error opening webcam"),
            code: DEVICE_FAILURE_CODE,
        },
        CameraEvent::CaptureFailed => CameraAction::Exit {
            message: String::from_str("Error reading frame"),
            code: DEVICE_FAILURE_CODE,
        },
        CameraEvent::Frame { data, width } => {
            if width == 0 || data.len() % PIX_BYTES != 0 {
                CameraAction::Exit {
                    message: String::from_str("Error reading frame"),
                    code: DEVICE_FAILURE_CODE,
                }
            } else {
                let mut text = String::from_str("\x1B[2J\x1B[1;1H");
                proof { reveal_strlit("\x1B[2J\x1B[1;1H"); }
                let frame_text = draw_ascii_video(data.as_slice(), width, mode);
                text.append(frame_text.as_str());
                assert(text@ =~= clear_screen() + video_text(data@, width as int, mode, data@.len() / PIX_BYTES as nat));
                CameraAction::Show { text, pause_ms: FRAME_PAUSE_MS }
            }
        },
    }
}

} // verus!
