//! The logic of two desktop utilities.
//!
//! The *display relay* mirrors one display of the desktop into a window and
//! forwards the mouse and the keyboard of that window to the display. The
//! *audio output router* plays what one audio output plays on another one.
//!
//! Everything here works on plain values. The program around the library asks
//! the host, hands the answers in, and carries out what comes back.

pub mod audio;
pub mod display;
pub mod duplicator;
pub mod geometry;
pub mod host;
pub mod input;
pub mod keys;
pub mod pump;
pub mod relay;
pub mod relay_command;
pub mod render;
pub mod router;
pub mod router_command;
pub mod session;
pub mod setup;
pub mod single;
pub mod text;
pub mod wave;
pub mod wide;

pub use audio::{list_output_devices, run_output_audio_router, AudioOutputDevice};
pub use display::{enumerate_displays, DisplayInfo};
pub use duplicator::{CaptureFrameView, DesktopDuplicator};
pub use geometry::{DisplayArea, PointerSample, VirtualDesktop};
pub use input::{InjectedKeyEvent, MouseButton, RemoteInputController};
pub use session::{CaptureTarget, RelayConfig};
