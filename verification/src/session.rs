//! What a relay session captures, and how.

use vstd::prelude::*;

verus! {

/// The display to capture.
#[derive(Debug, Clone, PartialEq, Eq)]
pub struct CaptureTarget {
    pub display_name: String,
}

/// The settings of a relay session.
#[derive(Debug, Clone, PartialEq, Eq)]
pub struct RelayConfig {
    pub target: CaptureTarget,
    pub mirror_fullscreen: bool,
    pub capture_timeout_ms: u32,
}

/// The model of a [`RelayConfig`].
pub struct RelayConfigView {
    pub display_name: Seq<char>,
    pub mirror_fullscreen: bool,
    pub capture_timeout_ms: u32,
}

impl View for RelayConfig {
    type V = RelayConfigView;

    open spec fn view(&self) -> RelayConfigView {
        RelayConfigView {
            display_name: self.target.display_name@,
            mirror_fullscreen: self.mirror_fullscreen,
            capture_timeout_ms: self.capture_timeout_ms,
        }
    }
}

/// The settings that hold where nothing else is asked for.
pub open spec fn default_config() -> RelayConfigView {
    RelayConfigView {
        display_name: Seq::empty(),
        mirror_fullscreen: false,
        capture_timeout_ms: 16,
    }
}

impl Default for RelayConfig {
    fn default() -> (config: Self)
        ensures
            config@ == default_config(),
    {
        RelayConfig {
            target: CaptureTarget { display_name: String::new() },
            mirror_fullscreen: false,
            capture_timeout_ms: 16,
        }
    }
}

} // verus!
