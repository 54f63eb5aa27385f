use desktop_environment::{CaptureTarget, RelayConfig};

#[test]
fn sessions_start_from_the_default_settings() {
    assert_eq!(
        RelayConfig::default(),
        RelayConfig {
            target: CaptureTarget { display_name: String::new() },
            mirror_fullscreen: false,
            capture_timeout_ms: 16,
        }
    );
}
