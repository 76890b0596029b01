use wl_zenwindow::run::{step_failed, SetupStep};
use wl_zenwindow::span::Span;
use wl_zenwindow::SpawnError;

#[test]
fn messages_of_all_errors() {
    let cause = || "refused".to_string();
    assert_eq!(
        SpawnError::WaylandConnection(cause()).message(),
        "failed to connect to Wayland display"
    );
    assert_eq!(
        SpawnError::MissingProtocol {
            protocol: "wl_shm",
            source: cause()
        }
        .message(),
        "required Wayland protocol unavailable: wl_shm"
    );
    assert_eq!(
        SpawnError::ThreadSpawn(cause()).message(),
        "failed to spawn background thread"
    );
    assert_eq!(SpawnError::Setup(cause()).message(), "Wayland setup failed");
    assert_eq!(SpawnError::Setup(cause()).cause(), "refused");
}

#[test]
fn each_step_fails_in_its_own_way() {
    let protocol = |step| match step_failed(step, "x".to_string()) {
        SpawnError::MissingProtocol { protocol, .. } => Some(protocol),
        _ => None,
    };
    assert_eq!(protocol(SetupStep::Compositor), Some("wl_compositor"));
    assert_eq!(protocol(SetupStep::LayerShell), Some("zwlr_layer_shell_v1"));
    assert_eq!(protocol(SetupStep::Shm), Some("wl_shm"));
    assert!(matches!(
        step_failed(SetupStep::Connect, "x".to_string()),
        SpawnError::WaylandConnection(_)
    ));
    for step in [
        SetupStep::Registry,
        SetupStep::Pool,
        SetupStep::Discover,
        SetupStep::Describe,
        SetupStep::Configure,
        SetupStep::Await,
        SetupStep::Settle(Span::zero()),
    ] {
        assert!(matches!(
            step_failed(step, "x".to_string()),
            SpawnError::Setup(_)
        ));
    }
}
