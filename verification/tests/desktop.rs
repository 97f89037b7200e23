use std::collections::HashMap;

use klipo::desktop::{
    detect_capabilities, detect_session, detect_session_from, CapabilityStatus,
    CapabilityUnavailableReason, DesktopAdapter, DesktopCapabilities, DesktopCapability,
    DesktopSession, Environment,
};

struct FakeEnvironment {
    variables: HashMap<&'static str, &'static str>,
}

impl FakeEnvironment {
    fn with(variables: impl IntoIterator<Item = (&'static str, &'static str)>) -> Self {
        Self {
            variables: variables.into_iter().collect(),
        }
    }
}

impl Environment for FakeEnvironment {
    fn variable(&self, name: &str) -> Option<String> {
        self.variables.get(name).map(|value| (*value).to_owned())
    }
}

struct FakeAdapter {
    results: HashMap<DesktopCapability, Result<(), CapabilityUnavailableReason>>,
}

impl FakeAdapter {
    fn available() -> Self {
        Self {
            results: DesktopCapability::PROBED
                .into_iter()
                .map(|capability| (capability, Ok(())))
                .collect(),
        }
    }

    fn unavailable(
        mut self,
        capability: DesktopCapability,
        reason: CapabilityUnavailableReason,
    ) -> Self {
        self.results.insert(capability, Err(reason));
        self
    }

    fn unavailable_all(reason: CapabilityUnavailableReason) -> Self {
        Self {
            results: DesktopCapability::PROBED
                .into_iter()
                .map(|capability| (capability, Err(reason)))
                .collect(),
        }
    }
}

impl DesktopAdapter for FakeAdapter {
    fn probe(&self, capability: DesktopCapability) -> Result<(), CapabilityUnavailableReason> {
        self.results
            .get(&capability)
            .copied()
            .expect("every capability has a fake probe result")
    }
}

#[test]
fn detects_x11_from_explicit_runtime_session() {
    let environment = FakeEnvironment::with([("XDG_SESSION_TYPE", "x11")]);

    assert_eq!(detect_session_from(&environment), DesktopSession::X11);
}

#[test]
fn detects_wayland_from_display_when_session_type_is_missing() {
    let environment = FakeEnvironment::with([("WAYLAND_DISPLAY", "wayland-0")]);

    assert_eq!(detect_session_from(&environment), DesktopSession::Wayland);
}

#[test]
fn reports_unknown_for_missing_or_ambiguous_fallback_signals() {
    let missing = FakeEnvironment::with([]);
    let ambiguous = FakeEnvironment::with([("WAYLAND_DISPLAY", "wayland-0"), ("DISPLAY", ":0")]);

    assert_eq!(detect_session_from(&missing), DesktopSession::Unknown);
    assert_eq!(detect_session_from(&ambiguous), DesktopSession::Unknown);
}

#[test]
fn recognizes_wayland_when_xwayland_also_sets_display() {
    let environment = FakeEnvironment::with([
        ("XDG_SESSION_TYPE", "wayland"),
        ("WAYLAND_DISPLAY", "wayland-0"),
        ("DISPLAY", ":0"),
    ]);

    assert_eq!(detect_session_from(&environment), DesktopSession::Wayland);
}

#[test]
fn reports_a_fully_available_session() {
    let capabilities = detect_capabilities(DesktopSession::X11, &FakeAdapter::available());

    assert_eq!(capabilities.session, DesktopSession::X11);
    for capability in DesktopCapability::ALL {
        assert_eq!(capabilities.status(capability), CapabilityStatus::Available);
    }
}

#[test]
fn reports_partial_availability_without_inferencing_from_session() {
    let adapter = FakeAdapter::available()
        .unavailable(
            DesktopCapability::Shortcut,
            CapabilityUnavailableReason::InitializationFailed,
        )
        .unavailable(
            DesktopCapability::Input,
            CapabilityUnavailableReason::UnsupportedSession,
        );

    let capabilities = detect_capabilities(DesktopSession::Wayland, &adapter);

    assert_eq!(capabilities.clipboard_read, CapabilityStatus::Available);
    assert_eq!(
        capabilities.shortcut,
        CapabilityStatus::Unavailable {
            reason: CapabilityUnavailableReason::InitializationFailed,
        }
    );
    assert_eq!(
        capabilities.automatic_paste,
        CapabilityStatus::Unavailable {
            reason: CapabilityUnavailableReason::UnsupportedSession,
        }
    );
    assert_eq!(capabilities.tray, CapabilityStatus::Available);
}

#[test]
fn reports_an_unknown_session_with_actionable_capability_reasons() {
    let adapter = FakeAdapter::unavailable_all(CapabilityUnavailableReason::UnknownSession);

    let capabilities = detect_capabilities(DesktopSession::Unknown, &adapter);

    assert_eq!(capabilities.session, DesktopSession::Unknown);
    assert_eq!(
        capabilities.clipboard_read,
        CapabilityStatus::Unavailable {
            reason: CapabilityUnavailableReason::UnknownSession,
        }
    );
    for capability in DesktopCapability::ALL {
        assert_eq!(
            capabilities.status(capability),
            CapabilityStatus::Unavailable {
                reason: CapabilityUnavailableReason::UnknownSession,
            }
        );
    }
}

#[test]
fn empty_session_variables_read_as_absent() {
    assert_eq!(
        detect_session(Some(""), Some(""), Some(":0")),
        DesktopSession::X11
    );
    assert_eq!(
        detect_session(Some("tty"), Some("wayland-0"), None),
        DesktopSession::Wayland
    );
    assert_eq!(detect_session(None, None, None), DesktopSession::Unknown);
    assert_eq!(
        detect_session(Some("x11"), Some("wayland-0"), None),
        DesktopSession::X11
    );
}

#[test]
fn automatic_paste_follows_the_first_unavailable_input() {
    let mut capabilities = DesktopCapabilities::unavailable(
        DesktopSession::X11,
        CapabilityUnavailableReason::AdapterUnavailable,
    );
    for capability in [
        DesktopCapability::ClipboardWrite,
        DesktopCapability::TargetRestoration,
        DesktopCapability::Input,
    ] {
        capabilities.set_status(capability, CapabilityStatus::available());
    }
    assert_eq!(capabilities.automatic_paste, CapabilityStatus::Available);

    capabilities.set_status(
        DesktopCapability::Input,
        CapabilityStatus::unavailable(CapabilityUnavailableReason::InitializationFailed),
    );
    assert_eq!(
        capabilities.status(DesktopCapability::AutomaticPaste),
        CapabilityStatus::Unavailable {
            reason: CapabilityUnavailableReason::InitializationFailed,
        }
    );
}

#[test]
fn probe_results_map_to_statuses() {
    assert_eq!(CapabilityStatus::from_probe(Ok(())), CapabilityStatus::Available);
    assert_eq!(
        CapabilityStatus::from_probe(Err(CapabilityUnavailableReason::UnknownSession)),
        CapabilityStatus::Unavailable {
            reason: CapabilityUnavailableReason::UnknownSession,
        }
    );
}

#[test]
fn an_empty_value_from_the_environment_still_counts_as_present() {
    let only_display = FakeEnvironment::with([("DISPLAY", "")]);
    let both_empty = FakeEnvironment::with([("WAYLAND_DISPLAY", ""), ("DISPLAY", "")]);

    assert_eq!(detect_session_from(&only_display), DesktopSession::X11);
    assert_eq!(detect_session_from(&both_empty), DesktopSession::Unknown);
}
