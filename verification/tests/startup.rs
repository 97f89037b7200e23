use klipo::desktop::{
    CapabilityStatus, CapabilityUnavailableReason, DesktopCapabilities, DesktopCapability,
    DesktopSession,
};
use klipo::startup::{
    initialize_input_with, initialize_shortcuts_with, initialize_watcher_with, platform_from_os,
    session_unavailable_reason, set_target_restoration_capability, target_restoration_result,
    target_restoration_unavailable_reason, Platform, StartupCoordinator, StartupStep,
};

fn run_test_capability(
    coordinator: &mut StartupCoordinator,
    capabilities: &[DesktopCapability],
    succeeds: bool,
) {
    let result = coordinator.run_capability(
        capabilities,
        || succeeds.then_some(()).ok_or("unavailable"),
        |_| CapabilityUnavailableReason::InitializationFailed,
    );
    assert_eq!(result.is_ok(), succeeds);
}

fn capability_for_step(step: StartupStep) -> Option<DesktopCapability> {
    match step {
        StartupStep::Clipboard => Some(DesktopCapability::ClipboardRead),
        StartupStep::Input => Some(DesktopCapability::Input),
        StartupStep::TargetRestoration => Some(DesktopCapability::TargetRestoration),
        StartupStep::Shortcut => Some(DesktopCapability::Shortcut),
        StartupStep::Tray => Some(DesktopCapability::Tray),
        StartupStep::Watcher => Some(DesktopCapability::Watcher),
        StartupStep::Window => None,
    }
}

#[test]
fn every_optional_failure_runs_all_later_startup_steps() {
    for failing_step in StartupStep::ALL {
        let mut coordinator = StartupCoordinator::new(DesktopSession::X11);
        let mut executed = Vec::new();

        coordinator.run_steps(&StartupStep::ALL, |step, coordinator| {
            executed.push(step);
            let succeeds = step != failing_step;

            match step {
                StartupStep::Clipboard => run_test_capability(
                    coordinator,
                    &[
                        DesktopCapability::ClipboardRead,
                        DesktopCapability::ClipboardWrite,
                    ],
                    succeeds,
                ),
                StartupStep::Input => run_test_capability(
                    coordinator,
                    &[DesktopCapability::Input, DesktopCapability::Pointer],
                    succeeds,
                ),
                StartupStep::TargetRestoration => run_test_capability(
                    coordinator,
                    &[DesktopCapability::TargetRestoration],
                    succeeds,
                ),
                StartupStep::Shortcut => {
                    run_test_capability(coordinator, &[DesktopCapability::Shortcut], succeeds)
                }
                StartupStep::Tray => {
                    run_test_capability(coordinator, &[DesktopCapability::Tray], succeeds)
                }
                StartupStep::Watcher => {
                    run_test_capability(coordinator, &[DesktopCapability::Watcher], succeeds)
                }
                StartupStep::Window => {
                    let result = coordinator
                        .run_shell_step(|| succeeds.then_some(()).ok_or("window unavailable"));
                    assert_eq!(result.is_ok(), succeeds);
                }
            }
        });

        assert_eq!(executed, StartupStep::ALL);
        assert_eq!(executed.last(), Some(&StartupStep::Window));

        if let Some(capability) = capability_for_step(failing_step) {
            assert_eq!(
                coordinator.capabilities().status(capability),
                CapabilityStatus::unavailable(CapabilityUnavailableReason::InitializationFailed)
            );
        }
    }
}

#[test]
fn independently_updates_capabilities_without_disabling_the_session() {
    let mut capabilities = DesktopCapabilities::unavailable(
        DesktopSession::X11,
        CapabilityUnavailableReason::AdapterUnavailable,
    );

    capabilities.set_status(
        DesktopCapability::ClipboardRead,
        CapabilityStatus::available(),
    );
    capabilities.set_status(
        DesktopCapability::ClipboardWrite,
        CapabilityStatus::available(),
    );
    capabilities.set_status(DesktopCapability::Input, CapabilityStatus::available());
    capabilities.set_status(
        DesktopCapability::TargetRestoration,
        CapabilityStatus::unavailable(CapabilityUnavailableReason::UnsupportedSession),
    );
    capabilities.set_status(DesktopCapability::Tray, CapabilityStatus::available());

    assert_eq!(capabilities.clipboard_read, CapabilityStatus::available());
    assert_eq!(
        capabilities.shortcut,
        CapabilityStatus::unavailable(CapabilityUnavailableReason::AdapterUnavailable)
    );
    assert_eq!(
        capabilities.automatic_paste,
        CapabilityStatus::unavailable(CapabilityUnavailableReason::UnsupportedSession)
    );
    assert_eq!(capabilities.tray, CapabilityStatus::available());
}

#[test]
fn maps_target_restoration_failures_to_session_specific_reasons() {
    assert_eq!(
        target_restoration_unavailable_reason(DesktopSession::X11),
        CapabilityUnavailableReason::AdapterUnavailable
    );
    assert_eq!(
        target_restoration_unavailable_reason(DesktopSession::Wayland),
        CapabilityUnavailableReason::UnsupportedSession
    );
    assert_eq!(
        target_restoration_unavailable_reason(DesktopSession::Unknown),
        CapabilityUnavailableReason::UnknownSession
    );
}

#[test]
fn enables_target_restoration_only_for_a_probed_x11_adapter() {
    assert_eq!(target_restoration_result(DesktopSession::X11, true), Ok(()));
    assert_eq!(
        target_restoration_result(DesktopSession::X11, false),
        Err(CapabilityUnavailableReason::AdapterUnavailable)
    );
    assert_eq!(
        target_restoration_result(DesktopSession::Wayland, true),
        Err(CapabilityUnavailableReason::UnsupportedSession)
    );
}

#[test]
fn a_new_coordinator_waits_for_every_adapter() {
    let known = StartupCoordinator::new(DesktopSession::Wayland).capabilities();
    let unknown = StartupCoordinator::new(DesktopSession::Unknown).capabilities();

    for capability in DesktopCapability::ALL {
        assert_eq!(
            known.status(capability),
            CapabilityStatus::unavailable(CapabilityUnavailableReason::AdapterUnavailable)
        );
        assert_eq!(
            unknown.status(capability),
            CapabilityStatus::unavailable(CapabilityUnavailableReason::UnknownSession)
        );
    }
}

#[test]
fn session_reasons_distinguish_unknown_sessions() {
    assert_eq!(
        session_unavailable_reason(DesktopSession::Unknown),
        CapabilityUnavailableReason::UnknownSession
    );
    assert_eq!(
        session_unavailable_reason(DesktopSession::Wayland),
        CapabilityUnavailableReason::UnsupportedSession
    );
    assert_eq!(
        session_unavailable_reason(DesktopSession::X11),
        CapabilityUnavailableReason::UnsupportedSession
    );
}

#[test]
fn target_restoration_is_recorded_per_platform() {
    let mut startup = StartupCoordinator::new(DesktopSession::Wayland);
    assert_eq!(
        set_target_restoration_capability(&mut startup, Platform::Macos, DesktopSession::Wayland, false),
        Ok(())
    );
    assert_eq!(
        startup.capabilities().target_restoration,
        CapabilityStatus::Available
    );

    let mut startup = StartupCoordinator::new(DesktopSession::Wayland);
    assert_eq!(
        set_target_restoration_capability(&mut startup, Platform::Linux, DesktopSession::Wayland, true),
        Err(CapabilityUnavailableReason::UnsupportedSession)
    );
    assert_eq!(
        startup.capabilities().target_restoration,
        CapabilityStatus::unavailable(CapabilityUnavailableReason::UnsupportedSession)
    );

    let mut startup = StartupCoordinator::new(DesktopSession::X11);
    assert_eq!(
        set_target_restoration_capability(&mut startup, Platform::Other, DesktopSession::X11, true),
        Err(CapabilityUnavailableReason::AdapterUnavailable)
    );
}

#[test]
fn unsupported_input_is_recorded_without_enabling_it() {
    let mut startup = StartupCoordinator::new(DesktopSession::Wayland);
    let mut enabled = false;

    let result = initialize_input_with(&mut startup, DesktopSession::Wayland, false, || {
        enabled = true;
        Ok(())
    });

    assert!(!enabled);
    assert_eq!(
        result,
        Err((
            CapabilityUnavailableReason::UnsupportedSession,
            "input simulation is not supported by this desktop session".to_owned()
        ))
    );
    assert_eq!(
        startup.capabilities().pointer,
        CapabilityStatus::unavailable(CapabilityUnavailableReason::UnsupportedSession)
    );
}

#[test]
fn failed_input_enable_is_an_initialization_failure() {
    let mut startup = StartupCoordinator::new(DesktopSession::X11);

    let result = initialize_input_with(&mut startup, DesktopSession::X11, true, || {
        Err("EnigoError".to_owned())
    });

    assert_eq!(
        result,
        Err((
            CapabilityUnavailableReason::InitializationFailed,
            "EnigoError".to_owned()
        ))
    );
    assert_eq!(
        startup.capabilities().input,
        CapabilityStatus::unavailable(CapabilityUnavailableReason::InitializationFailed)
    );
}

#[test]
fn supported_shortcuts_are_registered_and_recorded() {
    let mut startup = StartupCoordinator::new(DesktopSession::X11);

    assert_eq!(
        initialize_shortcuts_with(&mut startup, DesktopSession::X11, true, || Ok(())),
        Ok(())
    );
    assert_eq!(startup.capabilities().shortcut, CapabilityStatus::Available);

    let mut startup = StartupCoordinator::new(DesktopSession::Unknown);
    assert_eq!(
        initialize_shortcuts_with(&mut startup, DesktopSession::Unknown, false, || Ok(())),
        Err((
            CapabilityUnavailableReason::UnknownSession,
            "global shortcuts are not supported by this session".to_owned()
        ))
    );
}

#[test]
fn the_watcher_needs_the_system_clipboard() {
    let mut startup = StartupCoordinator::new(DesktopSession::X11);
    let mut created = false;

    let result = initialize_watcher_with(&mut startup, false, || {
        created = true;
        Ok(())
    });

    assert!(!created);
    assert_eq!(
        result,
        Err("system clipboard initialization failed".to_owned())
    );
    assert_eq!(
        startup.capabilities().watcher,
        CapabilityStatus::unavailable(CapabilityUnavailableReason::InitializationFailed)
    );

    let mut startup = StartupCoordinator::new(DesktopSession::X11);
    assert_eq!(initialize_watcher_with(&mut startup, true, || Ok(7)), Ok(7));
    assert_eq!(startup.capabilities().watcher, CapabilityStatus::Available);
}

#[test]
fn platforms_are_named_by_the_operating_system() {
    assert_eq!(platform_from_os("macos"), Platform::Macos);
    assert_eq!(platform_from_os("linux"), Platform::Linux);
    assert_eq!(platform_from_os("windows"), Platform::Other);
}
