use std::collections::HashSet;

use klipo::desktop::DesktopSession;
use klipo::settings::ShortcutSettings;
use klipo::shortcuts::{
    changed_bindings, cleanup_registered_shortcuts, cleanup_registry, clamp_picker_axis,
    combine_recovery_results, global_shortcut_bindings, parse_shortcut_key,
    register_bindings, register_saved_or_default_with, replace_bindings,
    resolve_picker_position, shortcut_backend_name, supports_global_shortcuts,
    with_recovery_error, with_registration_cleanup_error, x11_shortcuts_supported,
    GlobalShortcutAction, GlobalShortcutBinding, MonitorGeometry, PhysicalPosition,
    PhysicalRectangle, ShortcutKey, ShortcutRegistry, picker_position_or_origin, pressed_action,
    replace_global_shortcuts_with, PICKER_HEIGHT, PICKER_WIDTH,
};
use klipo::startup::Platform;

const PICKER_SIZE: (u32, u32) = (250, 350);

fn monitor(
    x: i32,
    y: i32,
    width: u32,
    height: u32,
    work_area: PhysicalRectangle,
    _scale_factor: f64,
    is_primary: bool,
) -> MonitorGeometry {
    MonitorGeometry {
        bounds: PhysicalRectangle {
            x,
            y,
            width,
            height,
        },
        work_area,
        is_primary,
    }
}

fn work_area(x: i32, y: i32, width: u32, height: u32) -> PhysicalRectangle {
    PhysicalRectangle {
        x,
        y,
        width,
        height,
    }
}

fn position_for(pointer: Option<(i32, i32)>, monitors: &[MonitorGeometry]) -> PhysicalPosition {
    let pointer = pointer.map(|(x, y)| PhysicalPosition::new(x, y));

    resolve_picker_position(pointer, monitors, PICKER_SIZE)
        .expect("a monitor should resolve a position")
}

fn is_within_work_area(
    position: PhysicalPosition,
    picker_size: (u32, u32),
    work_area: PhysicalRectangle,
) -> bool {
    let picker_right = i64::from(position.x) + i64::from(picker_size.0);
    let picker_bottom = i64::from(position.y) + i64::from(picker_size.1);
    let work_right = i64::from(work_area.x) + i64::from(work_area.width);
    let work_bottom = i64::from(work_area.y) + i64::from(work_area.height);

    i64::from(position.x) >= i64::from(work_area.x)
        && picker_right <= work_right
        && i64::from(position.y) >= i64::from(work_area.y)
        && picker_bottom <= work_bottom
}

fn intersects_work_area(
    position: PhysicalPosition,
    picker_size: (u32, u32),
    work_area: PhysicalRectangle,
) -> bool {
    let picker_right = i64::from(position.x) + i64::from(picker_size.0);
    let picker_bottom = i64::from(position.y) + i64::from(picker_size.1);
    let work_right = i64::from(work_area.x) + i64::from(work_area.width);
    let work_bottom = i64::from(work_area.y) + i64::from(work_area.height);

    i64::from(position.x) < work_right
        && picker_right > i64::from(work_area.x)
        && i64::from(position.y) < work_bottom
        && picker_bottom > i64::from(work_area.y)
}

#[test]
fn positions_picker_on_primary_monitor_and_clamps_at_its_edges() {
    let primary = monitor(0, 0, 1920, 1080, work_area(0, 0, 1920, 1040), 1.0, true);

    assert_eq!(
        position_for(Some((500, 400)), &[primary]),
        PhysicalPosition::new(500, 400)
    );
    assert_eq!(
        position_for(Some((1919, 1079)), &[primary]),
        PhysicalPosition::new(1670, 690)
    );
}

#[test]
fn selects_secondary_monitors_with_positive_and_negative_origins() {
    let left = monitor(-1280, 0, 1280, 1024, work_area(-1280, 0, 1280, 1024), 1.0, false);
    let primary = monitor(0, 0, 1920, 1080, work_area(0, 0, 1920, 1080), 1.0, true);
    let right = monitor(1920, 0, 1600, 900, work_area(1920, 0, 1600, 900), 1.0, false);

    assert_eq!(
        position_for(Some((-1200, 200)), &[left, primary, right]),
        PhysicalPosition::new(-1200, 200)
    );
    assert_eq!(
        position_for(Some((3500, 850)), &[left, primary, right]),
        PhysicalPosition::new(3270, 550)
    );
}

#[test]
fn preserves_negative_vertical_origins() {
    let above_primary = monitor(0, -900, 1600, 900, work_area(0, -900, 1600, 900), 1.0, false);
    let primary = monitor(0, 0, 1920, 1080, work_area(0, 0, 1920, 1080), 1.0, true);

    assert_eq!(
        position_for(Some((400, -10)), &[above_primary, primary]),
        PhysicalPosition::new(400, -350)
    );
}

#[test]
fn clamps_to_work_area_instead_of_full_monitor_bounds() {
    let primary = monitor(0, 0, 1920, 1080, work_area(0, 32, 1920, 1008), 1.0, true);

    assert_eq!(
        position_for(Some((20, 10)), &[primary]),
        PhysicalPosition::new(20, 32)
    );
    assert_eq!(
        position_for(Some((1900, 1070)), &[primary]),
        PhysicalPosition::new(1670, 690)
    );
}

#[test]
fn uses_measured_picker_size_on_mixed_scale_monitors() {
    let primary = monitor(0, 0, 1920, 1080, work_area(0, 0, 1920, 1080), 1.0, true);
    let scaled_secondary =
        monitor(1920, 0, 2560, 1440, work_area(1920, 0, 2560, 1440), 1.0, false);

    assert_eq!(
        resolve_picker_position(
            Some(PhysicalPosition::new(4400, 1300)),
            &[primary, scaled_secondary],
            (375, 525),
        )
        .expect("a monitor should resolve a position"),
        PhysicalPosition::new(4105, 915)
    );
}

#[test]
fn falls_back_to_primary_or_first_monitor_when_pointer_is_unavailable() {
    let left = monitor(-1280, 0, 1280, 1024, work_area(-1280, 0, 1280, 1024), 1.0, false);
    let negative_origin_primary =
        monitor(-1920, 0, 640, 480, work_area(-1920, 20, 640, 460), 1.0, true);

    assert_eq!(
        position_for(None, &[left, negative_origin_primary]),
        PhysicalPosition::new(-1920, 20)
    );
    assert_eq!(position_for(None, &[left]), PhysicalPosition::new(-1280, 0));
}

#[test]
fn falls_back_when_pointer_is_outside_every_monitor() {
    let primary = monitor(-1920, 0, 1920, 1080, work_area(-1920, 0, 1920, 1080), 1.0, true);

    assert_eq!(
        position_for(Some((500, 500)), &[primary]),
        PhysicalPosition::new(-1920, 0)
    );
}

#[test]
fn topology_matrix_keeps_a_fitting_picker_inside_each_work_area() {
    let monitors = [
        monitor(-1600, -900, 1600, 900, work_area(-1600, -900, 1600, 900), 1.0, false),
        monitor(0, 0, 1920, 1080, work_area(0, 24, 1920, 1056), 1.0, true),
        monitor(1920, 0, 2560, 1440, work_area(1920, 0, 2560, 1400), 1.5, false),
    ];
    let pointer_positions = [
        (-1600, -900),
        (-1, -1),
        (0, 0),
        (1919, 1079),
        (1920, 0),
        (4479, 1439),
    ];

    for pointer in pointer_positions {
        let position = position_for(Some(pointer), &monitors);
        let selected_monitor = monitors
            .iter()
            .find(|monitor| {
                monitor
                    .bounds
                    .contains(PhysicalPosition::new(pointer.0, pointer.1))
            })
            .expect("test pointer should be on a monitor");

        assert!(is_within_work_area(
            position,
            PICKER_SIZE,
            selected_monitor.work_area,
        ));
    }
}

#[test]
fn oversized_picker_stays_visible_instead_of_resolving_outside_the_work_area() {
    let primary = monitor(-100, -100, 200, 200, work_area(-100, -100, 200, 200), 1.0, true);
    let position = position_for(Some((-50, -50)), &[primary]);

    assert_eq!(position, PhysicalPosition::new(-100, -100));
    assert!(intersects_work_area(position, PICKER_SIZE, primary.work_area));
}

#[test]
fn no_monitor_means_no_position() {
    assert!(resolve_picker_position(None, &[], PICKER_SIZE).is_none());
}

#[test]
fn axis_clamping_saturates_at_the_i32_range() {
    assert_eq!(clamp_picker_axis(5, 0, 100, 10), 5);
    assert_eq!(clamp_picker_axis(-5, 0, 100, 10), 0);
    assert_eq!(clamp_picker_axis(95, 0, 100, 10), 90);
    assert_eq!(clamp_picker_axis(i32::MAX, i32::MAX - 1, u32::MAX, 1), i32::MAX);
}

#[test]
fn only_x11_sessions_are_eligible_for_the_linux_shortcut_backend() {
    assert!(x11_shortcuts_supported(DesktopSession::X11));
    assert!(!x11_shortcuts_supported(DesktopSession::Wayland));
    assert!(!x11_shortcuts_supported(DesktopSession::Unknown));
}

#[test]
fn global_shortcuts_exist_on_macos_and_linux_x11_only() {
    assert!(supports_global_shortcuts(Platform::Macos, DesktopSession::Unknown));
    assert!(supports_global_shortcuts(Platform::Linux, DesktopSession::X11));
    assert!(!supports_global_shortcuts(Platform::Linux, DesktopSession::Wayland));
    assert!(!supports_global_shortcuts(Platform::Other, DesktopSession::X11));
    assert_eq!(shortcut_backend_name(Platform::Linux), "X11 global shortcut backend");
    assert_eq!(shortcut_backend_name(Platform::Macos), "global shortcut backend");
}

#[derive(Default)]
struct FakeShortcutRegistry {
    registered: HashSet<ShortcutKey>,
    register_failures: HashSet<ShortcutKey>,
    unregister_failures: HashSet<ShortcutKey>,
    unregister_all_failure: bool,
    history: Vec<RegistryOperation>,
}

#[derive(Debug, PartialEq, Eq)]
enum RegistryOperation {
    Register(ShortcutKey),
    Unregister(ShortcutKey),
    UnregisterAll,
}

impl FakeShortcutRegistry {
    fn with_registered(shortcut: ShortcutKey) -> Self {
        Self {
            registered: HashSet::from([shortcut]),
            ..Self::default()
        }
    }
}

impl ShortcutRegistry for FakeShortcutRegistry {
    fn backend_name(&self) -> &'static str {
        shortcut_backend_name(Platform::Linux)
    }

    fn is_registered(&self, shortcut: ShortcutKey) -> bool {
        self.registered.contains(&shortcut)
    }

    fn register(&mut self, shortcut: ShortcutKey) -> Result<(), String> {
        self.history.push(RegistryOperation::Register(shortcut));
        if self.register_failures.contains(&shortcut) {
            Err("backend refused registration".into())
        } else {
            self.registered.insert(shortcut);
            Ok(())
        }
    }

    fn unregister(&mut self, shortcut: ShortcutKey) -> Result<(), String> {
        self.history.push(RegistryOperation::Unregister(shortcut));
        if self.unregister_failures.contains(&shortcut) {
            Err("backend refused release".into())
        } else {
            self.registered.remove(&shortcut);
            Ok(())
        }
    }

    fn unregister_all(&mut self) -> Result<(), String> {
        self.history.push(RegistryOperation::UnregisterAll);
        if self.unregister_all_failure {
            Err("backend refused release all".into())
        } else {
            self.registered.clear();
            Ok(())
        }
    }
}

fn binding(shortcut: &str) -> GlobalShortcutBinding {
    GlobalShortcutBinding {
        action: GlobalShortcutAction::OpenKlipo,
        shortcut: parse_shortcut_key(shortcut).expect("test shortcut parses"),
    }
}

#[test]
fn binding_selection_uses_only_the_global_open_klipo_shortcut() {
    let mut settings = ShortcutSettings::default();
    settings.open_klipo = "SUPER+ALT+KeyK".into();
    settings.move_selection_up = "KeyW".into();

    let bindings = global_shortcut_bindings(&settings).expect("settings select a binding");

    assert_eq!(bindings, vec![binding("SUPER+ALT+KeyK")]);
}

#[test]
fn failed_replacement_restores_the_previous_working_binding() {
    let previous = binding("SUPER+SHIFT+KeyV");
    let next = binding("SUPER+ALT+KeyK");
    let mut registry = FakeShortcutRegistry::with_registered(previous.shortcut);
    registry.register_failures.insert(next.shortcut);

    let error_value = replace_bindings(&mut registry, &[previous], &[next])
        .expect_err("replacement fails when X11 registration is refused");

    assert!(error_value.contains("restored the previous"));
    assert!(registry.is_registered(previous.shortcut));
    assert!(!registry.is_registered(next.shortcut));
}

#[test]
fn failed_old_binding_release_preserves_the_previous_working_binding() {
    let previous = binding("SUPER+SHIFT+KeyV");
    let next = binding("SUPER+ALT+KeyK");
    let mut registry = FakeShortcutRegistry::with_registered(previous.shortcut);
    registry.unregister_failures.insert(previous.shortcut);

    let error_value = replace_bindings(&mut registry, &[previous], &[next])
        .expect_err("replacement stops when X11 cannot release the active binding");

    assert!(error_value.contains("could not release Open Klipo"));
    assert!(registry.is_registered(previous.shortcut));
    assert!(!registry.is_registered(next.shortcut));
    assert_eq!(
        registry.history,
        vec![RegistryOperation::Unregister(previous.shortcut)]
    );
}

#[test]
fn partial_new_registration_is_cleaned_up_before_returning_an_error() {
    let first = binding("SUPER+ALT+KeyK");
    let second = binding("SUPER+ALT+KeyL");
    let mut registry = FakeShortcutRegistry::default();
    registry.register_failures.insert(second.shortcut);

    let error_value = register_bindings(&mut registry, &[first, second])
        .expect_err("second registration is rejected");

    assert!(error_value.contains("removed partially registered"));
    assert!(!registry.is_registered(first.shortcut));
    assert_eq!(
        registry.history,
        vec![
            RegistryOperation::Register(first.shortcut),
            RegistryOperation::Register(second.shortcut),
            RegistryOperation::Unregister(first.shortcut),
        ]
    );
}

#[test]
fn failed_previous_binding_restoration_reports_the_recovery_error() {
    let previous = binding("SUPER+SHIFT+KeyV");
    let next = binding("SUPER+ALT+KeyK");
    let mut registry = FakeShortcutRegistry::with_registered(previous.shortcut);
    registry
        .register_failures
        .extend([previous.shortcut, next.shortcut]);

    let error_value = replace_bindings(&mut registry, &[previous], &[next])
        .expect_err("new binding and restoration are both rejected");

    assert!(error_value.contains("failed to fully restore"));
    assert!(error_value.contains("backend refused registration"));
    assert!(!registry.is_registered(previous.shortcut));
}

#[test]
fn startup_selects_and_registers_the_saved_global_binding() {
    let mut saved = ShortcutSettings::default();
    saved.open_klipo = "SUPER+ALT+KeyK".into();
    let expected = binding("SUPER+ALT+KeyK");
    let mut registry = FakeShortcutRegistry::default();

    let active = register_saved_or_default_with(&mut registry, saved.clone())
        .expect("saved shortcut registration succeeds");

    assert_eq!(active, saved);
    assert!(registry.is_registered(expected.shortcut));
}

#[test]
fn startup_uses_defaults_when_the_saved_shortcut_is_invalid() {
    let saved = ShortcutSettings {
        open_klipo: "Escape".into(),
        ..ShortcutSettings::default()
    };
    let expected = binding("SUPER+SHIFT+KeyV");
    let mut registry = FakeShortcutRegistry::default();

    let active = register_saved_or_default_with(&mut registry, saved)
        .expect("default shortcut registration succeeds");

    assert_eq!(active, ShortcutSettings::default());
    assert!(registry.is_registered(expected.shortcut));
}

#[test]
fn startup_reports_when_saved_and_default_registration_are_unavailable() {
    let defaults = ShortcutSettings::default();
    let default_binding = binding("SUPER+SHIFT+KeyV");
    let mut registry = FakeShortcutRegistry::default();
    registry.register_failures.insert(default_binding.shortcut);

    let error_value = register_saved_or_default_with(&mut registry, defaults)
        .expect_err("startup reports an unavailable shortcut backend");

    assert!(error_value.contains("backend refused registration"));
}

#[test]
fn repeated_save_and_cleanup_do_not_leave_registered_grabs() {
    let shortcut = binding("SUPER+SHIFT+KeyV");
    let mut registry = FakeShortcutRegistry::default();

    register_bindings(&mut registry, &[shortcut]).expect("first registration succeeds");
    replace_bindings(&mut registry, &[shortcut], &[shortcut])
        .expect("same shortcut save is idempotent");
    cleanup_registry(&mut registry).expect("first cleanup succeeds");
    cleanup_registry(&mut registry).expect("second cleanup is idempotent");

    assert!(!registry.is_registered(shortcut.shortcut));
}

#[test]
fn cleanup_releases_divergent_plugin_owned_bindings() {
    let active = binding("SUPER+SHIFT+KeyV");
    let stale = binding("SUPER+ALT+KeyK");
    let mut registry = FakeShortcutRegistry::with_registered(stale.shortcut);

    cleanup_registry(&mut registry).expect("cleanup releases all plugin-owned bindings");

    assert!(!registry.is_registered(active.shortcut));
    assert!(!registry.is_registered(stale.shortcut));
    assert_eq!(registry.history, vec![RegistryOperation::UnregisterAll]);
}

#[test]
fn cleanup_without_an_initialized_backend_is_a_noop() {
    let registry: Option<&mut FakeShortcutRegistry> = None;

    cleanup_registered_shortcuts(registry).expect("cleanup skips an unavailable shortcut backend");
}

#[test]
fn cleanup_reports_a_backend_failure_without_hiding_the_operation() {
    let shortcut = binding("SUPER+SHIFT+KeyV");
    let mut registry = FakeShortcutRegistry::with_registered(shortcut.shortcut);
    registry.unregister_all_failure = true;

    let error_value = cleanup_registry(&mut registry)
        .expect_err("backend cleanup failures are returned to the shutdown caller");

    assert!(error_value.contains(shortcut_backend_name(Platform::Linux)));
    assert!(error_value.contains("backend refused release all"));
    assert!(registry.is_registered(shortcut.shortcut));
    assert_eq!(registry.history, vec![RegistryOperation::UnregisterAll]);
}

#[test]
fn recovery_messages_name_both_failures() {
    assert_eq!(combine_recovery_results(Ok(()), Ok(())), Ok(()));
    assert_eq!(
        combine_recovery_results(Err("a".into()), Err("b".into())),
        Err("a; b".to_owned())
    );
    assert_eq!(
        with_recovery_error("broken".into(), Ok(())),
        "broken; restored the previous global shortcut binding"
    );
    assert_eq!(
        with_registration_cleanup_error("broken".into(), Err("stuck".into())),
        "broken; failed to release partially registered global shortcut bindings (stuck)"
    );
}

#[test]
fn changed_bindings_keep_only_those_missing_from_the_other_list() {
    let a = binding("SUPER+SHIFT+KeyV");
    let b = binding("SUPER+ALT+KeyK");

    assert_eq!(changed_bindings(&[a, b], &[b]), vec![a]);
    assert!(changed_bindings(&[a], &[a]).is_empty());
}

#[test]
fn an_unparsable_open_shortcut_selects_no_binding() {
    let mut settings = ShortcutSettings::default();
    settings.open_klipo = "NOT A SHORTCUT".into();

    assert_eq!(
        global_shortcut_bindings(&settings),
        Err("Open Klipo: unsupported shortcut".to_owned())
    );
}

#[test]
fn without_monitors_the_picker_opens_at_the_origin() {
    assert_eq!(
        picker_position_or_origin(Some(PhysicalPosition::new(5, 5)), &[], (PICKER_WIDTH, PICKER_HEIGHT)),
        PhysicalPosition::new(0, 0)
    );
    let primary = monitor(0, 0, 1920, 1080, work_area(0, 0, 1920, 1080), 1.0, true);
    assert_eq!(
        picker_position_or_origin(Some(PhysicalPosition::new(1900, 5)), &[primary], (PICKER_WIDTH, PICKER_HEIGHT)),
        PhysicalPosition::new(1670, 5)
    );
}

#[test]
fn only_a_pressed_open_shortcut_opens_the_picker() {
    let settings = ShortcutSettings::default();
    let open = binding("SUPER+SHIFT+KeyV").shortcut;
    let other = binding("SUPER+ALT+KeyK").shortcut;

    assert_eq!(
        pressed_action(&settings, open, true),
        Some(GlobalShortcutAction::OpenKlipo)
    );
    assert_eq!(pressed_action(&settings, open, false), None);
    assert_eq!(pressed_action(&settings, other, true), None);
}

#[test]
fn refused_settings_never_reach_the_registry() {
    let previous = ShortcutSettings::default();
    let mut next = ShortcutSettings::default();
    next.open_klipo = "Escape".into();
    let mut registry = FakeShortcutRegistry::with_registered(binding("SUPER+SHIFT+KeyV").shortcut);

    let error_value = replace_global_shortcuts_with(&mut registry, true, &previous, &next)
        .expect_err("Escape is refused");

    assert_eq!(error_value, "Open Klipo: Escape is reserved for closing Klipo");
    assert!(registry.history.is_empty());
}

#[test]
fn unsupported_global_shortcuts_only_validate() {
    let previous = ShortcutSettings::default();
    let mut next = ShortcutSettings::default();
    next.open_klipo = "SUPER+ALT+KeyK".into();
    let mut registry = FakeShortcutRegistry::default();

    assert_eq!(
        replace_global_shortcuts_with(&mut registry, false, &previous, &next),
        Ok(())
    );
    assert!(registry.history.is_empty());

    assert_eq!(
        replace_global_shortcuts_with(&mut registry, true, &previous, &next),
        Ok(())
    );
    assert!(registry.is_registered(binding("SUPER+ALT+KeyK").shortcut));
}
