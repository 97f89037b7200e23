use std::cell::{Cell, RefCell};

use klipo::tray::{
    construct_and_retain, execute_menu_action, menu_action, remove_tray, take_retained,
    TrayManager, TrayMenuAction, TrayMenuOperations, OPEN_PICKER_MENU_ID, QUIT_MENU_ID,
    SETTINGS_MENU_ID, TRAY_ID,
};

struct FakeTrayMenuOperations {
    actions: RefCell<Vec<TrayMenuAction>>,
    open_picker_result: Result<(), String>,
    settings_result: Result<(), String>,
    quit_called: Cell<bool>,
}

struct FakeTrayManager<'a> {
    events: &'a RefCell<Vec<&'static str>>,
}

impl TrayManager for FakeTrayManager<'_> {
    fn remove_tray_by_id(&self, tray_id: &str) {
        assert_eq!(tray_id, TRAY_ID);
        self.events.borrow_mut().push("managed tray");
    }
}

struct RetainedTestTray<'a> {
    events: &'a RefCell<Vec<&'static str>>,
}

impl Drop for RetainedTestTray<'_> {
    fn drop(&mut self) {
        self.events.borrow_mut().push("retained tray");
    }
}

impl Default for FakeTrayMenuOperations {
    fn default() -> Self {
        Self {
            actions: RefCell::new(Vec::new()),
            open_picker_result: Ok(()),
            settings_result: Ok(()),
            quit_called: Cell::new(false),
        }
    }
}

impl TrayMenuOperations for FakeTrayMenuOperations {
    fn open_picker(&self) -> Result<(), String> {
        self.actions.borrow_mut().push(TrayMenuAction::OpenPicker);
        self.open_picker_result.clone()
    }

    fn show_settings(&self) -> Result<(), String> {
        self.actions.borrow_mut().push(TrayMenuAction::Settings);
        self.settings_result.clone()
    }

    fn quit(&self) {
        self.actions.borrow_mut().push(TrayMenuAction::Quit);
        self.quit_called.set(true);
    }
}

#[test]
fn retains_a_successfully_constructed_tray() {
    let retained = Cell::new(None);

    let result = construct_and_retain(|| Ok::<_, &str>(42), |tray| retained.set(Some(tray)));

    assert_eq!(result, Ok(()));
    assert_eq!(retained.get(), Some(42));
}

#[test]
fn does_not_retain_a_failed_tray_construction() {
    let retained = Cell::new(false);

    let result = construct_and_retain(
        || Err::<(), _>("tray host unavailable"),
        |_| retained.set(true),
    );

    assert_eq!(result, Err("tray host unavailable"));
    assert!(!retained.get());
}

#[test]
fn removes_the_managed_tray_before_dropping_the_retained_clone() {
    let events = RefCell::new(Vec::new());
    let mut retained = Some(RetainedTestTray { events: &events });
    let manager = FakeTrayManager { events: &events };

    remove_tray(&manager, &mut retained);
    remove_tray(&manager, &mut retained);

    assert_eq!(
        events.borrow().as_slice(),
        ["managed tray", "retained tray"]
    );
}

#[test]
fn maps_each_tray_menu_item_to_its_action() {
    assert_eq!(
        menu_action(OPEN_PICKER_MENU_ID),
        Some(TrayMenuAction::OpenPicker)
    );
    assert_eq!(
        menu_action(SETTINGS_MENU_ID),
        Some(TrayMenuAction::Settings)
    );
    assert_eq!(menu_action(QUIT_MENU_ID), Some(TrayMenuAction::Quit));
    assert_eq!(menu_action("unknown"), None);
}

#[test]
fn runs_open_picker_settings_and_quit_actions() {
    let operations = FakeTrayMenuOperations::default();

    assert_eq!(
        execute_menu_action(&operations, TrayMenuAction::OpenPicker),
        Ok(())
    );
    assert_eq!(
        execute_menu_action(&operations, TrayMenuAction::Settings),
        Ok(())
    );
    assert_eq!(
        execute_menu_action(&operations, TrayMenuAction::Quit),
        Ok(())
    );

    assert_eq!(
        operations.actions.into_inner(),
        vec![
            TrayMenuAction::OpenPicker,
            TrayMenuAction::Settings,
            TrayMenuAction::Quit,
        ]
    );
    assert!(operations.quit_called.get());
}

#[test]
fn returns_action_errors_without_running_quit() {
    let operations = FakeTrayMenuOperations {
        open_picker_result: Err("picker unavailable".into()),
        ..Default::default()
    };

    let result = execute_menu_action(&operations, TrayMenuAction::OpenPicker);

    assert_eq!(result, Err("picker unavailable".into()));
    assert!(!operations.quit_called.get());
}

#[test]
fn menu_ids_are_stable() {
    assert_eq!(menu_action("open-picker"), Some(TrayMenuAction::OpenPicker));
    assert_eq!(menu_action("settings"), Some(TrayMenuAction::Settings));
    assert_eq!(menu_action("quit"), Some(TrayMenuAction::Quit));
    assert_eq!(menu_action("Quit"), None);
    assert_eq!(TRAY_ID, "klipo-tray");
}

#[test]
fn taking_the_retained_resource_leaves_nothing_behind() {
    let mut retained = Some(5);

    assert_eq!(take_retained(&mut retained), Some(5));
    assert_eq!(retained, None);
    assert_eq!(take_retained(&mut retained), None);
}
