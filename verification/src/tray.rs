//! The tray menu's actions and the lifecycle of the retained tray icon.
use vstd::prelude::*;

use crate::text::str_equals;

verus! {

pub const OPEN_PICKER_MENU_ID: &'static str = "open-picker";

pub const SETTINGS_MENU_ID: &'static str = "settings";

pub const QUIT_MENU_ID: &'static str = "quit";

pub const TRAY_ID: &'static str = "klipo-tray";

/// What a tray menu item asks for.
#[derive(Debug, Clone, Copy, PartialEq, Eq, Structural)]
pub enum TrayMenuAction {
    OpenPicker,
    Settings,
    Quit,
}

/// The action of the menu item with `menu_id`, if it is one of Klipo's.
pub open spec fn menu_action_for(menu_id: Seq<char>) -> Option<TrayMenuAction> {
    if menu_id == "open-picker"@ {
        Some(TrayMenuAction::OpenPicker)
    } else if menu_id == "settings"@ {
        Some(TrayMenuAction::Settings)
    } else if menu_id == "quit"@ {
        Some(TrayMenuAction::Quit)
    } else {
        None
    }
}

pub fn menu_action(menu_id: &str) -> (action: Option<TrayMenuAction>)
    ensures
        action == menu_action_for(menu_id@),
{
    proof {
        reveal_strlit("open-picker");
        reveal_strlit("settings");
        reveal_strlit("quit");
    }
    if str_equals(menu_id, OPEN_PICKER_MENU_ID) {
        Some(TrayMenuAction::OpenPicker)
    } else if str_equals(menu_id, SETTINGS_MENU_ID) {
        Some(TrayMenuAction::Settings)
    } else if str_equals(menu_id, QUIT_MENU_ID) {
        Some(TrayMenuAction::Quit)
    } else {
        None
    }
}

/// The effects of the tray menu. Implementations perform them; nothing is
/// assumed of what they return.
pub trait TrayMenuOperations {
    fn open_picker(&self) -> Result<(), String>;

    fn show_settings(&self) -> Result<(), String>;

    fn quit(&self);
}

/// Runs the effect of `action`: opening the picker and showing the settings
/// return what those operations returned; quitting cannot fail.
pub fn execute_menu_action<O: TrayMenuOperations>(operations: &O, action: TrayMenuAction) -> (result:
    Result<(), String>)
    ensures
        action == TrayMenuAction::OpenPicker ==> call_ensures(O::open_picker, (operations,), result),
        action == TrayMenuAction::Settings ==> call_ensures(O::show_settings, (operations,), result),
        action == TrayMenuAction::Quit ==> result is Ok && call_ensures(O::quit, (operations,), ()),
{
    match action {
        TrayMenuAction::OpenPicker => {
            let open = O::open_picker;
            open(operations)
        },
        TrayMenuAction::Settings => {
            let show = O::show_settings;
            show(operations)
        },
        TrayMenuAction::Quit => {
            let quit = O::quit;
            quit(operations);
            Ok(())
        },
    }
}

/// Builds a resource and hands it to `retain` only when it was built; a
/// failure is returned as is.
pub fn construct_and_retain<T, E>(
    construct: impl FnOnce() -> Result<T, E>,
    retain: impl FnOnce(T),
) -> (result: Result<(), E>)
    requires
        call_requires(construct, ()),
        forall|t: T| #[trigger] call_requires(retain, (t,)),
    ensures
        exists|built: Result<T, E>|
            #[trigger] call_ensures(construct, (), built) && match built {
                Ok(resource) => result is Ok && call_ensures(retain, (resource,), ()),
                Err(e) => result == Err::<(), E>(e),
            },
{
    let built = construct();
    match built {
        Ok(resource) => {
            retain(resource);
            Ok(())
        },
        Err(error_value) => Err(error_value),
    }
}

/// Takes the retained resource out, leaving nothing behind.
pub fn take_retained<T>(retained: &mut Option<T>) -> (taken: Option<T>)
    ensures
        taken == *old(retained),
        *final(retained) is None,
{
    retained.take()
}

/// The platform's tray registry.
pub trait TrayManager {
    fn remove_tray_by_id(&self, tray_id: &str);
}

/// Removes the managed tray, then drops the retained icon; a second call
/// finds nothing retained and does nothing.
pub fn remove_tray<M: TrayManager, T>(manager: &M, retained_tray: &mut Option<T>)
    ensures
        *final(retained_tray) is None,
        (*old(retained_tray)) is Some ==> call_ensures(M::remove_tray_by_id, (manager, TRAY_ID), ()),
{
    match take_retained(retained_tray) {
        Some(_retained_icon) => {
            let remove = M::remove_tray_by_id;
            remove(manager, TRAY_ID);
        },
        None => {},
    }
}

} // verus!
