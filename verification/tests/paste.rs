use klipo::paste::{AppInfo, PasteStateError, WindowManager};
use klipo::startup::Platform;
use klipo::window::{FocusError, FocusPlatform, X11FocusTarget};

struct FakeNative {
    focused: Option<i32>,
    activates: bool,
    activated: Vec<i32>,
}

impl FocusPlatform for FakeNative {
    fn focused_process_id(&mut self) -> Option<i32> {
        self.focused
    }

    fn activate_process(&mut self, process_id: i32) -> bool {
        self.activated.push(process_id);
        self.activates
    }

    fn capture_x11(&mut self) -> Result<X11FocusTarget, FocusError> {
        Err(FocusError::PlatformUnsupported)
    }

    fn restore_x11(&mut self, _target: &X11FocusTarget) -> Result<(), FocusError> {
        Err(FocusError::PlatformUnsupported)
    }
}

#[test]
fn restoring_focus_needs_a_recorded_macos_process() {
    let mut native = FakeNative {
        focused: Some(31),
        activates: true,
        activated: Vec::new(),
    };
    let mut manager = WindowManager::new();

    assert_eq!(
        manager.restore_focus(Platform::Macos, &mut native),
        Err(PasteStateError::WindowHandlerError)
    );
    manager.load_focused_window(Platform::Macos, &mut native);
    assert_eq!(manager.restore_focus(Platform::Macos, &mut native), Ok(()));
    assert_eq!(native.activated, vec![31]);

    native.activates = false;
    assert_eq!(
        manager.restore_focus(Platform::Macos, &mut native),
        Err(PasteStateError::StatePoisonError)
    );
}

#[test]
fn other_platforms_cannot_restore_focus() {
    let mut native = FakeNative {
        focused: Some(31),
        activates: true,
        activated: Vec::new(),
    };
    let mut manager = WindowManager::new();
    manager.load_focused_window(Platform::Linux, &mut native);

    assert_eq!(
        manager.restore_focus(Platform::Linux, &mut native),
        Err(PasteStateError::PlatformUnsupported)
    );
    assert!(native.activated.is_empty());
    assert_eq!(AppInfo { pid: None }, AppInfo { pid: None });
    assert_eq!(
        PasteStateError::PlatformUnsupported.message(),
        "Platform unsupported"
    );
}
