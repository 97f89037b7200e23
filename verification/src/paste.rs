//! The process that was focused before a paste, kept by its process id.
use vstd::prelude::*;

use crate::startup::Platform;
use crate::window::FocusPlatform;

verus! {

/// A process, by its id when one was seen.
#[derive(Debug, Clone, Copy, PartialEq, Eq, Structural)]
pub struct AppInfo {
    pub pid: Option<i32>,
}

#[derive(Debug, Clone, Copy, PartialEq, Eq, Structural)]
pub enum PasteStateError {
    PlatformUnsupported,
    StatePoisonError,
    WindowHandlerError,
}

impl PasteStateError {
    /// The message shown for this error.
    pub fn message(&self) -> (message: &'static str)
        ensures
            message@ == (match *self {
                PasteStateError::PlatformUnsupported => "Platform unsupported"@,
                PasteStateError::StatePoisonError => "State poison error"@,
                PasteStateError::WindowHandlerError => "Window handler error"@,
            }),
    {
        match self {
            PasteStateError::PlatformUnsupported => "Platform unsupported",
            PasteStateError::StatePoisonError => "State poison error",
            PasteStateError::WindowHandlerError => "Window handler error",
        }
    }
}

/// Remembers the last focused process so that focus can be given back.
pub struct WindowManager {
    last_focused_window: AppInfo,
}

impl WindowManager {
    pub closed spec fn last_focused(&self) -> AppInfo {
        self.last_focused_window
    }

    pub fn new() -> (manager: Self)
        ensures
            manager.last_focused().pid is None,
    {
        WindowManager { last_focused_window: AppInfo { pid: None } }
    }

    /// Records the frontmost process; only macOS can report one, and
    /// elsewhere neither the record nor the platform is touched.
    pub fn load_focused_window<F: FocusPlatform>(&mut self, platform: Platform, native: &mut F)
        ensures
            platform != Platform::Macos ==> final(self).last_focused() == old(self).last_focused()
                && *final(native) == *old(native),
            platform == Platform::Macos ==> exists|call: &mut F, pid: Option<i32>|
                #[trigger] call_ensures(F::focused_process_id, (call,), pid) && mut_ref_current(call)
                    == *old(native) && mut_ref_future(call) == *final(native)
                    && final(self).last_focused() == (AppInfo { pid }),
    {
        if platform == Platform::Macos {
            let focused = F::focused_process_id;
            self.last_focused_window = AppInfo { pid: focused(native) };
        }
    }

    /// Activates the recorded process. Only macOS can; a missing process id
    /// is reported as an error, and otherwise the result follows the
    /// platform's answer to activating the recorded process.
    pub fn restore_focus<F: FocusPlatform>(&self, platform: Platform, native: &mut F) -> (result:
        Result<(), PasteStateError>)
        ensures
            platform != Platform::Macos ==> result == Err::<(), PasteStateError>(
                PasteStateError::PlatformUnsupported,
            ) && *final(native) == *old(native),
            platform == Platform::Macos && self.last_focused().pid is None ==> result == Err::<
                (),
                PasteStateError,
            >(PasteStateError::WindowHandlerError) && *final(native) == *old(native),
            platform == Platform::Macos ==> (self.last_focused().pid matches Some(id) ==> exists|
                call: &mut F,
                activated: bool,
            |
                #[trigger] call_ensures(F::activate_process, (call, id), activated) && mut_ref_current(
                    call,
                ) == *old(native) && mut_ref_future(call) == *final(native) && result == (if activated {
                    Ok::<(), PasteStateError>(())
                } else {
                    Err::<(), PasteStateError>(PasteStateError::StatePoisonError)
                })),
    {
        if platform != Platform::Macos {
            return Err(PasteStateError::PlatformUnsupported);
        }
        let pid = match self.last_focused_window.pid {
            Some(pid) => pid,
            None => return Err(PasteStateError::WindowHandlerError),
        };
        let activate = F::activate_process;
        if activate(native, pid) {
            Ok(())
        } else {
            Err(PasteStateError::StatePoisonError)
        }
    }
}

} // verus!
