//! Desktop sessions and the availability of each desktop integration.
use vstd::prelude::*;

use crate::text::str_equals;

verus! {

/// The desktop session detected from the runtime environment.
#[derive(Debug, Clone, Copy, PartialEq, Eq, Structural)]
pub enum DesktopSession {
    X11,
    Wayland,
    Unknown,
}

/// A desktop integration whose availability is reported independently.
#[derive(Debug, Clone, Copy, PartialEq, Eq, Structural, Hash)]
pub enum DesktopCapability {
    ClipboardRead,
    ClipboardWrite,
    Watcher,
    Shortcut,
    Pointer,
    TargetRestoration,
    Input,
    AutomaticPaste,
    Tray,
}

impl DesktopCapability {
    /// Every capability, in reporting order.
    pub const ALL: [DesktopCapability; 9] = [
        DesktopCapability::ClipboardRead,
        DesktopCapability::ClipboardWrite,
        DesktopCapability::Watcher,
        DesktopCapability::Shortcut,
        DesktopCapability::Pointer,
        DesktopCapability::TargetRestoration,
        DesktopCapability::Input,
        DesktopCapability::AutomaticPaste,
        DesktopCapability::Tray,
    ];

    /// Capabilities supplied by a platform adapter. `AutomaticPaste` is
    /// derived from clipboard write, target restoration, and input.
    pub const PROBED: [DesktopCapability; 8] = [
        DesktopCapability::ClipboardRead,
        DesktopCapability::ClipboardWrite,
        DesktopCapability::Watcher,
        DesktopCapability::Shortcut,
        DesktopCapability::Pointer,
        DesktopCapability::TargetRestoration,
        DesktopCapability::Input,
        DesktopCapability::Tray,
    ];
}

/// Stable, machine-readable reasons for an unavailable desktop integration.
#[derive(Debug, Clone, Copy, PartialEq, Eq, Structural)]
pub enum CapabilityUnavailableReason {
    UnsupportedSession,
    UnknownSession,
    AdapterUnavailable,
    InitializationFailed,
}

/// The availability of one desktop integration.
#[derive(Debug, Clone, Copy, PartialEq, Eq, Structural)]
pub enum CapabilityStatus {
    Available,
    Unavailable { reason: CapabilityUnavailableReason },
}

impl CapabilityStatus {
    pub fn available() -> (status: CapabilityStatus)
        ensures
            status == CapabilityStatus::Available,
    {
        CapabilityStatus::Available
    }

    pub fn unavailable(reason: CapabilityUnavailableReason) -> (status: CapabilityStatus)
        ensures
            status == (CapabilityStatus::Unavailable { reason }),
    {
        CapabilityStatus::Unavailable { reason }
    }

    /// The status that a probe result reports.
    pub fn from_probe(result: Result<(), CapabilityUnavailableReason>) -> (status: CapabilityStatus)
        ensures
            status == status_from_probe(result),
    {
        match result {
            Ok(()) => CapabilityStatus::Available,
            Err(reason) => CapabilityStatus::Unavailable { reason },
        }
    }
}

pub open spec fn status_from_probe(result: Result<(), CapabilityUnavailableReason>) -> CapabilityStatus {
    match result {
        Ok(()) => CapabilityStatus::Available,
        Err(reason) => CapabilityStatus::Unavailable { reason },
    }
}

/// Automatic paste needs clipboard write, target restoration and input; it
/// reports the first of their unavailable reasons, in that order.
pub open spec fn derived_automatic_paste(
    clipboard_write: CapabilityStatus,
    target_restoration: CapabilityStatus,
    input: CapabilityStatus,
) -> CapabilityStatus {
    if clipboard_write is Unavailable {
        clipboard_write
    } else if target_restoration is Unavailable {
        target_restoration
    } else if input is Unavailable {
        input
    } else {
        CapabilityStatus::Available
    }
}

/// Capability data safe to return across the application boundary.
///
/// Native window, display, and input identifiers deliberately do not appear in
/// this type. They are owned by the platform adapter that produced the probes.
#[derive(Debug, Clone, Copy, PartialEq, Eq, Structural)]
pub struct DesktopCapabilities {
    pub session: DesktopSession,
    pub clipboard_read: CapabilityStatus,
    pub clipboard_write: CapabilityStatus,
    pub watcher: CapabilityStatus,
    pub shortcut: CapabilityStatus,
    pub pointer: CapabilityStatus,
    pub target_restoration: CapabilityStatus,
    pub input: CapabilityStatus,
    /// This is derived from clipboard write, target restoration, and input.
    pub automatic_paste: CapabilityStatus,
    pub tray: CapabilityStatus,
}

impl DesktopCapabilities {
    /// The status recorded for one capability.
    pub open spec fn status_of(self, capability: DesktopCapability) -> CapabilityStatus {
        match capability {
            DesktopCapability::ClipboardRead => self.clipboard_read,
            DesktopCapability::ClipboardWrite => self.clipboard_write,
            DesktopCapability::Watcher => self.watcher,
            DesktopCapability::Shortcut => self.shortcut,
            DesktopCapability::Pointer => self.pointer,
            DesktopCapability::TargetRestoration => self.target_restoration,
            DesktopCapability::Input => self.input,
            DesktopCapability::AutomaticPaste => self.automatic_paste,
            DesktopCapability::Tray => self.tray,
        }
    }

    /// Automatic paste agrees with the three capabilities it is derived from.
    pub open spec fn is_consistent(self) -> bool {
        self.automatic_paste == derived_automatic_paste(
            self.clipboard_write,
            self.target_restoration,
            self.input,
        )
    }

    /// Every capability of `session` unavailable for the same reason.
    pub fn unavailable(session: DesktopSession, reason: CapabilityUnavailableReason) -> (caps: Self)
        ensures
            caps.session == session,
            forall|c: DesktopCapability| #[trigger]
                caps.status_of(c) == (CapabilityStatus::Unavailable { reason }),
            caps.is_consistent(),
    {
        let status = CapabilityStatus::Unavailable { reason };
        DesktopCapabilities {
            session,
            clipboard_read: status,
            clipboard_write: status,
            watcher: status,
            shortcut: status,
            pointer: status,
            target_restoration: status,
            input: status,
            automatic_paste: status,
            tray: status,
        }
    }

    /// Builds the capabilities of `session` from the statuses of the probed
    /// capabilities, given in the order of `DesktopCapability::PROBED`.
    pub fn from_statuses(session: DesktopSession, statuses: [CapabilityStatus; 8]) -> (caps: Self)
        ensures
            caps.session == session,
            caps.clipboard_read == statuses[0],
            caps.clipboard_write == statuses[1],
            caps.watcher == statuses[2],
            caps.shortcut == statuses[3],
            caps.pointer == statuses[4],
            caps.target_restoration == statuses[5],
            caps.input == statuses[6],
            caps.tray == statuses[7],
            caps.is_consistent(),
    {
        let clipboard_write = statuses[1];
        let target_restoration = statuses[5];
        let input = statuses[6];
        Self {
            session,
            clipboard_read: statuses[0],
            clipboard_write,
            watcher: statuses[2],
            shortcut: statuses[3],
            pointer: statuses[4],
            target_restoration,
            input,
            automatic_paste: automatic_paste_status(clipboard_write, target_restoration, input),
            tray: statuses[7],
        }
    }

    /// The status recorded for one capability.
    pub fn status(&self, capability: DesktopCapability) -> (status: CapabilityStatus)
        ensures
            status == self.status_of(capability),
    {
        match capability {
            DesktopCapability::ClipboardRead => self.clipboard_read,
            DesktopCapability::ClipboardWrite => self.clipboard_write,
            DesktopCapability::Watcher => self.watcher,
            DesktopCapability::Shortcut => self.shortcut,
            DesktopCapability::Pointer => self.pointer,
            DesktopCapability::TargetRestoration => self.target_restoration,
            DesktopCapability::Input => self.input,
            DesktopCapability::AutomaticPaste => self.automatic_paste,
            DesktopCapability::Tray => self.tray,
        }
    }

    /// Records the status of one probed capability and derives automatic
    /// paste again. Automatic paste itself is never recorded directly.
    pub fn set_status(&mut self, capability: DesktopCapability, status: CapabilityStatus)
        ensures
            *final(self) == set_status_spec(*old(self), capability, status),
            final(self).session == old(self).session,
            final(self).is_consistent(),
            forall|c: DesktopCapability|
                c != DesktopCapability::AutomaticPaste ==> #[trigger] final(self).status_of(c) == (
                if c == capability {
                    status
                } else {
                    old(self).status_of(c)
                }),
    {
        match capability {
            DesktopCapability::ClipboardRead => self.clipboard_read = status,
            DesktopCapability::ClipboardWrite => self.clipboard_write = status,
            DesktopCapability::Watcher => self.watcher = status,
            DesktopCapability::Shortcut => self.shortcut = status,
            DesktopCapability::Pointer => self.pointer = status,
            DesktopCapability::TargetRestoration => self.target_restoration = status,
            DesktopCapability::Input => self.input = status,
            DesktopCapability::AutomaticPaste => {},
            DesktopCapability::Tray => self.tray = status,
        }
        self.automatic_paste = automatic_paste_status(
            self.clipboard_write,
            self.target_restoration,
            self.input,
        );
    }
}

/// One `set_status`, as a value.
pub open spec fn set_status_spec(
    caps: DesktopCapabilities,
    capability: DesktopCapability,
    status: CapabilityStatus,
) -> DesktopCapabilities {
    let c = match capability {
        DesktopCapability::ClipboardRead => DesktopCapabilities { clipboard_read: status, ..caps },
        DesktopCapability::ClipboardWrite => DesktopCapabilities { clipboard_write: status, ..caps },
        DesktopCapability::Watcher => DesktopCapabilities { watcher: status, ..caps },
        DesktopCapability::Shortcut => DesktopCapabilities { shortcut: status, ..caps },
        DesktopCapability::Pointer => DesktopCapabilities { pointer: status, ..caps },
        DesktopCapability::TargetRestoration => DesktopCapabilities {
            target_restoration: status,
            ..caps
        },
        DesktopCapability::Input => DesktopCapabilities { input: status, ..caps },
        DesktopCapability::AutomaticPaste => caps,
        DesktopCapability::Tray => DesktopCapabilities { tray: status, ..caps },
    };
    DesktopCapabilities {
        automatic_paste: derived_automatic_paste(
            c.clipboard_write,
            c.target_restoration,
            c.input,
        ),
        ..c
    }
}

/// Automatic paste is available only when clipboard write, target
/// restoration and input all are; otherwise it carries the first
/// unavailable reason among them.
pub fn automatic_paste_status(
    clipboard_write: CapabilityStatus,
    target_restoration: CapabilityStatus,
    input: CapabilityStatus,
) -> (status: CapabilityStatus)
    ensures
        status == derived_automatic_paste(clipboard_write, target_restoration, input),
{
    let statuses = [clipboard_write, target_restoration, input];
    let mut i: usize = 0;
    while i < 3
        invariant
            i <= 3,
            statuses@ == seq![clipboard_write, target_restoration, input],
            forall|j: int| 0 <= j < i ==> statuses@[j] is Available,
        decreases 3 - i,
    {
        match statuses[i] {
            CapabilityStatus::Available => {},
            CapabilityStatus::Unavailable { reason } => {
                return CapabilityStatus::Unavailable { reason };
            },
        }
        i = i + 1;
    }
    CapabilityStatus::Available
}

/// Boundary for platform integrations. Implementations retain all native
/// handles; the domain receives only a success or stable failure reason.
pub trait DesktopAdapter {
    fn probe(&self, capability: DesktopCapability) -> Result<(), CapabilityUnavailableReason>;
}

/// The adapter, asked to probe `capability`, gave an answer whose status is
/// `status`.
pub open spec fn probed_as<A: DesktopAdapter>(
    adapter: &A,
    capability: DesktopCapability,
    status: CapabilityStatus,
) -> bool {
    exists|answer: Result<(), CapabilityUnavailableReason>|
        #[trigger] call_ensures(A::probe, (adapter, capability), answer) && status
            == status_from_probe(answer)
}

/// Collect capability status without assuming an entire session is supported:
/// every probed capability has the status of the adapter's answer for it,
/// and automatic paste is derived from them, never probed.
pub fn detect_capabilities<A: DesktopAdapter>(session: DesktopSession, adapter: &A) -> (caps:
    DesktopCapabilities)
    ensures
        caps.session == session,
        caps.is_consistent(),
        forall|c: DesktopCapability|
            #![trigger caps.status_of(c)]
            c != DesktopCapability::AutomaticPaste ==> probed_as(adapter, c, caps.status_of(c)),
{
    let probe = A::probe;
    let clipboard_read = CapabilityStatus::from_probe(probe(adapter, DesktopCapability::ClipboardRead));
    assert(probed_as(adapter, DesktopCapability::ClipboardRead, clipboard_read));
    let clipboard_write = CapabilityStatus::from_probe(probe(adapter, DesktopCapability::ClipboardWrite));
    assert(probed_as(adapter, DesktopCapability::ClipboardWrite, clipboard_write));
    let watcher = CapabilityStatus::from_probe(probe(adapter, DesktopCapability::Watcher));
    assert(probed_as(adapter, DesktopCapability::Watcher, watcher));
    let shortcut = CapabilityStatus::from_probe(probe(adapter, DesktopCapability::Shortcut));
    assert(probed_as(adapter, DesktopCapability::Shortcut, shortcut));
    let pointer = CapabilityStatus::from_probe(probe(adapter, DesktopCapability::Pointer));
    assert(probed_as(adapter, DesktopCapability::Pointer, pointer));
    let target_restoration = CapabilityStatus::from_probe(
        probe(adapter, DesktopCapability::TargetRestoration),
    );
    assert(probed_as(adapter, DesktopCapability::TargetRestoration, target_restoration));
    let input = CapabilityStatus::from_probe(probe(adapter, DesktopCapability::Input));
    assert(probed_as(adapter, DesktopCapability::Input, input));
    let tray = CapabilityStatus::from_probe(probe(adapter, DesktopCapability::Tray));
    assert(probed_as(adapter, DesktopCapability::Tray, tray));
    let caps = DesktopCapabilities::from_statuses(
        session,
        [clipboard_read, clipboard_write, watcher, shortcut, pointer, target_restoration, input, tray],
    );
    assert forall|c: DesktopCapability| c != DesktopCapability::AutomaticPaste implies probed_as(
        adapter,
        c,
        #[trigger] caps.status_of(c),
    ) by {
        match c {
            DesktopCapability::ClipboardRead => {},
            DesktopCapability::ClipboardWrite => {},
            DesktopCapability::Watcher => {},
            DesktopCapability::Shortcut => {},
            DesktopCapability::Pointer => {},
            DesktopCapability::TargetRestoration => {},
            DesktopCapability::Input => {},
            DesktopCapability::AutomaticPaste => {},
            DesktopCapability::Tray => {},
        }
    }
    caps
}

/// Source of session variables; an empty variable reads as absent.
pub trait Environment {
    fn variable(&self, name: &str) -> Option<String>;
}

/// The session named by `XDG_SESSION_TYPE` wins; otherwise exactly one of a
/// Wayland display or an X11 display decides, and anything else is unknown.
pub open spec fn session_from_signals(
    xdg_session_type: Option<Seq<char>>,
    has_wayland_display: bool,
    has_x11_display: bool,
) -> DesktopSession {
    if xdg_session_type == Some("x11"@) {
        DesktopSession::X11
    } else if xdg_session_type == Some("wayland"@) {
        DesktopSession::Wayland
    } else if has_wayland_display && !has_x11_display {
        DesktopSession::Wayland
    } else if !has_wayland_display && has_x11_display {
        DesktopSession::X11
    } else {
        DesktopSession::Unknown
    }
}

/// A variable that is unset or empty reads as absent.
pub open spec fn present(value: Option<Seq<char>>) -> Option<Seq<char>> {
    match value {
        Some(v) => if v.len() == 0 {
            None
        } else {
            Some(v)
        },
        None => None,
    }
}

pub open spec fn option_str_chars(value: Option<&str>) -> Option<Seq<char>> {
    match value {
        Some(v) => Some(v@),
        None => None,
    }
}

/// Decides the session from the value of `XDG_SESSION_TYPE` and whether a
/// Wayland and an X11 display are named, every value taken as it is.
pub fn session_from_variables(
    xdg_session_type: Option<&str>,
    has_wayland_display: bool,
    has_x11_display: bool,
) -> (session: DesktopSession)
    ensures
        session == session_from_signals(
            option_str_chars(xdg_session_type),
            has_wayland_display,
            has_x11_display,
        ),
{
    let named = match xdg_session_type {
        Some(value) => {
            if str_equals(value, "x11") {
                Some(DesktopSession::X11)
            } else if str_equals(value, "wayland") {
                Some(DesktopSession::Wayland)
            } else {
                None
            }
        },
        None => None,
    };
    proof {
        reveal_strlit("x11");
        reveal_strlit("wayland");
    }
    match named {
        Some(session) => session,
        None => {
            if has_wayland_display && !has_x11_display {
                DesktopSession::Wayland
            } else if !has_wayland_display && has_x11_display {
                DesktopSession::X11
            } else {
                DesktopSession::Unknown
            }
        },
    }
}

/// Detects the active display protocol from the values of
/// `XDG_SESSION_TYPE`, `WAYLAND_DISPLAY` and `DISPLAY` as the process
/// environment holds them: there, an empty variable reads as absent.
pub fn detect_session(
    xdg_session_type: Option<&str>,
    wayland_display: Option<&str>,
    display: Option<&str>,
) -> (session: DesktopSession)
    ensures
        session == session_from_signals(
            present(option_str_chars(xdg_session_type)),
            present(option_str_chars(wayland_display)) is Some,
            present(option_str_chars(display)) is Some,
        ),
{
    let has_wayland_display = match wayland_display {
        Some(value) => !value.is_empty(),
        None => false,
    };
    let has_x11_display = match display {
        Some(value) => !value.is_empty(),
        None => false,
    };
    let xdg = match xdg_session_type {
        Some(value) => if value.is_empty() {
            None
        } else {
            Some(value)
        },
        None => None,
    };
    session_from_variables(xdg, has_wayland_display, has_x11_display)
}

pub open spec fn option_string_chars(value: Option<String>) -> Option<Seq<char>> {
    match value {
        Some(v) => Some(v@),
        None => None,
    }
}

/// Reads the three session variables from `environment` and decides the
/// session from them; every value the environment returns counts, an empty
/// one too.
pub fn detect_session_from<E: Environment>(environment: &E) -> (session: DesktopSession)
    ensures
        exists|xdg_session_type: Option<String>, wayland_display: Option<String>, display: Option<String>|
            {
                &&& #[trigger] call_ensures(
                    E::variable,
                    (environment, "XDG_SESSION_TYPE"),
                    xdg_session_type,
                )
                &&& #[trigger] call_ensures(E::variable, (environment, "WAYLAND_DISPLAY"), wayland_display)
                &&& #[trigger] call_ensures(E::variable, (environment, "DISPLAY"), display)
                &&& session == session_from_signals(
                    option_string_chars(xdg_session_type),
                    wayland_display is Some,
                    display is Some,
                )
            },
{
    let read = E::variable;
    let xdg_session_type = read(environment, "XDG_SESSION_TYPE");
    let wayland_display = read(environment, "WAYLAND_DISPLAY");
    let display = read(environment, "DISPLAY");
    let xdg = match &xdg_session_type {
        Some(value) => Some(value.as_str()),
        None => None,
    };
    session_from_variables(xdg, wayland_display.is_some(), display.is_some())
}

} // verus!
