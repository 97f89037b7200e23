//! The window that had focus before the picker opened: capturing it,
//! giving focus back to it, and the X11 protocol steps behind both.
use vstd::prelude::*;

use crate::desktop::DesktopSession;
use crate::startup::Platform;

verus! {

#[derive(Debug, Clone, Copy, PartialEq, Eq, Structural)]
pub enum FocusError {
    PlatformUnsupported,
    StatePoisoned,
    FocusedWindowUnavailable,
}

impl FocusError {
    /// The message shown for this error.
    pub fn message(&self) -> (message: &'static str)
        ensures
            message@ == focus_error_message(*self),
    {
        match self {
            FocusError::PlatformUnsupported => "Platform unsupported",
            FocusError::StatePoisoned => "Focused window state poisoned",
            FocusError::FocusedWindowUnavailable => "Focused window unavailable",
        }
    }
}

pub open spec fn focus_error_message(error: FocusError) -> Seq<char> {
    match error {
        FocusError::PlatformUnsupported => "Platform unsupported"@,
        FocusError::StatePoisoned => "Focused window state poisoned"@,
        FocusError::FocusedWindowUnavailable => "Focused window unavailable"@,
    }
}

/// An X11 window that held focus, by its window id.
#[derive(Debug, Clone, Copy, PartialEq, Eq, Structural)]
pub struct X11FocusTarget {
    pub window: u32,
}

#[derive(Debug, Clone, Copy, PartialEq, Eq, Structural)]
pub enum FocusTargetKind {
    Empty,
    MacosProcess(i32),
    X11(X11FocusTarget),
}

/// The native calls behind focus capture and restoration. Implementations
/// perform them; nothing is assumed of what they return.
pub trait FocusPlatform {
    fn focused_process_id(&mut self) -> Option<i32>;

    fn activate_process(&mut self, process_id: i32) -> bool;

    fn capture_x11(&mut self) -> Result<X11FocusTarget, FocusError>;

    fn restore_x11(&mut self, target: &X11FocusTarget) -> Result<(), FocusError>;
}

/// Opaque focus target: callers can capture, restore, or clear it, but do not
/// see the native identifier it holds.
#[derive(Debug)]
pub struct FocusTarget {
    target: FocusTargetKind,
}

impl FocusTarget {
    pub closed spec fn kind(&self) -> FocusTargetKind {
        self.target
    }

    pub fn empty() -> (target: Self)
        ensures
            target.kind() == FocusTargetKind::Empty,
    {
        FocusTarget { target: FocusTargetKind::Empty }
    }

    /// Whether nothing was captured.
    pub fn is_empty(&self) -> (empty: bool)
        ensures
            empty == (self.kind() == FocusTargetKind::Empty),
    {
        match self.target {
            FocusTargetKind::Empty => true,
            _ => false,
        }
    }

    /// Captures the window that has focus now: the frontmost process on
    /// macOS, the active X11 window on Linux under X11, and nothing anywhere
    /// else. The capture holds what the platform's call returned, and the
    /// platform ends in the state that call left.
    pub fn current<F: FocusPlatform>(platform: Platform, session: DesktopSession, native: &mut F) -> (result:
        Result<Self, FocusError>)
        ensures
            platform == Platform::Other ==> result == Err::<Self, FocusError>(
                FocusError::PlatformUnsupported,
            ) && *final(native) == *old(native),
            platform == Platform::Linux && session != DesktopSession::X11 ==> result == Err::<
                Self,
                FocusError,
            >(FocusError::PlatformUnsupported) && *final(native) == *old(native),
            platform == Platform::Macos ==> exists|call: &mut F, process_id: Option<i32>|
                #[trigger] call_ensures(F::focused_process_id, (call,), process_id)
                    && mut_ref_current(call) == *old(native) && mut_ref_future(call) == *final(native)
                    && match process_id {
                    Some(id) => (result matches Ok(t) && t.kind() == FocusTargetKind::MacosProcess(id)),
                    None => result == Err::<Self, FocusError>(FocusError::FocusedWindowUnavailable),
                },
            platform == Platform::Linux && session == DesktopSession::X11 ==> exists|
                call: &mut F,
                captured: Result<X11FocusTarget, FocusError>,
            |
                #[trigger] call_ensures(F::capture_x11, (call,), captured) && mut_ref_current(call)
                    == *old(native) && mut_ref_future(call) == *final(native) && match captured {
                    Ok(window) => (result matches Ok(t) && t.kind() == FocusTargetKind::X11(window)),
                    Err(e) => result == Err::<Self, FocusError>(e),
                },
    {
        match platform {
            Platform::Macos => {
                let focused = F::focused_process_id;
                match focused(native) {
                    Some(process_id) => Ok(FocusTarget { target: FocusTargetKind::MacosProcess(process_id) }),
                    None => Err(FocusError::FocusedWindowUnavailable),
                }
            },
            Platform::Linux => {
                if session == DesktopSession::X11 {
                    let capture = F::capture_x11;
                    match capture(native) {
                        Ok(target) => Ok(FocusTarget { target: FocusTargetKind::X11(target) }),
                        Err(error) => Err(error),
                    }
                } else {
                    Err(FocusError::PlatformUnsupported)
                }
            },
            Platform::Other => Err(FocusError::PlatformUnsupported),
        }
    }

    /// Gives focus back to the captured window. Nothing captured means there
    /// is nothing to restore; a process that cannot be activated is reported
    /// as unsupported; an X11 restoration returns what the platform returned.
    pub fn restore<F: FocusPlatform>(&self, native: &mut F) -> (result: Result<(), FocusError>)
        ensures
            self.kind() == FocusTargetKind::Empty ==> result == Err::<(), FocusError>(
                FocusError::FocusedWindowUnavailable,
            ) && *final(native) == *old(native),
            self.kind() matches FocusTargetKind::MacosProcess(id) ==> exists|
                call: &mut F,
                activated: bool,
            |
                #[trigger] call_ensures(F::activate_process, (call, id), activated) && mut_ref_current(
                    call,
                ) == *old(native) && mut_ref_future(call) == *final(native) && result == (if activated {
                    Ok::<(), FocusError>(())
                } else {
                    Err::<(), FocusError>(FocusError::PlatformUnsupported)
                }),
            self.kind() matches FocusTargetKind::X11(window) ==> exists|
                call: &mut F,
                restored: Result<(), FocusError>,
            |
                #[trigger] call_ensures(F::restore_x11, (call, &window), restored) && mut_ref_current(call)
                    == *old(native) && mut_ref_future(call) == *final(native) && result == restored,
    {
        match &self.target {
            FocusTargetKind::Empty => Err(FocusError::FocusedWindowUnavailable),
            FocusTargetKind::MacosProcess(process_id) => {
                let activate = F::activate_process;
                if activate(native, *process_id) {
                    Ok(())
                } else {
                    Err(FocusError::PlatformUnsupported)
                }
            },
            FocusTargetKind::X11(target) => {
                let restore = F::restore_x11;
                restore(native, target)
            },
        }
    }
}

/// Stores a fresh capture; a failed capture clears the previous target, so
/// that a stale window is never restored.
pub fn replace_focus_target(
    focus_target: &mut FocusTarget,
    captured_target: Result<FocusTarget, FocusError>,
) -> (result: Result<(), FocusError>)
    ensures
        match captured_target {
            Ok(t) => result is Ok && final(focus_target).kind() == t.kind(),
            Err(e) => result == Err::<(), FocusError>(e) && final(focus_target).kind()
                == FocusTargetKind::Empty,
        },
{
    match captured_target {
        Ok(captured_target) => {
            *focus_target = captured_target;
            Ok(())
        },
        Err(error_value) => {
            *focus_target = FocusTarget::empty();
            Err(error_value)
        },
    }
}

/// Whether the focused process is this one; an id that does not fit an
/// `i32` matches nothing.
pub open spec fn is_current_process_spec(focused_process_id: Option<i32>, current_process_id: u32) -> bool {
    current_process_id <= i32::MAX && focused_process_id == Some(current_process_id as i32)
}

pub fn is_current_process(focused_process_id: Option<i32>, current_process_id: u32) -> (current: bool)
    ensures
        current == is_current_process_spec(focused_process_id, current_process_id),
{
    if current_process_id > 2147483647u32 {
        return false;
    }
    let current_id = current_process_id as i32;
    match focused_process_id {
        Some(focused) => focused == current_id,
        None => false,
    }
}

/// How many times the active window is checked after an activation request.
pub const ACTIVATION_RETRIES: usize = 10;

/// The X11 `ATOM` type.
pub const ATOM_TYPE: u32 = 4;

/// An EWMH `_NET_ACTIVE_WINDOW` client message.
#[derive(Debug, Clone, Copy, PartialEq, Eq, Structural)]
pub struct ActivationRequest {
    pub target: u32,
    pub source: u32,
    pub timestamp: u32,
}

impl ActivationRequest {
    /// A regular application's request (source 1); a global shortcut has no
    /// X event timestamp to forward (timestamp 0).
    pub fn for_target(target: u32) -> (request: Self)
        ensures
            request == (ActivationRequest { target, source: 1, timestamp: 0 }),
    {
        ActivationRequest { target, source: 1, timestamp: 0 }
    }
}

/// The X11 calls behind focus capture and restoration. Implementations
/// perform them; nothing is assumed of what they return.
pub trait X11Protocol {
    fn active_window(&mut self) -> Result<Option<u32>, ()>;

    fn target_is_viewable(&mut self, target: u32) -> Result<bool, ()>;

    fn request_activation(&mut self, request: ActivationRequest) -> Result<(), ()>;
}

/// The atom list of a root window property.
#[derive(Debug, Clone)]
pub struct AtomListProperty {
    pub property_type: u32,
    pub format: u8,
    pub atoms: Vec<u32>,
}

/// The EWMH lookups that tell whether the window manager supports
/// `_NET_ACTIVE_WINDOW`.
pub trait EwmhProtocol {
    fn existing_atom(&mut self, name: &str) -> Result<Option<u32>, ()>;

    fn atom_list_property(&mut self, property: u32) -> Result<Option<AtomListProperty>, ()>;
}

/// A `_NET_SUPPORTED` property announces the active-window atom when it is
/// a 32-bit atom list holding that atom.
pub open spec fn announces_atom(property: AtomListProperty, atom: u32) -> bool {
    property.property_type == ATOM_TYPE && property.format == 32 && property.atoms@.contains(atom)
}

pub fn supported_property_announces(property: &AtomListProperty, active_window_atom: u32) -> (announces: bool)
    ensures
        announces == announces_atom(*property, active_window_atom),
{
    if property.property_type != ATOM_TYPE || property.format != 32 {
        return false;
    }
    let mut i: usize = 0;
    while i < property.atoms.len()
        invariant
            i <= property.atoms.len(),
            property.property_type == ATOM_TYPE,
            property.format == 32,
            forall|j: int| 0 <= j < i ==> property.atoms@[j] != active_window_atom,
        decreases property.atoms.len() - i,
    {
        if property.atoms[i] == active_window_atom {
            assert(property.atoms@[i as int] == active_window_atom);
            return true;
        }
        i = i + 1;
    }
    false
}

/// Checks that the window manager supports `_NET_ACTIVE_WINDOW`: both atoms
/// must exist and `_NET_SUPPORTED` must announce the first. Each lookup runs
/// only when the one before it found what it asked for, and the protocol
/// ends in the state the last lookup left it in.
pub fn validate_active_window_support<P: EwmhProtocol>(protocol: &mut P) -> (result: Result<(), ()>)
    ensures
        exists|first: &mut P, active_window_atom: Result<Option<u32>, ()>|
            #[trigger] call_ensures(P::existing_atom, (first, "_NET_ACTIVE_WINDOW"), active_window_atom)
                && mut_ref_current(first) == *old(protocol) && match active_window_atom {
                Ok(Some(active_atom)) => exists|second: &mut P, supported_atom: Result<Option<u32>, ()>|
                    #[trigger] call_ensures(P::existing_atom, (second, "_NET_SUPPORTED"), supported_atom)
                        && mut_ref_current(second) == mut_ref_future(first) && match supported_atom {
                        Ok(Some(atom)) => exists|
                            third: &mut P,
                            supported_property: Result<Option<AtomListProperty>, ()>,
                        |
                            #[trigger] call_ensures(P::atom_list_property, (third, atom), supported_property)
                                && mut_ref_current(third) == mut_ref_future(second)
                                && mut_ref_future(third) == *final(protocol) && (result is Ok <==> (
                            supported_property matches Ok(Some(property)) && announces_atom(
                                property,
                                active_atom,
                            ))),
                        _ => mut_ref_future(second) == *final(protocol) && result is Err,
                    },
                _ => mut_ref_future(first) == *final(protocol) && result is Err,
            },
{
    let lookup = P::existing_atom;
    let active_window_atom = lookup(protocol, "_NET_ACTIVE_WINDOW");
    let active_atom = match active_window_atom {
        Ok(Some(atom)) => atom,
        _ => return Err(()),
    };
    let supported_atom = lookup(protocol, "_NET_SUPPORTED");
    let supported = match supported_atom {
        Ok(Some(atom)) => atom,
        _ => return Err(()),
    };
    let read_list = P::atom_list_property;
    let supported_property = read_list(protocol, supported);
    let property = match supported_property {
        Ok(Some(property)) => property,
        _ => return Err(()),
    };
    if supported_property_announces(&property, active_atom) {
        Ok(())
    } else {
        Err(())
    }
}

/// What a capture reports, given what the active-window lookup and the
/// viewability check returned.
pub open spec fn capture_outcome(
    active: Result<Option<u32>, ()>,
    viewable: Result<bool, ()>,
) -> Result<X11FocusTarget, FocusError> {
    match active {
        Ok(Some(window)) => if viewable == Ok::<bool, ()>(true) {
            Ok(X11FocusTarget { window })
        } else {
            Err(FocusError::FocusedWindowUnavailable)
        },
        _ => Err(FocusError::FocusedWindowUnavailable),
    }
}

/// Captures the active window when it is viewable; any protocol failure or
/// a missing window reports that no focused window is available. The
/// viewability check runs on the active window, when there is one.
pub fn capture_with<P: X11Protocol>(protocol: &mut P) -> (result: Result<X11FocusTarget, FocusError>)
    ensures
        exists|first: &mut P, active: Result<Option<u32>, ()>|
            #[trigger] call_ensures(P::active_window, (first,), active) && mut_ref_current(first)
                == *old(protocol) && match active {
                Ok(Some(window)) => exists|second: &mut P, viewable: Result<bool, ()>|
                    #[trigger] call_ensures(P::target_is_viewable, (second, window), viewable)
                        && mut_ref_current(second) == mut_ref_future(first) && mut_ref_future(second)
                        == *final(protocol) && result == capture_outcome(active, viewable),
                _ => mut_ref_future(first) == *final(protocol) && result == capture_outcome(
                    active,
                    Err(()),
                ),
            },
{
    let lookup = P::active_window;
    let active = lookup(protocol);
    let target = match active {
        Ok(Some(window)) => window,
        _ => return Err(FocusError::FocusedWindowUnavailable),
    };
    let check = P::target_is_viewable;
    let viewable = check(protocol, target);
    match viewable {
        Ok(true) => Ok(X11FocusTarget { window: target }),
        _ => Err(FocusError::FocusedWindowUnavailable),
    }
}

/// One call the restoration made on the X11 protocol, with its answer.
pub enum ProtocolStep {
    Viewable(u32, Result<bool, ()>),
    Activate(ActivationRequest, Result<(), ()>),
    Active(Result<Option<u32>, ()>),
}

/// `call` was handed to the protocol call `step` names, which answered as
/// `step` says.
pub open spec fn step_called<P: X11Protocol>(call: &mut P, step: ProtocolStep) -> bool {
    match step {
        ProtocolStep::Viewable(window, viewable) => call_ensures(
            P::target_is_viewable,
            (call, window),
            viewable,
        ),
        ProtocolStep::Activate(request, sent) => call_ensures(P::request_activation, (call, request), sent),
        ProtocolStep::Active(active) => call_ensures(P::active_window, (call,), active),
    }
}

/// The protocol calls made, one per step, in order.
pub open spec fn calls_made<P: X11Protocol>(calls: Seq<&mut P>, steps: Seq<ProtocolStep>) -> bool {
    &&& calls.len() == steps.len()
    &&& forall|j: int| 0 <= j < calls.len() ==> #[trigger] step_called(calls[j], steps[j])
}

/// A run of protocol calls extended by one more.
pub proof fn lemma_protocol_push<P: X11Protocol>(
    states: Seq<P>,
    calls: Seq<&mut P>,
    steps: Seq<ProtocolStep>,
    call: &mut P,
    step: ProtocolStep,
    next: P,
)
    requires
        calls_made(calls, steps),
        states.len() == calls.len() + 1 && forall|j: int|
            #![trigger calls[j]]
            0 <= j < calls.len() ==> mut_ref_current(calls[j]) == states[j] && mut_ref_future(calls[j])
                == states[j + 1],
        step_called(call, step),
        mut_ref_current(call) == states.last(),
        mut_ref_future(call) == next,
    ensures
        calls_made(calls.push(call), steps.push(step)),
        (states.push(next).len() == calls.push(call).len() + 1 && forall|j: int|
            #![trigger calls.push(call)[j]]
            0 <= j < calls.push(call).len() ==> mut_ref_current(calls.push(call)[j]) == states.push(next)[j] && mut_ref_future(calls.push(call)[j])
                == states.push(next)[j + 1]),
{
    let c2 = calls.push(call);
    let s2 = states.push(next);
    assert forall|j: int| 0 <= j < c2.len() implies #[trigger] step_called(c2[j], steps.push(step)[j])
        && mut_ref_current(c2[j]) == s2[j] && mut_ref_future(c2[j]) == s2[j + 1] by {
        if j < calls.len() {
            assert(c2[j] == calls[j] && steps.push(step)[j] == steps[j] && s2[j] == states[j]);
            assert(s2[j + 1] == states[j + 1]);
            assert(step_called(calls[j], steps[j]));
        }
    }
}

/// The calls of one check after the activation request: the active window
/// is asked for, and when it is `window` its viewability is checked.
pub open spec fn attempt_calls(window: u32, active: Result<Option<u32>, ()>, viewable: Result<bool, ()>) -> Seq<
    ProtocolStep,
> {
    if active == Ok::<Option<u32>, ()>(Some(window)) {
        seq![ProtocolStep::Active(active), ProtocolStep::Viewable(window, viewable)]
    } else {
        seq![ProtocolStep::Active(active)]
    }
}

/// The calls of the checks `attempts`, in order.
pub open spec fn attempts_calls(
    window: u32,
    attempts: Seq<(Result<Option<u32>, ()>, Result<bool, ()>)>,
) -> Seq<ProtocolStep>
    decreases attempts.len(),
{
    if attempts.len() == 0 {
        Seq::empty()
    } else {
        attempts_calls(window, attempts.drop_last()) + attempt_calls(
            window,
            attempts.last().0,
            attempts.last().1,
        )
    }
}

/// A check that found `window` active and viewable.
pub open spec fn attempt_confirms(window: u32, active: Result<Option<u32>, ()>, viewable: Result<bool, ()>) -> bool {
    active == Ok::<Option<u32>, ()>(Some(window)) && viewable == Ok::<bool, ()>(true)
}

/// A check that ended in a protocol error.
pub open spec fn attempt_fails(window: u32, active: Result<Option<u32>, ()>, viewable: Result<bool, ()>) -> bool {
    active is Err || (active == Ok::<Option<u32>, ()>(Some(window)) && viewable is Err)
}

/// The restoration of `window` made the calls `steps` and gave `result`:
/// the viewability check first; only when that found the window viewable,
/// the activation request; only when that was sent, the checks `attempts`,
/// of which each but the last neither confirmed nor failed, and the last
/// decides.
pub open spec fn restore_followed(window: u32, steps: Seq<ProtocolStep>, result: Result<(), FocusError>) -> bool {
    exists|
        first: Result<bool, ()>,
        sent: Result<(), ()>,
        attempts: Seq<(Result<Option<u32>, ()>, Result<bool, ()>)>,
    |
        #[trigger] restore_outcome(window, first, sent, attempts, steps, result)
}

/// One way the restoration of `window` can go: the first viewability check
/// answered `first`, the activation request `sent`, and the later checks
/// `attempts`; `steps` are the calls that made and `result` what came of it.
pub open spec fn restore_outcome(
    window: u32,
    first: Result<bool, ()>,
    sent: Result<(), ()>,
    attempts: Seq<(Result<Option<u32>, ()>, Result<bool, ()>)>,
    steps: Seq<ProtocolStep>,
    result: Result<(), FocusError>,
) -> bool {
    let request = ActivationRequest { target: window, source: 1, timestamp: 0 };
    match first {
        Ok(true) => match sent {
            Err(()) => steps == seq![
                ProtocolStep::Viewable(window, first),
                ProtocolStep::Activate(request, sent),
            ] && result == Err::<(), FocusError>(FocusError::PlatformUnsupported),
            Ok(()) => {
                &&& steps == seq![
                    ProtocolStep::Viewable(window, first),
                    ProtocolStep::Activate(request, sent),
                ] + attempts_calls(window, attempts)
                &&& 1 <= attempts.len() <= ACTIVATION_RETRIES
                &&& forall|a: int|
                    0 <= a < attempts.len() - 1 ==> !attempt_confirms(
                        window,
                        #[trigger] attempts[a].0,
                        attempts[a].1,
                    ) && !attempt_fails(window, attempts[a].0, attempts[a].1)
                &&& result is Ok <==> attempt_confirms(window, attempts.last().0, attempts.last().1)
                &&& result is Err ==> result == Err::<(), FocusError>(
                    FocusError::FocusedWindowUnavailable,
                ) && (attempt_fails(window, attempts.last().0, attempts.last().1) || attempts.len()
                    == ACTIVATION_RETRIES)
            },
        },
        _ => steps == seq![ProtocolStep::Viewable(window, first)] && result == Err::<(), FocusError>(
            FocusError::FocusedWindowUnavailable,
        ),
    }
}

/// Asks the window manager to activate the captured window, then checks the
/// active window up to `ACTIVATION_RETRIES` times, calling `wait` between
/// checks. Success needs the target to be active and still viewable; a sent
/// request alone is not success. A refused request is reported as
/// unsupported. `states` are the protocol's states through the calls
/// `steps` describes, each call getting the state the one before it left.
pub fn restore_with<P: X11Protocol>(protocol: &mut P, target: &X11FocusTarget, wait: impl FnMut()) -> (result:
    Result<(), FocusError>)
    requires
        call_requires(wait, ()),
    ensures
        exists|states: Seq<P>, calls: Seq<&mut P>, steps: Seq<ProtocolStep>|
            #![trigger calls_made(calls, steps), states.len()]
            calls_made(calls, steps) && states[0] == *old(protocol) && states.last()
                == *final(protocol) && restore_followed(target.window, steps, result) && states.len() == calls.len() + 1 && forall|j: int|
                    #![trigger calls[j]]
                    0 <= j < calls.len() ==> mut_ref_current(calls[j]) == states[j] && mut_ref_future(calls[j])
                        == states[j + 1],
{
    let mut wait = wait;
    let check = P::target_is_viewable;
    let lookup = P::active_window;
    let activate = P::request_activation;
    let ghost states: Seq<P> = seq![*protocol];
    let ghost steps: Seq<ProtocolStep> = Seq::empty();
    assert(calls_made(Seq::<&mut P>::empty(), steps));
    assert(Seq::<&mut P>::empty().len() == 0);
    let first = check(protocol, target.window);
    proof {
        let earlier_states = states;
        let earlier_steps = steps;
        states = states.push(*protocol);
        steps = steps.push(ProtocolStep::Viewable(target.window, first));
        assert forall|calls: Seq<&mut P>, call: &mut P|
            #![trigger calls.len(), call_ensures(P::target_is_viewable, (call, target.window), first)]
            calls_made(calls, earlier_steps) && (earlier_states.len() == calls.len() + 1 && forall|j: int|
                #![trigger calls[j]]
                0 <= j < calls.len() ==> mut_ref_current(calls[j]) == earlier_states[j] && mut_ref_future(calls[j])
                    == earlier_states[j + 1]) && call_ensures(P::target_is_viewable, (call, target.window), first)
                && mut_ref_current(call) == earlier_states.last() && mut_ref_future(call) == *protocol
            implies calls_made(calls.push(call), steps) && (states.len() == calls.push(call).len() + 1 && forall|j: int|
                    #![trigger calls.push(call)[j]]
                    0 <= j < calls.push(call).len() ==> mut_ref_current(calls.push(call)[j]) == states[j] && mut_ref_future(calls.push(call)[j])
                        == states[j + 1]) by {
            lemma_protocol_push(earlier_states, calls, earlier_steps, call, ProtocolStep::Viewable(target.window, first), *protocol);
        }
    }

    let exists = match first {
        Ok(viewable) => viewable,
        Err(()) => {
            assert(restore_outcome(target.window, first, Ok(()), Seq::empty(), steps, Err(FocusError::FocusedWindowUnavailable)));
            return Err(FocusError::FocusedWindowUnavailable);
        },
    };
    if !exists {
        assert(restore_outcome(target.window, first, Ok(()), Seq::empty(), steps, Err(FocusError::FocusedWindowUnavailable)));
        return Err(FocusError::FocusedWindowUnavailable);
    }
    let request = ActivationRequest::for_target(target.window);
    let sent = activate(protocol, request);
    proof {
        let earlier_states = states;
        let earlier_steps = steps;
        states = states.push(*protocol);
        steps = steps.push(ProtocolStep::Activate(request, sent));
        assert forall|calls: Seq<&mut P>, call: &mut P|
            #![trigger calls.len(), call_ensures(P::request_activation, (call, request), sent)]
            calls_made(calls, earlier_steps) && (earlier_states.len() == calls.len() + 1 && forall|j: int|
                #![trigger calls[j]]
                0 <= j < calls.len() ==> mut_ref_current(calls[j]) == earlier_states[j] && mut_ref_future(calls[j])
                    == earlier_states[j + 1]) && call_ensures(P::request_activation, (call, request), sent)
                && mut_ref_current(call) == earlier_states.last() && mut_ref_future(call) == *protocol
            implies calls_made(calls.push(call), steps) && (states.len() == calls.push(call).len() + 1 && forall|j: int|
                    #![trigger calls.push(call)[j]]
                    0 <= j < calls.push(call).len() ==> mut_ref_current(calls.push(call)[j]) == states[j] && mut_ref_future(calls.push(call)[j])
                        == states[j + 1]) by {
            lemma_protocol_push(earlier_states, calls, earlier_steps, call, ProtocolStep::Activate(request, sent), *protocol);
        }
    }

    match sent {
        Ok(()) => {},
        Err(()) => {
            assert(steps =~= seq![
                ProtocolStep::Viewable(target.window, first),
                ProtocolStep::Activate(request, sent),
            ]);
            assert(restore_outcome(target.window, first, sent, Seq::empty(), steps, Err(FocusError::PlatformUnsupported)));
            return Err(FocusError::PlatformUnsupported);
        },
    }
    proof {
        if let Ok(unit) = sent {
            assert(unit == ());
        }
    }
    let ghost attempts: Seq<(Result<Option<u32>, ()>, Result<bool, ()>)> = seq![];
    let ghost prefix: Seq<ProtocolStep> = steps;
    assert(attempts_calls(target.window, attempts) =~= Seq::<ProtocolStep>::empty());
    assert(steps =~= prefix + attempts_calls(target.window, attempts));
    let mut attempt: usize = 0;
    while attempt < ACTIVATION_RETRIES
        invariant
            attempt <= ACTIVATION_RETRIES,
            call_requires(wait, ()),
            first == Ok::<bool, ()>(true),
            request == (ActivationRequest { target: target.window, source: 1, timestamp: 0 }),
            sent == Ok::<(), ()>(()),
            prefix == seq![ProtocolStep::Viewable(target.window, first), ProtocolStep::Activate(request, sent)],
            steps == prefix + attempts_calls(target.window, attempts),
            states[0] == *old(protocol),
            states.last() == *protocol,
            attempts.len() == attempt,
            forall|a: int|
                0 <= a < attempts.len() ==> !attempt_confirms(
                    target.window,
                    #[trigger] attempts[a].0,
                    attempts[a].1,
                ) && !attempt_fails(target.window, attempts[a].0, attempts[a].1),
            exists|calls: Seq<&mut P>|
                #![trigger calls.len()]
                calls_made(calls, steps) && states.len() == calls.len() + 1 && forall|j: int|
                    #![trigger calls[j]]
                    0 <= j < calls.len() ==> mut_ref_current(calls[j]) == states[j] && mut_ref_future(calls[j])
                        == states[j + 1],
        decreases ACTIVATION_RETRIES - attempt,
    {
        let ghost earlier_attempts = attempts;
        let active = lookup(protocol);
        proof {
            let earlier_states = states;
            let earlier_steps = steps;
            states = states.push(*protocol);
            steps = steps.push(ProtocolStep::Active(active));
            assert forall|calls: Seq<&mut P>, call: &mut P|
                #![trigger calls.len(), call_ensures(P::active_window, (call,), active)]
                calls_made(calls, earlier_steps) && (earlier_states.len() == calls.len() + 1 && forall|j: int|
                    #![trigger calls[j]]
                    0 <= j < calls.len() ==> mut_ref_current(calls[j]) == earlier_states[j] && mut_ref_future(calls[j])
                        == earlier_states[j + 1]) && call_ensures(P::active_window, (call,), active)
                    && mut_ref_current(call) == earlier_states.last() && mut_ref_future(call) == *protocol
                implies calls_made(calls.push(call), steps) && (states.len() == calls.push(call).len() + 1 && forall|j: int|
                        #![trigger calls.push(call)[j]]
                        0 <= j < calls.push(call).len() ==> mut_ref_current(calls.push(call)[j]) == states[j] && mut_ref_future(calls.push(call)[j])
                            == states[j + 1]) by {
                lemma_protocol_push(earlier_states, calls, earlier_steps, call, ProtocolStep::Active(active), *protocol);
            }
        }

        let active_window = match active {
            Ok(window) => window,
            Err(()) => {
                proof {
                    attempts = attempts.push((active, Ok(false)));
                    assert(attempts.drop_last() =~= earlier_attempts);
                    assert(steps =~= prefix + attempts_calls(target.window, attempts));
                    assert forall|a: int| 0 <= a < attempts.len() - 1 implies !attempt_confirms(
                        target.window,
                        #[trigger] attempts[a].0,
                        attempts[a].1,
                    ) && !attempt_fails(target.window, attempts[a].0, attempts[a].1) by {
                        assert(attempts[a] == earlier_attempts[a]);
                    }
                    assert(restore_outcome(target.window, first, sent, attempts, steps, Err(FocusError::FocusedWindowUnavailable)));
                }
                return Err(FocusError::FocusedWindowUnavailable);
            },
        };
        let mut viewable: Result<bool, ()> = Ok(false);
        if active_window == Some(target.window) {
            viewable = check(protocol, target.window);
            proof {
                let earlier_states = states;
                let earlier_steps = steps;
                states = states.push(*protocol);
                steps = steps.push(ProtocolStep::Viewable(target.window, viewable));
                assert forall|calls: Seq<&mut P>, call: &mut P|
                    #![trigger calls.len(), call_ensures(P::target_is_viewable, (call, target.window), viewable)]
                    calls_made(calls, earlier_steps) && (earlier_states.len() == calls.len() + 1 && forall|j: int|
                        #![trigger calls[j]]
                        0 <= j < calls.len() ==> mut_ref_current(calls[j]) == earlier_states[j] && mut_ref_future(calls[j])
                            == earlier_states[j + 1]) && call_ensures(P::target_is_viewable, (call, target.window), viewable)
                        && mut_ref_current(call) == earlier_states.last() && mut_ref_future(call) == *protocol
                    implies calls_made(calls.push(call), steps) && (states.len() == calls.push(call).len() + 1 && forall|j: int|
                            #![trigger calls.push(call)[j]]
                            0 <= j < calls.push(call).len() ==> mut_ref_current(calls.push(call)[j]) == states[j] && mut_ref_future(calls.push(call)[j])
                                == states[j + 1]) by {
                    lemma_protocol_push(earlier_states, calls, earlier_steps, call, ProtocolStep::Viewable(target.window, viewable), *protocol);
                }
            }

            proof {
                assert(attempts.push((active, viewable)).drop_last() =~= attempts);
                assert(attempts_calls(target.window, attempts.push((active, viewable))) =~= attempts_calls(
                    target.window,
                    attempts,
                ) + seq![ProtocolStep::Active(active), ProtocolStep::Viewable(target.window, viewable)]);
            }
            match viewable {
                Ok(true) => {
                    proof {
                        attempts = attempts.push((active, viewable));
                        assert(attempts.drop_last() =~= earlier_attempts);
                        assert(steps =~= prefix + attempts_calls(target.window, attempts));
                        assert forall|a: int| 0 <= a < attempts.len() - 1 implies !attempt_confirms(
                            target.window,
                            #[trigger] attempts[a].0,
                            attempts[a].1,
                        ) && !attempt_fails(target.window, attempts[a].0, attempts[a].1) by {
                            assert(attempts[a] == earlier_attempts[a]);
                        }
                        assert(restore_outcome(target.window, first, sent, attempts, steps, Ok(())));
                    }
                    return Ok(());
                },
                Ok(false) => {},
                Err(()) => {
                    proof {
                        attempts = attempts.push((active, viewable));
                        assert(attempts.drop_last() =~= earlier_attempts);
                        assert(steps =~= prefix + attempts_calls(target.window, attempts));
                        assert forall|a: int| 0 <= a < attempts.len() - 1 implies !attempt_confirms(
                            target.window,
                            #[trigger] attempts[a].0,
                            attempts[a].1,
                        ) && !attempt_fails(target.window, attempts[a].0, attempts[a].1) by {
                            assert(attempts[a] == earlier_attempts[a]);
                        }
                        assert(restore_outcome(target.window, first, sent, attempts, steps, Err(FocusError::FocusedWindowUnavailable)));
                    }
                    return Err(FocusError::FocusedWindowUnavailable);
                },
            }
        }
        proof {
            attempts = attempts.push((active, viewable));
            assert(attempts.drop_last() =~= earlier_attempts);
            assert(steps =~= prefix + attempts_calls(target.window, attempts));
            assert forall|a: int| 0 <= a < attempts.len() implies !attempt_confirms(
                target.window,
                #[trigger] attempts[a].0,
                attempts[a].1,
            ) && !attempt_fails(target.window, attempts[a].0, attempts[a].1) by {
                if a < earlier_attempts.len() {
                    assert(attempts[a] == earlier_attempts[a]);
                }
            }
        }
        if attempt + 1 < ACTIVATION_RETRIES {
            wait();
        }
        attempt = attempt + 1;
    }
    assert(restore_outcome(target.window, first, sent, attempts, steps, Err(FocusError::FocusedWindowUnavailable)));
    Err(FocusError::FocusedWindowUnavailable)
}

} // verus!
