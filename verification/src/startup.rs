//! Best-effort startup: each optional desktop integration records its own
//! availability and never stops the application shell.
use vstd::prelude::*;

use crate::desktop::{
    CapabilityStatus, CapabilityUnavailableReason, DesktopCapabilities, DesktopCapability,
    DesktopSession,
};

verus! {

/// Records best-effort desktop initialization without allowing an optional
/// integration failure to stop the application shell.
pub struct StartupCoordinator {
    capabilities: DesktopCapabilities,
}

#[derive(Debug, Clone, Copy, PartialEq, Eq, Structural)]
pub enum StartupStep {
    Clipboard,
    Input,
    TargetRestoration,
    Shortcut,
    Tray,
    Watcher,
    Window,
}

impl StartupStep {
    pub const ALL: [StartupStep; 7] = [
        StartupStep::Clipboard,
        StartupStep::Input,
        StartupStep::TargetRestoration,
        StartupStep::Shortcut,
        StartupStep::Tray,
        StartupStep::Watcher,
        StartupStep::Window,
    ];
}

/// The reason every capability starts out unavailable for: an unknown session
/// is reported as such, a known one waits for its adapter.
pub open spec fn initial_reason(session: DesktopSession) -> CapabilityUnavailableReason {
    match session {
        DesktopSession::Unknown => CapabilityUnavailableReason::UnknownSession,
        _ => CapabilityUnavailableReason::AdapterUnavailable,
    }
}

impl StartupCoordinator {
    /// The capabilities recorded so far.
    pub closed spec fn view_capabilities(&self) -> DesktopCapabilities {
        self.capabilities
    }

    pub fn new(session: DesktopSession) -> (coordinator: Self)
        ensures
            coordinator.view_capabilities().session == session,
            coordinator.view_capabilities().is_consistent(),
            forall|c: DesktopCapability| #[trigger]
                coordinator.view_capabilities().status_of(c) == (CapabilityStatus::Unavailable {
                    reason: initial_reason(session),
                }),
    {
        let unavailable_reason = match session {
            DesktopSession::Unknown => CapabilityUnavailableReason::UnknownSession,
            DesktopSession::X11 | DesktopSession::Wayland => {
                CapabilityUnavailableReason::AdapterUnavailable
            },
        };

        Self { capabilities: DesktopCapabilities::unavailable(session, unavailable_reason) }
    }

    /// Runs `operation` once for every step, in order, on this coordinator:
    /// `states` are its states and `calls` the coordinator handed to each
    /// call. Each step starts from the state the step before it left, and
    /// the last step's state is the coordinator's final state.
    pub fn run_steps(&mut self, steps: &[StartupStep], operation: impl FnMut(StartupStep, &mut Self))
        requires
            forall|step: StartupStep, coordinator: &mut Self| #[trigger]
                call_requires(operation, (step, coordinator)),
        ensures
            exists|states: Seq<Self>, calls: Seq<&mut Self>|
                #![trigger states.len(), calls.len()]
                {
                    &&& states.len() == steps@.len() + 1
                    &&& calls.len() == steps@.len()
                    &&& states[0] == *old(self)
                    &&& states.last() == *final(self)
                    &&& forall|j: int|
                        #![trigger calls[j]]
                        0 <= j < steps@.len() ==> call_ensures(operation, (steps@[j], calls[j]), ())
                            && mut_ref_current(calls[j]) == states[j] && mut_ref_future(calls[j])
                            == states[j + 1]
                },
    {
        let ghost f = operation;
        let ghost states: Seq<Self> = seq![*self];
        let mut operation = operation;
        let mut i: usize = 0;
        assert(Seq::<&mut Self>::empty().len() == 0);
        while i < steps.len()
            invariant
                i <= steps.len(),
                operation == f,
                forall|step: StartupStep, coordinator: &mut Self| #[trigger]
                    call_requires(operation, (step, coordinator)),
                states.len() == i + 1,
                states[0] == *old(self),
                states.last() == *self,
                exists|calls: Seq<&mut Self>|
                    #![trigger calls.len()]
                    calls.len() == i && forall|j: int|
                        #![trigger calls[j]]
                        0 <= j < i ==> call_ensures(f, (steps@[j], calls[j]), ()) && mut_ref_current(
                            calls[j],
                        ) == states[j] && mut_ref_future(calls[j]) == states[j + 1],
            decreases steps.len() - i,
        {
            let ghost before = *self;
            operation(steps[i], self);
            proof {
                broadcast use vstd::function::group_function_axioms;

                let earlier = states;
                states = states.push(*self);
                assert forall|calls: Seq<&mut Self>, call: &mut Self|
                    #![trigger calls.len(), call_ensures(f, (steps@[i as int], call), ())]
                    calls.len() == i && (forall|j: int|
                        #![trigger calls[j]]
                        0 <= j < i ==> call_ensures(f, (steps@[j], calls[j]), ()) && mut_ref_current(
                            calls[j],
                        ) == earlier[j] && mut_ref_future(calls[j]) == earlier[j + 1])
                        && call_ensures(f, (steps@[i as int], call), ()) && mut_ref_current(call)
                        == before && mut_ref_future(call) == *self implies calls.push(call).len() == i
                    + 1 && forall|j: int|
                    #![trigger calls.push(call)[j]]
                    0 <= j < i + 1 ==> call_ensures(f, (steps@[j], calls.push(call)[j]), ())
                        && mut_ref_current(calls.push(call)[j]) == states[j] && mut_ref_future(
                        calls.push(call)[j],
                    ) == states[j + 1] by {
                    assert forall|j: int| 0 <= j < i + 1 implies call_ensures(
                        f,
                        (steps@[j], #[trigger] calls.push(call)[j]),
                        (),
                    ) && mut_ref_current(calls.push(call)[j]) == states[j] && mut_ref_future(
                        calls.push(call)[j],
                    ) == states[j + 1] by {
                        if j < i {
                            assert(calls.push(call)[j] == calls[j]);
                            assert(states[j] == earlier[j] && states[j + 1] == earlier[j + 1]);
                        } else {
                            assert(calls.push(call)[j] == call);
                        }
                    }
                }
            }
            i = i + 1;
        }
        assert(states.len() == steps@.len() + 1);
    }

    /// Runs `operation` and records every capability in `capabilities` as
    /// available when it succeeds, or as unavailable for the reason that
    /// `unavailable_reason` gives for its error.
    pub fn run_capability<T, E>(
        &mut self,
        capabilities: &[DesktopCapability],
        operation: impl FnOnce() -> Result<T, E>,
        unavailable_reason: impl FnOnce(&E) -> CapabilityUnavailableReason,
    ) -> (result: Result<T, E>)
        requires
            call_requires(operation, ()),
            forall|e: &E| #[trigger] call_requires(unavailable_reason, (e,)),
        ensures
            call_ensures(operation, (), result),
            final(self).view_capabilities().session == old(self).view_capabilities().session,
            old(self).view_capabilities().is_consistent() ==> final(self).view_capabilities().is_consistent(),
            result is Ok ==> final(self).view_capabilities() == recorded(
                old(self).view_capabilities(),
                capabilities@,
                CapabilityStatus::Available,
            ),
            result is Err ==> exists|reason: CapabilityUnavailableReason|
                #[trigger] call_ensures(unavailable_reason, (&result->Err_0,), reason)
                    && final(self).view_capabilities() == recorded(
                    old(self).view_capabilities(),
                    capabilities@,
                    CapabilityStatus::Unavailable { reason },
                ),
    {
        let result = operation();

        match &result {
            Ok(_) => self.set_capabilities(capabilities, CapabilityStatus::available()),
            Err(error) => {
                let reason = unavailable_reason(error);
                self.set_capabilities(capabilities, CapabilityStatus::unavailable(reason));
            },
        }

        result
    }

    /// Runs a step that is part of the shell itself; it records nothing.
    pub fn run_shell_step<T, E>(&mut self, operation: impl FnOnce() -> Result<T, E>) -> (result:
        Result<T, E>)
        requires
            call_requires(operation, ()),
        ensures
            call_ensures(operation, (), result),
            final(self).view_capabilities() == old(self).view_capabilities(),
    {
        operation()
    }

    pub fn capabilities(&self) -> (capabilities: DesktopCapabilities)
        ensures
            capabilities == self.view_capabilities(),
    {
        self.capabilities
    }

    /// Records `status` for every capability in `capabilities`.
    pub fn set_capabilities(&mut self, capabilities: &[DesktopCapability], status: CapabilityStatus)
        ensures
            final(self).view_capabilities() == recorded(
                old(self).view_capabilities(),
                capabilities@,
                status,
            ),
            final(self).view_capabilities().session == old(self).view_capabilities().session,
            old(self).view_capabilities().is_consistent() ==> final(self).view_capabilities().is_consistent(),
    {
        let mut i: usize = 0;
        while i < capabilities.len()
            invariant
                i <= capabilities.len(),
                self.capabilities == recorded(
                    old(self).view_capabilities(),
                    capabilities@.subrange(0, i as int),
                    status,
                ),
                self.capabilities.session == old(self).view_capabilities().session,
                old(self).view_capabilities().is_consistent() ==> self.capabilities.is_consistent(),
            decreases capabilities.len() - i,
        {
            proof {
                lemma_recorded_push(
                    old(self).view_capabilities(),
                    capabilities@.subrange(0, i as int),
                    capabilities@[i as int],
                    status,
                );
                assert(capabilities@.subrange(0, i as int).push(capabilities@[i as int])
                    =~= capabilities@.subrange(0, i + 1));
            }
            self.capabilities.set_status(capabilities[i], status);
            i = i + 1;
        }
        assert(capabilities@.subrange(0, capabilities.len() as int) =~= capabilities@);
    }
}

/// The capabilities after recording `status` for each of `changed`, in order;
/// a recorded status is kept exactly as recorded, and automatic paste is
/// derived again after every record.
pub open spec fn recorded(
    caps: DesktopCapabilities,
    changed: Seq<DesktopCapability>,
    status: CapabilityStatus,
) -> DesktopCapabilities
    decreases changed.len(),
{
    if changed.len() == 0 {
        caps
    } else {
        crate::desktop::set_status_spec(recorded(caps, changed.drop_last(), status), changed.last(), status)
    }
}

proof fn lemma_recorded_push(
    caps: DesktopCapabilities,
    changed: Seq<DesktopCapability>,
    capability: DesktopCapability,
    status: CapabilityStatus,
)
    ensures
        recorded(caps, changed.push(capability), status) == crate::desktop::set_status_spec(
            recorded(caps, changed, status),
            capability,
            status,
        ),
{
    assert(changed.push(capability).drop_last() =~= changed);
}

/// Recording a status makes every listed probed capability report exactly
/// that status, leaves the unlisted probed capabilities untouched, and keeps
/// automatic paste derived from its three inputs.
pub proof fn lemma_recorded_statuses(
    caps: DesktopCapabilities,
    changed: Seq<DesktopCapability>,
    status: CapabilityStatus,
    c: DesktopCapability,
)
    requires
        c != DesktopCapability::AutomaticPaste,
    ensures
        recorded(caps, changed, status).status_of(c) == (if changed.contains(c) {
            status
        } else {
            caps.status_of(c)
        }),
        recorded(caps, changed, status).session == caps.session,
        changed.len() > 0 ==> recorded(caps, changed, status).is_consistent(),
    decreases changed.len(),
{
    if changed.len() > 0 {
        lemma_recorded_statuses(caps, changed.drop_last(), status, c);
        if changed.drop_last().contains(c) {
            let j = choose|j: int| 0 <= j < changed.drop_last().len() && changed.drop_last()[j] == c;
            assert(changed[j] == c);
        }
        if changed.contains(c) && c != changed.last() {
            let j = choose|j: int| 0 <= j < changed.len() && changed[j] == c;
            assert(changed.drop_last()[j] == c);
        }
    }
}

/// The reason for a capability that the session itself rules out.
pub fn session_unavailable_reason(session: DesktopSession) -> (reason: CapabilityUnavailableReason)
    ensures
        reason == (match session {
            DesktopSession::Unknown => CapabilityUnavailableReason::UnknownSession,
            _ => CapabilityUnavailableReason::UnsupportedSession,
        }),
{
    match session {
        DesktopSession::Unknown => CapabilityUnavailableReason::UnknownSession,
        DesktopSession::X11 | DesktopSession::Wayland => {
            CapabilityUnavailableReason::UnsupportedSession
        },
    }
}

pub open spec fn target_restoration_reason(session: DesktopSession) -> CapabilityUnavailableReason {
    match session {
        DesktopSession::X11 => CapabilityUnavailableReason::AdapterUnavailable,
        DesktopSession::Wayland => CapabilityUnavailableReason::UnsupportedSession,
        DesktopSession::Unknown => CapabilityUnavailableReason::UnknownSession,
    }
}

/// Why target restoration is unavailable in `session`.
pub fn target_restoration_unavailable_reason(session: DesktopSession) -> (reason:
    CapabilityUnavailableReason)
    ensures
        reason == target_restoration_reason(session),
{
    match session {
        DesktopSession::X11 => CapabilityUnavailableReason::AdapterUnavailable,
        DesktopSession::Wayland => CapabilityUnavailableReason::UnsupportedSession,
        DesktopSession::Unknown => CapabilityUnavailableReason::UnknownSession,
    }
}

/// Target restoration is available only in an X11 session whose adapter was
/// probed successfully.
pub fn target_restoration_result(session: DesktopSession, restoration_supported: bool) -> (result:
    Result<(), CapabilityUnavailableReason>)
    ensures
        result is Ok <==> (session == DesktopSession::X11 && restoration_supported),
        session == DesktopSession::X11 && restoration_supported ==> result == Ok::<
            (),
            CapabilityUnavailableReason,
        >(()),
        session != DesktopSession::X11 ==> result == Err::<(), CapabilityUnavailableReason>(
            target_restoration_reason(session),
        ),
        session == DesktopSession::X11 && !restoration_supported ==> result == Err::<
            (),
            CapabilityUnavailableReason,
        >(CapabilityUnavailableReason::AdapterUnavailable),
{
    if session != DesktopSession::X11 {
        Err(target_restoration_unavailable_reason(session))
    } else if restoration_supported {
        Ok(())
    } else {
        Err(CapabilityUnavailableReason::AdapterUnavailable)
    }
}

/// The operating systems whose desktop integrations differ.
#[derive(Debug, Clone, Copy, PartialEq, Eq, Structural)]
pub enum Platform {
    Macos,
    Linux,
    Other,
}

pub open spec fn session_reason(session: DesktopSession) -> CapabilityUnavailableReason {
    match session {
        DesktopSession::Unknown => CapabilityUnavailableReason::UnknownSession,
        _ => CapabilityUnavailableReason::UnsupportedSession,
    }
}

/// Initializes an optional integration that the session may rule out: when
/// `supported` is false nothing runs and `capabilities` are recorded as
/// unavailable for the session's reason with `unsupported_message`;
/// otherwise `initialize` runs and its failure is recorded as an
/// initialization failure. The error is returned with its reason for the
/// caller to log.
pub fn initialize_optional_capability(
    startup: &mut StartupCoordinator,
    capabilities: &[DesktopCapability],
    session: DesktopSession,
    supported: bool,
    unsupported_message: &str,
    initialize: impl FnOnce() -> Result<(), String>,
) -> (result: Result<(), (CapabilityUnavailableReason, String)>)
    requires
        call_requires(initialize, ()),
    ensures
        final(startup).view_capabilities().session == old(startup).view_capabilities().session,
        !supported ==> (result matches Err((reason, message)) && reason == session_reason(session)
            && message@ == unsupported_message@ && final(startup).view_capabilities() == recorded(
            old(startup).view_capabilities(),
            capabilities@,
            CapabilityStatus::Unavailable { reason: session_reason(session) },
        )),
        supported ==> exists|outcome: Result<(), String>|
            #[trigger] call_ensures(initialize, (), outcome) && match outcome {
                Ok(()) => result is Ok && final(startup).view_capabilities() == recorded(
                    old(startup).view_capabilities(),
                    capabilities@,
                    CapabilityStatus::Available,
                ),
                Err(e) => result matches Err((reason, message)) && reason
                    == CapabilityUnavailableReason::InitializationFailed && message@ == e@
                    && final(startup).view_capabilities() == recorded(
                    old(startup).view_capabilities(),
                    capabilities@,
                    CapabilityStatus::Unavailable {
                        reason: CapabilityUnavailableReason::InitializationFailed,
                    },
                ),
            },
{
    if !supported {
        let reason = session_unavailable_reason(session);
        startup.set_capabilities(capabilities, CapabilityStatus::unavailable(reason));
        return Err((reason, String::from_str(unsupported_message)));
    }
    let outcome = initialize();
    let ghost outcome_value = outcome;
    match outcome {
        Ok(()) => {
            startup.set_capabilities(capabilities, CapabilityStatus::available());
            assert(call_ensures(initialize, (), outcome_value));
            Ok(())
        },
        Err(error_value) => {
            startup.set_capabilities(
                capabilities,
                CapabilityStatus::unavailable(CapabilityUnavailableReason::InitializationFailed),
            );
            assert(call_ensures(initialize, (), outcome_value));
            Err((CapabilityUnavailableReason::InitializationFailed, error_value))
        },
    }
}

/// Startup's input step: input and pointer simulation, which the session
/// may rule out.
pub fn initialize_input_with(
    startup: &mut StartupCoordinator,
    session: DesktopSession,
    input_supported: bool,
    enable: impl FnOnce() -> Result<(), String>,
) -> (result: Result<(), (CapabilityUnavailableReason, String)>)
    requires
        call_requires(enable, ()),
    ensures
        !input_supported ==> (result matches Err((reason, message)) && reason == session_reason(
            session,
        ) && message@ == "input simulation is not supported by this desktop session"@
            && final(startup).view_capabilities() == recorded(
            old(startup).view_capabilities(),
            seq![DesktopCapability::Input, DesktopCapability::Pointer],
            CapabilityStatus::Unavailable { reason: session_reason(session) },
        )),
        input_supported ==> exists|outcome: Result<(), String>|
            #[trigger] call_ensures(enable, (), outcome) && match outcome {
                Ok(()) => result is Ok && final(startup).view_capabilities() == recorded(
                    old(startup).view_capabilities(),
                    seq![DesktopCapability::Input, DesktopCapability::Pointer],
                    CapabilityStatus::Available,
                ),
                Err(e) => result matches Err((reason, message)) && reason
                    == CapabilityUnavailableReason::InitializationFailed && message@ == e@
                    && final(startup).view_capabilities() == recorded(
                    old(startup).view_capabilities(),
                    seq![DesktopCapability::Input, DesktopCapability::Pointer],
                    CapabilityStatus::Unavailable {
                        reason: CapabilityUnavailableReason::InitializationFailed,
                    },
                ),
            },
{
    let capabilities = [DesktopCapability::Input, DesktopCapability::Pointer];
    proof {
        assert(capabilities@ =~= seq![DesktopCapability::Input, DesktopCapability::Pointer]);
    }
    initialize_optional_capability(
        startup,
        &capabilities,
        session,
        input_supported,
        "input simulation is not supported by this desktop session",
        enable,
    )
}

/// Startup's shortcut step: the global shortcut backend, which the platform
/// and session may rule out, then the saved bindings.
pub fn initialize_shortcuts_with(
    startup: &mut StartupCoordinator,
    session: DesktopSession,
    shortcuts_supported: bool,
    register: impl FnOnce() -> Result<(), String>,
) -> (result: Result<(), (CapabilityUnavailableReason, String)>)
    requires
        call_requires(register, ()),
    ensures
        !shortcuts_supported ==> (result matches Err((reason, message)) && reason
            == session_reason(session) && message@
            == "global shortcuts are not supported by this session"@
            && final(startup).view_capabilities() == recorded(
            old(startup).view_capabilities(),
            seq![DesktopCapability::Shortcut],
            CapabilityStatus::Unavailable { reason: session_reason(session) },
        )),
        shortcuts_supported ==> exists|outcome: Result<(), String>|
            #[trigger] call_ensures(register, (), outcome) && match outcome {
                Ok(()) => result is Ok && final(startup).view_capabilities() == recorded(
                    old(startup).view_capabilities(),
                    seq![DesktopCapability::Shortcut],
                    CapabilityStatus::Available,
                ),
                Err(e) => result matches Err((reason, message)) && reason
                    == CapabilityUnavailableReason::InitializationFailed && message@ == e@
                    && final(startup).view_capabilities() == recorded(
                    old(startup).view_capabilities(),
                    seq![DesktopCapability::Shortcut],
                    CapabilityStatus::Unavailable {
                        reason: CapabilityUnavailableReason::InitializationFailed,
                    },
                ),
            },
{
    let capabilities = [DesktopCapability::Shortcut];
    proof {
        assert(capabilities@ =~= seq![DesktopCapability::Shortcut]);
    }
    initialize_optional_capability(
        startup,
        &capabilities,
        session,
        shortcuts_supported,
        "global shortcuts are not supported by this session",
        register,
    )
}

/// Startup's watcher step: the clipboard watcher needs the system
/// clipboard, so without it nothing is created.
pub fn initialize_watcher_with<L>(
    startup: &mut StartupCoordinator,
    clipboard_available: bool,
    create: impl FnOnce() -> Result<L, String>,
) -> (result: Result<L, String>)
    requires
        call_requires(create, ()),
    ensures
        !clipboard_available ==> (result matches Err(message) && message@
            == "system clipboard initialization failed"@ && final(startup).view_capabilities()
            == recorded(
            old(startup).view_capabilities(),
            seq![DesktopCapability::Watcher],
            CapabilityStatus::Unavailable {
                reason: CapabilityUnavailableReason::InitializationFailed,
            },
        )),
        clipboard_available ==> call_ensures(create, (), result)
            && final(startup).view_capabilities() == recorded(
            old(startup).view_capabilities(),
            seq![DesktopCapability::Watcher],
            if result is Ok {
                CapabilityStatus::Available
            } else {
                CapabilityStatus::Unavailable {
                    reason: CapabilityUnavailableReason::InitializationFailed,
                }
            },
        ),
{
    let capabilities = [DesktopCapability::Watcher];
    proof {
        assert(capabilities@ =~= seq![DesktopCapability::Watcher]);
    }
    if !clipboard_available {
        startup.set_capabilities(
            &capabilities,
            CapabilityStatus::unavailable(CapabilityUnavailableReason::InitializationFailed),
        );
        return Err(String::from_str("system clipboard initialization failed"));
    }
    let result = create();
    match &result {
        Ok(_) => startup.set_capabilities(&capabilities, CapabilityStatus::available()),
        Err(_) => startup.set_capabilities(
            &capabilities,
            CapabilityStatus::unavailable(CapabilityUnavailableReason::InitializationFailed),
        ),
    }
    result
}

/// The platform named by `std::env::consts::OS`.
pub fn platform_from_os(os: &str) -> (platform: Platform)
    ensures
        platform == (if os@ == "macos"@ {
            Platform::Macos
        } else if os@ == "linux"@ {
            Platform::Linux
        } else {
            Platform::Other
        }),
{
    if crate::text::str_equals(os, "macos") {
        Platform::Macos
    } else if crate::text::str_equals(os, "linux") {
        Platform::Linux
    } else {
        Platform::Other
    }
}

/// The target-restoration outcome that startup records on each platform:
/// always available on macOS, probed on Linux, and unavailable elsewhere.
pub open spec fn target_restoration_outcome(
    platform: Platform,
    session: DesktopSession,
    restoration_supported: bool,
) -> Result<(), CapabilityUnavailableReason> {
    match platform {
        Platform::Macos => Ok(()),
        Platform::Linux => if session == DesktopSession::X11 && restoration_supported {
            Ok(())
        } else if session != DesktopSession::X11 {
            Err(target_restoration_reason(session))
        } else {
            Err(CapabilityUnavailableReason::AdapterUnavailable)
        },
        Platform::Other => Err(target_restoration_reason(session)),
    }
}

/// Records the target-restoration capability of this platform and session,
/// and returns the reason when it is unavailable, for the caller to log.
pub fn set_target_restoration_capability(
    startup: &mut StartupCoordinator,
    platform: Platform,
    session: DesktopSession,
    restoration_supported: bool,
) -> (outcome: Result<(), CapabilityUnavailableReason>)
    ensures
        outcome == target_restoration_outcome(platform, session, restoration_supported),
        final(startup).view_capabilities() == recorded(
            old(startup).view_capabilities(),
            seq![DesktopCapability::TargetRestoration],
            crate::desktop::status_from_probe(outcome),
        ),
{
    let outcome = match platform {
        Platform::Macos => Ok(()),
        Platform::Linux => target_restoration_result(session, restoration_supported),
        Platform::Other => Err(target_restoration_unavailable_reason(session)),
    };
    let capabilities = [DesktopCapability::TargetRestoration];
    let status = CapabilityStatus::from_probe(outcome);
    startup.set_capabilities(&capabilities, status);
    proof {
        assert(capabilities@ =~= seq![DesktopCapability::TargetRestoration]);
    }
    outcome
}



} // verus!
