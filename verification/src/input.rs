//! The simulated paste keystroke, and the sessions it can be sent to.
use vstd::prelude::*;

use crate::desktop::DesktopSession;
use crate::startup::Platform;

verus! {

/// An error reported by the input-simulation backend.
#[verifier::external_type_specification]
#[verifier::external_body]
pub struct ExInputError(enigo::InputError);

/// A key of the paste keystroke.
#[derive(Debug, Clone, Copy, PartialEq, Eq, Structural)]
pub enum PasteKey {
    Control,
    Meta,
    Unicode(char),
}

/// What happens to a key.
#[derive(Debug, Clone, Copy, PartialEq, Eq, Structural)]
pub enum KeyDirection {
    Press,
    Click,
    Release,
}

/// A failed paste keystroke, with the backend's error.
#[derive(Debug)]
pub enum PasteInputError {
    InputSimError(enigo::InputError),
}

#[derive(Debug, Clone, Copy, PartialEq, Eq, Structural)]
pub enum InputStateError {
    PoisonError,
    EnigoError,
}

/// Sends single key events. Implementations perform them; nothing is
/// assumed of what they return.
pub trait KeyInput {
    fn key(&mut self, key: PasteKey, direction: KeyDirection) -> Result<(), enigo::InputError>;
}

/// The modifier of the paste keystroke: Command on macOS, Control elsewhere.
pub fn paste_modifier(platform: Platform) -> (key: PasteKey)
    ensures
        key == (if platform == Platform::Macos {
            PasteKey::Meta
        } else {
            PasteKey::Control
        }),
{
    match platform {
        Platform::Macos => PasteKey::Meta,
        _ => PasteKey::Control,
    }
}

/// The outcome of a keystroke whose modifier was pressed, given what the
/// click and the release returned.
pub open spec fn keystroke_outcome(
    click_result: Result<(), enigo::InputError>,
    release_result: Result<(), enigo::InputError>,
) -> Result<(), PasteInputError> {
    match click_result {
        Err(e) => Err(PasteInputError::InputSimError(e)),
        Ok(()) => match release_result {
            Err(e) => Err(PasteInputError::InputSimError(e)),
            Ok(()) => Ok(()),
        },
    }
}

/// The outcome of a keystroke whose modifier was pressed: the click's error
/// wins over the release's, and it succeeds only when both succeeded.
pub fn keystroke_result(
    click_result: Result<(), enigo::InputError>,
    release_result: Result<(), enigo::InputError>,
) -> (result: Result<(), PasteInputError>)
    ensures
        result is Ok <==> (click_result is Ok && release_result is Ok),
        click_result matches Err(e) ==> result matches Err(PasteInputError::InputSimError(r)) && r == e,
        click_result is Ok ==> (release_result matches Err(e) ==> result matches Err(
            PasteInputError::InputSimError(r),
        ) && r == e),
{
    match (click_result, release_result) {
        (Err(error), _) => Err(PasteInputError::InputSimError(error)),
        (Ok(()), Err(error)) => Err(PasteInputError::InputSimError(error)),
        (Ok(()), Ok(())) => Ok(()),
    }
}

/// Presses the modifier, clicks `v`, and releases the modifier. A failed
/// press stops there with its error; after a press the click and the
/// release are both sent, and their outcome is `keystroke_result`'s.
pub fn simulate_paste_input_with<K: KeyInput>(input: &mut K, mod_key: PasteKey) -> (result: Result<
    (),
    PasteInputError,
>)
    ensures
        exists|press: &mut K, pressed: Result<(), enigo::InputError>|
            #[trigger] call_ensures(K::key, (press, mod_key, KeyDirection::Press), pressed)
                && mut_ref_current(press) == *old(input) && match pressed {
                Err(e) => mut_ref_future(press) == *final(input) && result == Err::<
                    (),
                    PasteInputError,
                >(PasteInputError::InputSimError(e)),
                Ok(()) => exists|
                    click: &mut K,
                    clicked: Result<(), enigo::InputError>,
                    release: &mut K,
                    released: Result<(), enigo::InputError>,
                |
                    #[trigger] call_ensures(
                        K::key,
                        (click, PasteKey::Unicode('v'), KeyDirection::Click),
                        clicked,
                    ) && #[trigger] call_ensures(
                        K::key,
                        (release, mod_key, KeyDirection::Release),
                        released,
                    ) && mut_ref_current(click) == mut_ref_future(press) && mut_ref_current(release)
                        == mut_ref_future(click) && mut_ref_future(release) == *final(input)
                        && result == keystroke_outcome(clicked, released),
            },
{
    let send = K::key;
    match send(input, mod_key, KeyDirection::Press) {
        Ok(()) => {},
        Err(error) => return Err(PasteInputError::InputSimError(error)),
    }
    let click_result = send(input, PasteKey::Unicode('v'), KeyDirection::Click);
    let release_result = send(input, mod_key, KeyDirection::Release);
    let result = keystroke_result(click_result, release_result);
    proof {
        if let Ok(unit) = result {
            assert(unit == ());
        }
    }
    assert(result == keystroke_outcome(click_result, release_result));
    result
}

/// Input can be simulated on macOS in any session, and on Linux only under
/// X11.
pub open spec fn input_supported(platform: Platform, session: DesktopSession) -> bool {
    match platform {
        Platform::Macos => true,
        Platform::Linux => session == DesktopSession::X11,
        Platform::Other => false,
    }
}

pub fn supports_input_on(platform: Platform, session: DesktopSession) -> (supported: bool)
    ensures
        supported == input_supported(platform, session),
{
    match platform {
        Platform::Macos => true,
        Platform::Linux => session == DesktopSession::X11,
        Platform::Other => false,
    }
}

} // verus!
