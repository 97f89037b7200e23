use std::collections::VecDeque;

use klipo::desktop::DesktopSession;
use klipo::input::{
    keystroke_result, paste_modifier, simulate_paste_input_with, supports_input_on, KeyDirection,
    KeyInput, PasteInputError, PasteKey,
};
use klipo::startup::Platform;

struct FakeKeyInput {
    calls: Vec<(PasteKey, KeyDirection)>,
    results: VecDeque<Result<(), enigo::InputError>>,
}

impl FakeKeyInput {
    fn new(results: impl IntoIterator<Item = Result<(), enigo::InputError>>) -> Self {
        Self {
            calls: Vec::new(),
            results: results.into_iter().collect(),
        }
    }
}

impl KeyInput for FakeKeyInput {
    fn key(&mut self, key: PasteKey, direction: KeyDirection) -> Result<(), enigo::InputError> {
        self.calls.push((key, direction));
        self.results
            .pop_front()
            .expect("a result for every key call")
    }
}

fn input_error(message: &'static str) -> enigo::InputError {
    enigo::InputError::Simulate(message)
}

fn expected_calls(mod_key: PasteKey) -> Vec<(PasteKey, KeyDirection)> {
    vec![
        (mod_key, KeyDirection::Press),
        (PasteKey::Unicode('v'), KeyDirection::Click),
        (mod_key, KeyDirection::Release),
    ]
}

#[test]
fn uses_the_platform_paste_modifier() {
    assert_eq!(paste_modifier(Platform::Macos), PasteKey::Meta);
    assert_eq!(paste_modifier(Platform::Linux), PasteKey::Control);
    assert_eq!(paste_modifier(Platform::Other), PasteKey::Control);
}

#[test]
fn press_failure_does_not_attempt_later_input() {
    let mut input = FakeKeyInput::new([Err(input_error("press"))]);

    let result = simulate_paste_input_with(&mut input, PasteKey::Meta);

    assert!(matches!(
        result,
        Err(PasteInputError::InputSimError(enigo::InputError::Simulate(
            "press"
        )))
    ));
    assert_eq!(input.calls, vec![(PasteKey::Meta, KeyDirection::Press)]);
}

#[test]
fn click_failure_is_returned_after_releasing_modifier() {
    let mut input = FakeKeyInput::new([Ok(()), Err(input_error("click")), Ok(())]);

    let result = simulate_paste_input_with(&mut input, PasteKey::Meta);

    assert!(matches!(
        result,
        Err(PasteInputError::InputSimError(enigo::InputError::Simulate(
            "click"
        )))
    ));
    assert_eq!(input.calls, expected_calls(PasteKey::Meta));
}

#[test]
fn click_failure_remains_primary_when_release_also_fails() {
    let mut input = FakeKeyInput::new([
        Ok(()),
        Err(input_error("click")),
        Err(input_error("release")),
    ]);

    let result = simulate_paste_input_with(&mut input, PasteKey::Meta);

    assert!(matches!(
        result,
        Err(PasteInputError::InputSimError(enigo::InputError::Simulate(
            "click"
        )))
    ));
    assert_eq!(input.calls, expected_calls(PasteKey::Meta));
}

#[test]
fn release_failure_is_returned_when_press_and_click_succeed() {
    let mut input = FakeKeyInput::new([Ok(()), Ok(()), Err(input_error("release"))]);

    let result = simulate_paste_input_with(&mut input, PasteKey::Meta);

    assert!(matches!(
        result,
        Err(PasteInputError::InputSimError(enigo::InputError::Simulate(
            "release"
        )))
    ));
    assert_eq!(input.calls, expected_calls(PasteKey::Meta));
}

#[test]
fn successful_paste_input_presses_clicks_and_releases_modifier() {
    let mut input = FakeKeyInput::new([Ok(()), Ok(()), Ok(())]);

    let result = simulate_paste_input_with(&mut input, PasteKey::Meta);

    assert!(result.is_ok());
    assert_eq!(input.calls, expected_calls(PasteKey::Meta));
}

#[test]
fn limits_linux_input_to_x11_but_preserves_macos_support() {
    assert!(supports_input_on(Platform::Linux, DesktopSession::X11));
    assert!(!supports_input_on(Platform::Linux, DesktopSession::Wayland));
    assert!(!supports_input_on(Platform::Linux, DesktopSession::Unknown));
    assert!(supports_input_on(Platform::Macos, DesktopSession::Unknown));
}

#[test]
fn other_platforms_do_not_simulate_input() {
    assert!(!supports_input_on(Platform::Other, DesktopSession::X11));
}

#[test]
fn keystroke_errors_prefer_the_click() {
    assert!(keystroke_result(Ok(()), Ok(())).is_ok());
    assert!(matches!(
        keystroke_result(Err(input_error("click")), Err(input_error("release"))),
        Err(PasteInputError::InputSimError(enigo::InputError::Simulate("click")))
    ));
    assert!(matches!(
        keystroke_result(Ok(()), Err(input_error("release"))),
        Err(PasteInputError::InputSimError(enigo::InputError::Simulate("release")))
    ));
}
