use std::cell::RefCell;

use klipo::clipboard::{ClipboardImage, ClipboardItem};
use klipo::commands::{
    delete_from_history, paste_outcome, paste_with, persistence_failure_message, run_paste_steps,
    save_shortcut_transaction, should_emit_clear_event, PasteOperations, PasteOutcome, PasteStep,
};
use klipo::settings::ShortcutSettings;
use klipo::storage::{ClipboardError, ClipboardStore};

struct FakePasteOperations {
    item: Option<ClipboardItem>,
    write_result: Result<(), String>,
    reorder_result: Result<(), String>,
    restore_result: Result<(), String>,
    hide_result: Result<(), String>,
    input_result: Result<(), String>,
    events: RefCell<Vec<&'static str>>,
}

impl FakePasteOperations {
    fn successful() -> Self {
        Self {
            item: Some(ClipboardItem {
                text: "copied text".into(),
                hash: "text:known".into(),
                image: None,
                preview: None,
            }),
            write_result: Ok(()),
            reorder_result: Ok(()),
            restore_result: Ok(()),
            hide_result: Ok(()),
            input_result: Ok(()),
            events: RefCell::new(Vec::new()),
        }
    }

    fn failed(message: &str) -> Result<(), String> {
        Err(message.into())
    }

    fn events(&self) -> Vec<&'static str> {
        self.events.borrow().clone()
    }
}

impl PasteOperations for FakePasteOperations {
    fn item_for_hash(&self, _hash: &str) -> Option<ClipboardItem> {
        self.item.clone()
    }

    fn write_item(&self, _item: &ClipboardItem) -> Result<(), String> {
        self.events.borrow_mut().push("write");
        self.write_result.clone()
    }

    fn move_to_top(&self, _hash: &str) -> Result<(), String> {
        self.events.borrow_mut().push("reorder");
        self.reorder_result.clone()
    }

    fn restore_target(&self) -> Result<(), String> {
        self.events.borrow_mut().push("restore");
        self.restore_result.clone()
    }

    fn hide_picker(&self) -> Result<(), String> {
        self.events.borrow_mut().push("hide");
        self.hide_result.clone()
    }

    fn simulate_input(&self) -> Result<(), String> {
        self.events.borrow_mut().push("input");
        self.input_result.clone()
    }
}

fn assert_manual_paste_after_input_failure(error: &str) {
    let mut operations = FakePasteOperations::successful();
    operations.input_result = FakePasteOperations::failed(error);

    assert_eq!(
        paste_with(&operations, "text:known"),
        PasteOutcome::CopiedForManualPaste
    );
    assert_eq!(
        operations.events(),
        ["write", "reorder", "restore", "hide", "input"]
    );
}

#[test]
fn clear_event_is_emitted_only_after_a_committed_clear() {
    assert!(should_emit_clear_event(&Ok(())));
    assert!(!should_emit_clear_event(&Err(ClipboardError::ItemNotFound)));
}

#[test]
fn persists_shortcut_settings_without_touching_an_unavailable_plugin() {
    let mut native_calls = 0;
    let mut persisted = false;

    let result = save_shortcut_transaction(
        false,
        &ShortcutSettings::default(),
        &ShortcutSettings::default(),
        || Ok(()),
        |_, _| {
            native_calls += 1;
            Ok(())
        },
        |_, _| {
            persisted = true;
            Ok(())
        },
    );

    assert!(result.is_ok());
    assert_eq!(native_calls, 0);
    assert!(persisted);
}

#[test]
fn persistence_failure_restores_the_previous_runtime_binding() {
    let previous = ShortcutSettings::default();
    let mut next = ShortcutSettings::default();
    next.open_klipo = "SUPER+ALT+KeyK".into();
    let mut replacements: Vec<(String, String)> = Vec::new();

    let error_value = save_shortcut_transaction(
        true,
        &previous,
        &next,
        || Ok(()),
        |active, requested| {
            replacements.push((active.open_klipo.clone(), requested.open_klipo.clone()));
            Ok(())
        },
        |_, _| Err("disk is unavailable".into()),
    )
    .expect_err("persistence failure rolls the binding back");

    assert!(error_value.contains("restored the previous"));
    assert_eq!(
        replacements,
        vec![
            ("SUPER+SHIFT+KeyV".into(), "SUPER+ALT+KeyK".into()),
            ("SUPER+ALT+KeyK".into(), "SUPER+SHIFT+KeyV".into()),
        ]
    );
}

#[test]
fn failed_persistence_preparation_leaves_the_runtime_binding_unchanged() {
    let previous = ShortcutSettings::default();
    let mut next = ShortcutSettings::default();
    next.open_klipo = "SUPER+ALT+KeyK".into();
    let mut replacement_attempted = false;

    let error_value = save_shortcut_transaction(
        true,
        &previous,
        &next,
        || Err("settings directory is unavailable".into()),
        |_, _| {
            replacement_attempted = true;
            Ok(())
        },
        |_: &(), _| Ok(()),
    )
    .expect_err("preparation failure prevents runtime replacement");

    assert_eq!(error_value, "settings directory is unavailable");
    assert!(!replacement_attempted);
}

#[test]
fn persistence_failure_reports_when_the_inverse_runtime_replacement_also_fails() {
    let previous = ShortcutSettings::default();
    let mut next = ShortcutSettings::default();
    next.open_klipo = "SUPER+ALT+KeyK".into();
    let mut replacements: Vec<(String, String)> = Vec::new();

    let error_value = save_shortcut_transaction(
        true,
        &previous,
        &next,
        || Ok(()),
        |active, requested| {
            replacements.push((active.open_klipo.clone(), requested.open_klipo.clone()));
            if replacements.len() == 2 {
                Err("X11 backend refused rollback".into())
            } else {
                Ok(())
            }
        },
        |_, _| Err("disk is unavailable".into()),
    )
    .expect_err("a failed inverse replacement is returned to the caller");

    assert!(error_value.contains("disk is unavailable"));
    assert!(error_value.contains("X11 backend refused rollback"));
    assert_eq!(
        replacements,
        vec![
            ("SUPER+SHIFT+KeyV".into(), "SUPER+ALT+KeyK".into()),
            ("SUPER+ALT+KeyK".into(), "SUPER+SHIFT+KeyV".into()),
        ]
    );
}

#[test]
fn unknown_hash_does_not_change_history_or_picker() {
    let mut operations = FakePasteOperations::successful();
    operations.item = None;

    assert_eq!(
        paste_with(&operations, "text:unknown"),
        PasteOutcome::ClipboardWriteFailed
    );
    assert!(operations.events().is_empty());
}

#[test]
fn clipboard_write_failure_does_not_change_history_or_picker() {
    let mut operations = FakePasteOperations::successful();
    operations.write_result = FakePasteOperations::failed("write");

    assert_eq!(
        paste_with(&operations, "text:known"),
        PasteOutcome::ClipboardWriteFailed
    );
    assert_eq!(operations.events(), ["write"]);
}

#[test]
fn successful_paste_writes_reorders_restores_hides_then_inputs() {
    let operations = FakePasteOperations::successful();

    assert_eq!(paste_with(&operations, "text:known"), PasteOutcome::Pasted);
    assert_eq!(
        operations.events(),
        ["write", "reorder", "restore", "hide", "input"]
    );
}

#[test]
fn reorder_failure_keeps_picker_open_for_manual_paste() {
    let mut operations = FakePasteOperations::successful();
    operations.reorder_result = FakePasteOperations::failed("reorder");

    assert_eq!(
        paste_with(&operations, "text:known"),
        PasteOutcome::CopiedForManualPaste
    );
    assert_eq!(operations.events(), ["write", "reorder"]);
}

#[test]
fn unavailable_target_keeps_picker_open_for_manual_paste() {
    let mut operations = FakePasteOperations::successful();
    operations.restore_result = FakePasteOperations::failed("target unavailable");

    assert_eq!(
        paste_with(&operations, "text:known"),
        PasteOutcome::CopiedForManualPaste
    );
    assert_eq!(operations.events(), ["write", "reorder", "restore"]);
}

#[test]
fn hide_failure_does_not_attempt_input_or_report_success() {
    let mut operations = FakePasteOperations::successful();
    operations.hide_result = FakePasteOperations::failed("hide");

    assert_eq!(
        paste_with(&operations, "text:known"),
        PasteOutcome::CopiedForManualPaste
    );
    assert_eq!(operations.events(), ["write", "reorder", "restore", "hide"]);
}

#[test]
fn unavailable_input_keeps_picker_open_for_manual_paste() {
    assert_manual_paste_after_input_failure("input unavailable");
}

#[test]
fn modifier_press_failure_is_not_a_successful_paste() {
    assert_manual_paste_after_input_failure("modifier press");
}

#[test]
fn v_click_failure_is_not_a_successful_paste() {
    assert_manual_paste_after_input_failure("v click");
}

#[test]
fn modifier_release_failure_is_not_a_successful_paste() {
    assert_manual_paste_after_input_failure("modifier release");
}

#[test]
fn click_and_release_failure_is_not_a_successful_paste() {
    assert_manual_paste_after_input_failure("v click and modifier release");
}

#[test]
fn paste_steps_report_the_first_failing_step() {
    let mut operations = FakePasteOperations::successful();
    operations.restore_result = FakePasteOperations::failed("restore");
    operations.input_result = FakePasteOperations::failed("input");

    assert_eq!(
        run_paste_steps(&operations, "text:known"),
        Some(PasteStep::RestoreTarget)
    );
    assert_eq!(run_paste_steps(&FakePasteOperations::successful(), "x"), None);
}

#[test]
fn paste_outcome_follows_the_failing_step() {
    assert_eq!(paste_outcome(None), PasteOutcome::Pasted);
    assert_eq!(
        paste_outcome(Some(PasteStep::Lookup)),
        PasteOutcome::ClipboardWriteFailed
    );
    assert_eq!(
        paste_outcome(Some(PasteStep::Write)),
        PasteOutcome::ClipboardWriteFailed
    );
    for step in [
        PasteStep::Reorder,
        PasteStep::RestoreTarget,
        PasteStep::HidePicker,
        PasteStep::Input,
    ] {
        assert_eq!(
            paste_outcome(Some(step)),
            PasteOutcome::CopiedForManualPaste
        );
    }
}

#[test]
fn persistence_failure_messages_name_the_rollback_outcome() {
    assert_eq!(
        persistence_failure_message("disk full", None),
        "Could not save shortcut settings: disk full"
    );
    assert_eq!(
        persistence_failure_message("disk full", Some(Ok(()))),
        "Could not save shortcut settings: disk full; restored the previous global shortcut binding"
    );
    assert_eq!(
        persistence_failure_message("disk full", Some(Err("busy".into()))),
        "Could not save shortcut settings: disk full; failed to restore the previous global shortcut binding (busy)"
    );
}

#[test]
fn persistence_failure_without_runtime_replacement_reports_only_the_error() {
    let mut native_calls = 0;
    let error_value = save_shortcut_transaction(
        false,
        &ShortcutSettings::default(),
        &ShortcutSettings::default(),
        || Ok(()),
        |_, _| {
            native_calls += 1;
            Ok(())
        },
        |_, _| Err("disk is unavailable".into()),
    )
    .expect_err("persistence failure is reported");

    assert_eq!(
        error_value,
        "Could not save shortcut settings: disk is unavailable"
    );
    assert_eq!(native_calls, 0);
}

#[test]
fn failed_runtime_replacement_is_returned_before_persisting() {
    let mut persisted = false;
    let error_value = save_shortcut_transaction(
        true,
        &ShortcutSettings::default(),
        &ShortcutSettings::default(),
        || Ok(()),
        |_, _| Err("backend refused".into()),
        |_, _| {
            persisted = true;
            Ok(())
        },
    )
    .expect_err("replacement failure is reported");

    assert_eq!(error_value, "backend refused");
    assert!(!persisted);
}

fn image(width: u32, height: u32, byte: u8) -> ClipboardImage {
    ClipboardImage::from_rgba(vec![byte; (width * height * 4) as usize], width, height)
        .expect("test image should be valid")
}

#[test]
fn deleting_the_first_entry_hands_back_the_new_first_entry() {
    let mut store = ClipboardStore::new();
    assert!(store.add_image(image(1, 1, 9), None));
    assert!(store.add_text("newest".into()));
    let newest = store.first().unwrap().hash;

    let (index, next_first) = delete_from_history(&mut store, &newest).unwrap();

    assert_eq!(index, 0);
    let next_first = next_first.expect("the image is first now");
    assert_eq!(next_first.image.unwrap().rgba, vec![9; 4]);
    assert_eq!(store.len(), 1);
}

#[test]
fn deleting_a_later_entry_leaves_the_clipboard_alone() {
    let mut store = ClipboardStore::new();
    assert!(store.add_text("older".into()));
    assert!(store.add_text("newer".into()));
    let older = store.list().unwrap()[1].hash.clone();

    assert_eq!(delete_from_history(&mut store, &older).map(|(i, f)| (i, f.is_none())), Some((1, true)));
    assert_eq!(store.first().unwrap().text, "newer");
}

#[test]
fn deleting_with_an_empty_or_unknown_hash_changes_nothing() {
    let mut store = ClipboardStore::new();
    assert!(store.add_text("kept".into()));

    assert!(delete_from_history(&mut store, "").is_none());
    assert!(delete_from_history(&mut store, "text:unknown").is_none());
    assert_eq!(store.len(), 1);
}

#[test]
fn deleting_the_only_entry_leaves_nothing_to_restore() {
    let mut store = ClipboardStore::new();
    assert!(store.add_text("only".into()));
    let hash = store.first().unwrap().hash;

    let (index, next_first) = delete_from_history(&mut store, &hash).unwrap();

    assert_eq!(index, 0);
    assert!(next_first.is_none());
    assert_eq!(store.len(), 0);
}
