//! The decisions behind the picker's commands: the paste flow, the shortcut
//! save transaction, and the history clear and delete follow-ups.
use vstd::prelude::*;

use crate::clipboard::ClipboardItem;
use crate::settings::ShortcutSettings;
use crate::storage::{index_of_hash, ClipboardError, ClipboardStore};
use crate::text::{join2, join4};

verus! {

/// What the picker is told after a paste request.
#[derive(Debug, Clone, Copy, PartialEq, Eq, Structural)]
pub enum PasteOutcome {
    Pasted,
    CopiedForManualPaste,
    ClipboardWriteFailed,
}

/// The steps of an automatic paste, in the order they run.
#[derive(Debug, Clone, Copy, PartialEq, Eq, Structural)]
pub enum PasteStep {
    Lookup,
    Write,
    Reorder,
    RestoreTarget,
    HidePicker,
    Input,
}

/// The outcome of a paste whose first failing step is `failed`, if any:
/// nothing is on the clipboard when the lookup or the write failed; after a
/// successful write every later failure leaves the item for a manual paste.
pub open spec fn paste_outcome_for(failed: Option<PasteStep>) -> PasteOutcome {
    match failed {
        None => PasteOutcome::Pasted,
        Some(PasteStep::Lookup) => PasteOutcome::ClipboardWriteFailed,
        Some(PasteStep::Write) => PasteOutcome::ClipboardWriteFailed,
        Some(_) => PasteOutcome::CopiedForManualPaste,
    }
}

pub fn paste_outcome(failed: Option<PasteStep>) -> (outcome: PasteOutcome)
    ensures
        outcome == paste_outcome_for(failed),
{
    match failed {
        None => PasteOutcome::Pasted,
        Some(PasteStep::Lookup) | Some(PasteStep::Write) => PasteOutcome::ClipboardWriteFailed,
        Some(_) => PasteOutcome::CopiedForManualPaste,
    }
}

/// The effects a paste needs. Implementations perform them; nothing is
/// assumed of what they return.
pub trait PasteOperations {
    fn item_for_hash(&self, hash: &str) -> Option<ClipboardItem>;

    fn write_item(&self, item: &ClipboardItem) -> Result<(), String>;

    fn move_to_top(&self, hash: &str) -> Result<(), String>;

    fn restore_target(&self) -> Result<(), String>;

    fn hide_picker(&self) -> Result<(), String>;

    fn simulate_input(&self) -> Result<(), String>;
}

/// The first paste step that failed, given what each step returned; the
/// steps after a failed one do not run, so their results do not matter.
pub open spec fn first_failed_step(
    found: Option<ClipboardItem>,
    written: Result<(), String>,
    reordered: Result<(), String>,
    restored: Result<(), String>,
    hidden: Result<(), String>,
    input: Result<(), String>,
) -> Option<PasteStep> {
    if found is None {
        Some(PasteStep::Lookup)
    } else if written is Err {
        Some(PasteStep::Write)
    } else if reordered is Err {
        Some(PasteStep::Reorder)
    } else if restored is Err {
        Some(PasteStep::RestoreTarget)
    } else if hidden is Err {
        Some(PasteStep::HidePicker)
    } else if input is Err {
        Some(PasteStep::Input)
    } else {
        None
    }
}

/// The paste steps ran in order on `operations` and `hash` and returned the
/// given results: the lookup always runs, and each later step runs, on the
/// item found, exactly when every step before it succeeded.
pub open spec fn paste_steps_ran<O: PasteOperations>(
    operations: &O,
    hash: &str,
    found: Option<ClipboardItem>,
    written: Result<(), String>,
    reordered: Result<(), String>,
    restored: Result<(), String>,
    hidden: Result<(), String>,
    input: Result<(), String>,
) -> bool {
    &&& call_ensures(O::item_for_hash, (operations, hash), found)
    &&& found is Some ==> call_ensures(O::write_item, (operations, &found->0), written)
    &&& (found is Some && written is Ok) ==> call_ensures(
        O::move_to_top,
        (operations, hash),
        reordered,
    )
    &&& (found is Some && written is Ok && reordered is Ok) ==> call_ensures(
        O::restore_target,
        (operations,),
        restored,
    )
    &&& (found is Some && written is Ok && reordered is Ok && restored is Ok) ==> call_ensures(
        O::hide_picker,
        (operations,),
        hidden,
    )
    &&& (found is Some && written is Ok && reordered is Ok && restored is Ok && hidden is Ok)
        ==> call_ensures(O::simulate_input, (operations,), input)
}

/// Runs the paste steps in order and stops at the first that fails; that
/// step is returned, or `None` when all of them succeeded.
pub fn run_paste_steps<O: PasteOperations>(operations: &O, hash: &str) -> (failed: Option<PasteStep>)
    ensures
        exists|
            found: Option<ClipboardItem>,
            written: Result<(), String>,
            reordered: Result<(), String>,
            restored: Result<(), String>,
            hidden: Result<(), String>,
            input: Result<(), String>,
        |
            #[trigger] paste_steps_ran(
                operations,
                hash,
                found,
                written,
                reordered,
                restored,
                hidden,
                input,
            ) && failed == first_failed_step(found, written, reordered, restored, hidden, input),
{
    let lookup = O::item_for_hash;
    let found = lookup(operations, hash);
    let item = match found {
        Some(item) => item,
        None => {
            assert(paste_steps_ran(operations, hash, found, Ok(()), Ok(()), Ok(()), Ok(()), Ok(())));
            return Some(PasteStep::Lookup);
        },
    };
    let write = O::write_item;
    let written = write(operations, &item);
    if written.is_err() {
        assert(paste_steps_ran(operations, hash, found, written, Ok(()), Ok(()), Ok(()), Ok(())));
        return Some(PasteStep::Write);
    }
    let reorder = O::move_to_top;
    let reordered = reorder(operations, hash);
    if reordered.is_err() {
        assert(paste_steps_ran(operations, hash, found, written, reordered, Ok(()), Ok(()), Ok(())));
        return Some(PasteStep::Reorder);
    }
    let restore = O::restore_target;
    let restored = restore(operations);
    if restored.is_err() {
        assert(paste_steps_ran(operations, hash, found, written, reordered, restored, Ok(()), Ok(())));
        return Some(PasteStep::RestoreTarget);
    }
    let hide_window = O::hide_picker;
    let hidden = hide_window(operations);
    if hidden.is_err() {
        assert(paste_steps_ran(operations, hash, found, written, reordered, restored, hidden, Ok(())));
        return Some(PasteStep::HidePicker);
    }
    let send_input = O::simulate_input;
    let input = send_input(operations);
    assert(paste_steps_ran(operations, hash, found, written, reordered, restored, hidden, input));
    if input.is_err() {
        return Some(PasteStep::Input);
    }
    None
}

/// Pastes the entry with `hash`: write it to the clipboard, move it to the
/// top, give focus back, hide the picker, then send the paste keystroke.
pub fn paste_with<O: PasteOperations>(operations: &O, hash: &str) -> (outcome: PasteOutcome)
    ensures
        exists|
            found: Option<ClipboardItem>,
            written: Result<(), String>,
            reordered: Result<(), String>,
            restored: Result<(), String>,
            hidden: Result<(), String>,
            input: Result<(), String>,
        |
            #[trigger] paste_steps_ran(
                operations,
                hash,
                found,
                written,
                reordered,
                restored,
                hidden,
                input,
            ) && outcome == paste_outcome_for(
                first_failed_step(found, written, reordered, restored, hidden, input),
            ),
{
    let failed = run_paste_steps(operations, hash);
    paste_outcome(failed)
}

/// The message of a save whose persistence failed with `persist_error`:
/// `rollback` is `None` when the runtime binding was never replaced, and
/// otherwise the outcome of putting the previous binding back.
pub open spec fn save_failure_message(
    persist_error: Seq<char>,
    rollback: Option<Result<(), Seq<char>>>,
) -> Seq<char> {
    match rollback {
        None => "Could not save shortcut settings: "@ + persist_error,
        Some(Ok(())) => "Could not save shortcut settings: "@ + persist_error
            + "; restored the previous global shortcut binding"@,
        Some(Err(rollback_error)) => "Could not save shortcut settings: "@ + persist_error
            + "; failed to restore the previous global shortcut binding ("@ + rollback_error
            + ")"@,
    }
}

pub open spec fn result_chars(result: Result<(), String>) -> Result<(), Seq<char>> {
    match result {
        Ok(()) => Ok(()),
        Err(e) => Err(e@),
    }
}

/// A preparation outcome, with the destination left out.
pub open spec fn prepared_chars<D>(result: Result<D, String>) -> Result<(), Seq<char>> {
    match result {
        Ok(_) => Ok(()),
        Err(e) => Err(e@),
    }
}

/// The outcome of a save, given what each step returned: the preparation
/// of the destination, the runtime replacement (made only when
/// `replace_runtime` holds), the persistence, and the rollback (made only
/// after a replacement whose persistence failed).
pub open spec fn save_outcome(
    replace_runtime: bool,
    prepared: Result<(), Seq<char>>,
    replaced: Result<(), Seq<char>>,
    persisted: Result<(), Seq<char>>,
    rolled_back: Result<(), Seq<char>>,
) -> Result<(), Seq<char>> {
    match prepared {
        Err(e) => Err(e),
        Ok(()) => if replace_runtime && replaced is Err {
            replaced
        } else {
            match persisted {
                Ok(()) => Ok(()),
                Err(e) => Err(
                    save_failure_message(
                        e,
                        if replace_runtime {
                            Some(rolled_back)
                        } else {
                            None
                        },
                    ),
                ),
            }
        },
    }
}

/// Builds the message of a failed save; see `save_failure_message`.
pub fn persistence_failure_message(persist_error: &str, rollback: Option<Result<(), String>>) -> (message: String)
    ensures
        message@ == save_failure_message(
            persist_error@,
            match rollback {
                Some(r) => Some(result_chars(r)),
                None => None,
            },
        ),
{
    match rollback {
        None => join2("Could not save shortcut settings: ", persist_error),
        Some(Ok(())) => {
            let mut message = join2("Could not save shortcut settings: ", persist_error);
            message.append("; restored the previous global shortcut binding");
            message
        },
        Some(Err(rollback_error)) => {
            let mut message = join4(
                "Could not save shortcut settings: ",
                persist_error,
                "; failed to restore the previous global shortcut binding (",
                rollback_error.as_str(),
            );
            message.append(")");
            message
        },
    }
}

/// Saves new shortcut settings. The destination is prepared first, and a
/// failure there changes nothing. When `replace_runtime` holds, the runtime
/// binding is then replaced, and put back when persisting fails.
pub fn save_shortcut_transaction<D>(
    replace_runtime: bool,
    previous: &ShortcutSettings,
    next: &ShortcutSettings,
    prepare_persistence: impl FnOnce() -> Result<D, String>,
    mut replace: impl FnMut(&ShortcutSettings, &ShortcutSettings) -> Result<(), String>,
    persist: impl FnOnce(&D, &ShortcutSettings) -> Result<(), String>,
) -> (result: Result<(), String>)
    requires
        call_requires(prepare_persistence, ()),
        forall|a: &ShortcutSettings, b: &ShortcutSettings| #[trigger]
            call_requires(replace, (a, b)),
        forall|d: &D, s: &ShortcutSettings| #[trigger] call_requires(persist, (d, s)),
    ensures
        exists|
            prepared: Result<D, String>,
            replaced: Result<(), String>,
            persisted: Result<(), String>,
            rolled_back: Result<(), String>,
        |
            #[trigger] save_trace(
                replace_runtime,
                previous,
                next,
                prepare_persistence,
                replace,
                persist,
                prepared,
                replaced,
                persisted,
                rolled_back,
            ) && result_chars(result) == save_outcome(
                replace_runtime,
                prepared_chars(prepared),
                result_chars(replaced),
                result_chars(persisted),
                result_chars(rolled_back),
            ),
{
    let prepared = prepare_persistence();
    let ghost prepared_value = prepared;
    let ghost mut replaced_value: Result<(), String> = Ok(());
    let ghost mut persisted_value: Result<(), String> = Ok(());
    let ghost mut rolled_back_value: Result<(), String> = Ok(());
    let result = match prepared {
        Err(error_value) => Err(error_value),
        Ok(destination) => {
            let replaced = if replace_runtime {
                replace(previous, next)
            } else {
                Ok(())
            };
            proof {
                replaced_value = replaced;
            }
            match replaced {
                Err(error_value) => Err(error_value),
                Ok(()) => {
                    let persisted = persist(&destination, next);
                    proof {
                        persisted_value = persisted;
                    }
                    match persisted {
                        Ok(()) => Ok(()),
                        Err(error_value) => {
                            if !replace_runtime {
                                Err(persistence_failure_message(error_value.as_str(), None))
                            } else {
                                let rollback = replace(next, previous);
                                proof {
                                    rolled_back_value = rollback;
                                }
                                Err(persistence_failure_message(error_value.as_str(), Some(rollback)))
                            }
                        },
                    }
                },
            }
        },
    };
    assert(save_trace(
        replace_runtime,
        previous,
        next,
        prepare_persistence,
        replace,
        persist,
        prepared_value,
        replaced_value,
        persisted_value,
        rolled_back_value,
    ));
    assert(result_chars(result) == save_outcome(
        replace_runtime,
        prepared_chars(prepared_value),
        result_chars(replaced_value),
        result_chars(persisted_value),
        result_chars(rolled_back_value),
    ));
    result
}

/// The steps of a save, as `save_shortcut_transaction` makes them: the
/// destination is prepared; the runtime binding is replaced only when
/// `replace_runtime` holds; persisting follows a successful preparation and
/// replacement; the previous binding is put back only after a replacement
/// whose persistence failed. Each step's outcome is one its closure can
/// return for the arguments it was handed.
pub open spec fn save_trace<D, P, R, W>(
    replace_runtime: bool,
    previous: &ShortcutSettings,
    next: &ShortcutSettings,
    prepare_persistence: P,
    replace: R,
    persist: W,
    prepared: Result<D, String>,
    replaced: Result<(), String>,
    persisted: Result<(), String>,
    rolled_back: Result<(), String>,
) -> bool where
    P: FnOnce() -> Result<D, String>,
    R: FnMut(&ShortcutSettings, &ShortcutSettings) -> Result<(), String>,
    W: FnOnce(&D, &ShortcutSettings) -> Result<(), String>,
 {
    &&& call_ensures(prepare_persistence, (), prepared)
    &&& (prepared is Ok && replace_runtime ==> call_ensures(replace, (previous, next), replaced))
    &&& (prepared is Ok && !replace_runtime ==> replaced is Ok)
    &&& match prepared {
        Ok(d) => replaced is Ok ==> call_ensures(persist, (&d, next), persisted),
        Err(_) => true,
    }
    &&& (prepared is Ok && replace_runtime && replaced is Ok && persisted is Err ==> call_ensures(
        replace,
        (next, previous),
        rolled_back,
    ))
}

/// The history-changed event follows a clear only when the clear committed.
pub fn should_emit_clear_event(result: &Result<(), ClipboardError>) -> (emit: bool)
    ensures
        emit == result is Ok,
{
    result.is_ok()
}

/// Deletes the entry with `hash`; an empty hash is ignored. Returns the
/// position the entry had and, when it was the first, the entry that is
/// first now, which goes back on the system clipboard. `None` when nothing
/// was deleted.
pub fn delete_from_history(store: &mut ClipboardStore, hash: &str) -> (result: Option<
    (usize, Option<ClipboardItem>),
>)
    ensures
        hash@.len() == 0 ==> result is None && final(store).view() == old(store).view(),
        hash@.len() > 0 ==> match index_of_hash(old(store).view(), hash@) {
            Some(i) => result matches Some((index, next_first)) && index == i
                && final(store).view() == old(store).view().remove(i)
                && (if i == 0 && final(store).view().len() > 0 {
                next_first matches Some(first) && first.data() == final(store).view()[0]
            } else {
                next_first is None
            }),
            None => result is None && final(store).view() == old(store).view(),
        },
{
    if hash.is_empty() {
        return None;
    }
    let index = match store.delete_by_hash(hash) {
        Ok(index) => index,
        Err(_) => return None,
    };
    if index == 0 {
        Some((index, store.first()))
    } else {
        Some((index, None))
    }
}

/// A paste reports `Pasted` only when every step succeeded, and reports a
/// failed clipboard write exactly when the lookup or the write failed.
pub proof fn lemma_paste_outcome_reflects_the_first_failure(failed: Option<PasteStep>)
    ensures
        (paste_outcome_for(failed) == PasteOutcome::Pasted) <==> failed is None,
        (paste_outcome_for(failed) == PasteOutcome::ClipboardWriteFailed) <==> (failed == Some(
            PasteStep::Lookup,
        ) || failed == Some(PasteStep::Write)),
{
}

} // verus!
