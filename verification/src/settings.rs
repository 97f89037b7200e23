//! The user's shortcut settings and the rules they must follow.
use vstd::prelude::*;

use crate::text::{ascii_upper_seq, eq_ignore_ascii_case, join2, str_equals, to_ascii_uppercase};

verus! {

/// The id of the global shortcut that `text` describes, as the global-hotkey
/// crate parses it (`HotKey::from_str`, then `HotKey::id`), or `None` when it
/// does not parse. Parsing depends on the text alone for a given build
/// target.
pub uninterp spec fn shortcut_id(text: Seq<char>) -> Option<u32>;

/// Calls `global_hotkey::hotkey::HotKey::from_str` and, on success,
/// `HotKey::id`. Claimed: the outcome is a function of the text alone, named
/// `shortcut_id`; which texts parse is not stated. Two shortcuts with equal
/// ids are equal, since the id packs the modifiers and the key.
#[verifier::external_body]
pub fn parse_shortcut(text: &str) -> (id: Option<u32>)
    ensures
        id == shortcut_id(text@),
{
    text.parse::<global_hotkey::hotkey::HotKey>().ok().map(|hotkey| hotkey.id())
}

#[derive(Clone, Debug, PartialEq, Eq)]
pub struct ShortcutSettings {
    pub version: u8,
    pub open_klipo: String,
    pub move_selection_up: String,
    pub move_selection_down: String,
    pub paste_selected_item: String,
    pub delete_selected_item: String,
}

impl Default for ShortcutSettings {
    fn default() -> (settings: Self)
        ensures
            settings.version == 1,
            settings.open_klipo@ == "SUPER+SHIFT+KeyV"@,
            settings.move_selection_up@ == "ArrowUp"@,
            settings.move_selection_down@ == "ArrowDown"@,
            settings.paste_selected_item@ == "Enter"@,
            settings.delete_selected_item@ == "Delete"@,
    {
        Self {
            version: 1,
            open_klipo: String::from_str("SUPER+SHIFT+KeyV"),
            move_selection_up: String::from_str("ArrowUp"),
            move_selection_down: String::from_str("ArrowDown"),
            paste_selected_item: String::from_str("Enter"),
            delete_selected_item: String::from_str("Delete"),
        }
    }
}

/// The settings every installation starts from.
pub open spec fn is_default_settings(settings: ShortcutSettings) -> bool {
    &&& settings.version == 1
    &&& settings.open_klipo@ == "SUPER+SHIFT+KeyV"@
    &&& settings.move_selection_up@ == "ArrowUp"@
    &&& settings.move_selection_down@ == "ArrowDown"@
    &&& settings.paste_selected_item@ == "Enter"@
    &&& settings.delete_selected_item@ == "Delete"@
}

/// Why one shortcut is refused, given the shortcuts of the actions before it.
pub open spec fn entry_error(action: Seq<char>, value: Seq<char>, earlier: Seq<Seq<char>>) -> Option<
    Seq<char>,
> {
    if ascii_upper_seq(value) == ascii_upper_seq("Escape"@) || value.len() == 0 {
        Some(action + ": Escape is reserved for closing Klipo"@)
    } else if shortcut_id(value) is None {
        Some(action + ": unsupported shortcut"@)
    } else if exists|j: int|
        0 <= j < earlier.len() && #[trigger] ascii_upper_seq(earlier[j]) == ascii_upper_seq(value) {
        Some(action + ": this shortcut is already assigned"@)
    } else {
        None
    }
}

/// The first refused shortcut among `entries`, in order, if any.
pub open spec fn entries_error(entries: Seq<(Seq<char>, Seq<char>)>) -> Option<Seq<char>>
    decreases entries.len(),
{
    if entries.len() == 0 {
        None
    } else {
        match entries_error(entries.drop_last()) {
            Some(e) => Some(e),
            None => entry_error(
                entries.last().0,
                entries.last().1,
                entries.drop_last().map_values(|e: (Seq<char>, Seq<char>)| e.1),
            ),
        }
    }
}

/// Once a prefix of the entries holds an error, that error is the error of
/// every longer prefix.
proof fn lemma_first_error_decides(entries: Seq<(Seq<char>, Seq<char>)>, i: int)
    requires
        0 <= i < entries.len(),
        entries_error(entries.subrange(0, i)) is None,
    ensures
        entries_error(entries.subrange(0, i + 1)) is Some ==> entries_error(entries)
            == entries_error(entries.subrange(0, i + 1)),
        entries_error(entries.subrange(0, i + 1)) == entry_error(
            entries[i].0,
            entries[i].1,
            entries.subrange(0, i).map_values(|e: (Seq<char>, Seq<char>)| e.1),
        ),
    decreases entries.len(),
{
    assert(entries.subrange(0, i + 1).drop_last() =~= entries.subrange(0, i));
    if i + 1 < entries.len() {
        assert(entries.drop_last().subrange(0, i) =~= entries.subrange(0, i));
        lemma_first_error_decides(entries.drop_last(), i);
        assert(entries.drop_last().subrange(0, i + 1) =~= entries.subrange(0, i + 1));
    } else {
        assert(entries.subrange(0, i + 1) =~= entries);
    }
}

/// The problem with a set of settings, if any: the version must be 1; no
/// shortcut may be empty or Escape, each must parse, and no two may be equal
/// up to ASCII case.
pub open spec fn settings_error(settings: ShortcutSettings) -> Option<Seq<char>> {
    if settings.version != 1 {
        Some("Unsupported settings version"@)
    } else {
        entries_error(settings.entry_seq())
    }
}

impl ShortcutSettings {
    /// Each action's name with its shortcut, in the order they are shown.
    pub open spec fn entry_seq(&self) -> Seq<(Seq<char>, Seq<char>)> {
        seq![
            ("Open Klipo"@, self.open_klipo@),
            ("Move selection up"@, self.move_selection_up@),
            ("Move selection down"@, self.move_selection_down@),
            ("Paste selected item"@, self.paste_selected_item@),
            ("Delete selected item"@, self.delete_selected_item@),
        ]
    }

    pub fn entries(&self) -> (entries: [(&str, &str); 5])
        ensures
            forall|i: int|
                0 <= i < 5 ==> (#[trigger] entries@[i]).0@ == self.entry_seq()[i].0
                    && entries@[i].1@ == self.entry_seq()[i].1,
    {
        [
            ("Open Klipo", self.open_klipo.as_str()),
            ("Move selection up", self.move_selection_up.as_str()),
            ("Move selection down", self.move_selection_down.as_str()),
            ("Paste selected item", self.paste_selected_item.as_str()),
            ("Delete selected item", self.delete_selected_item.as_str()),
        ]
    }

    /// A copy of these settings.
    pub fn duplicate(&self) -> (copy: Self)
        ensures
            copy.version == self.version,
            copy.open_klipo@ == self.open_klipo@,
            copy.move_selection_up@ == self.move_selection_up@,
            copy.move_selection_down@ == self.move_selection_down@,
            copy.paste_selected_item@ == self.paste_selected_item@,
            copy.delete_selected_item@ == self.delete_selected_item@,
    {
        ShortcutSettings {
            version: self.version,
            open_klipo: self.open_klipo.clone(),
            move_selection_up: self.move_selection_up.clone(),
            move_selection_down: self.move_selection_down.clone(),
            paste_selected_item: self.paste_selected_item.clone(),
            delete_selected_item: self.delete_selected_item.clone(),
        }
    }

    /// Checks the settings; the error names the first action whose shortcut
    /// is refused.
    #[verifier::loop_isolation(false)]
    pub fn validate(&self) -> (result: Result<(), String>)
        ensures
            match settings_error(*self) {
                Some(message) => result matches Err(e) && e@ == message,
                None => result is Ok,
            },
    {
        if self.version != 1 {
            return Err(String::from_str("Unsupported settings version"));
        }
        let entries = self.entries();
        let ghost all = self.entry_seq();
        let mut seen: Vec<String> = Vec::new();
        let mut i: usize = 0;
        while i < 5
            invariant
                i <= 5,
                all == self.entry_seq(),
                forall|k: int|
                    0 <= k < 5 ==> (#[trigger] entries@[k]).0@ == all[k].0 && entries@[k].1@
                        == all[k].1,
                entries_error(all.subrange(0, i as int)) is None,
                seen@.len() == i,
                forall|k: int| 0 <= k < i ==> (#[trigger] seen@[k])@ == ascii_upper_seq(all[k].1),
            decreases 5 - i,
        {
            let (action, value) = entries[i];
            let ghost prefix = all.subrange(0, i as int);
            let ghost earlier = prefix.map_values(|e: (Seq<char>, Seq<char>)| e.1);
            proof {
                assert(all.subrange(0, i + 1).drop_last() =~= prefix);
                assert(all.subrange(0, i + 1).last() == all[i as int]);
                reveal_strlit("Escape");
            }
            proof {
                lemma_first_error_decides(all, i as int);
            }
            if eq_ignore_ascii_case(value, "Escape") || value.is_empty() {
                return Err(join2(action, ": Escape is reserved for closing Klipo"));
            }
            if parse_shortcut(value).is_none() {
                return Err(join2(action, ": unsupported shortcut"));
            }
            let upper = to_ascii_uppercase(value);
            let mut j: usize = 0;
            while j < seen.len()
                invariant
                    j <= seen@.len(),
                    seen@.len() == i,
                    i < 5,
                    forall|k: int| 0 <= k < i ==> (#[trigger] seen@[k])@ == ascii_upper_seq(all[k].1),
                    upper@ == ascii_upper_seq(value@),
                    forall|k: int| 0 <= k < j ==> seen@[k]@ != upper@,
                decreases seen.len() - j,
            {
                if str_equals(seen[j].as_str(), upper.as_str()) {
                    proof {
                        assert(earlier[j as int] == all[j as int].1);
                        assert(ascii_upper_seq(earlier[j as int]) == ascii_upper_seq(value@));
                    }
                    return Err(join2(action, ": this shortcut is already assigned"));
                }
                j = j + 1;
            }
            proof {
                assert forall|k: int| 0 <= k < earlier.len() implies #[trigger] ascii_upper_seq(
                    earlier[k],
                ) != ascii_upper_seq(value@) by {
                    assert(earlier[k] == all[k].1);
                    assert(seen@[k]@ == ascii_upper_seq(all[k].1));
                }
            }
            seen.push(upper);
            i = i + 1;
        }
        assert(all.subrange(0, 5) =~= all);
        Ok(())
    }
}

/// The settings themselves when they are valid, and the defaults otherwise.
pub fn valid_or_default_settings(settings: ShortcutSettings) -> (active: ShortcutSettings)
    ensures
        settings_error(settings) is None ==> active == settings,
        settings_error(settings) is Some ==> is_default_settings(active),
{
    match settings.validate() {
        Ok(()) => settings,
        Err(_) => ShortcutSettings::default(),
    }
}

/// When no entry is refused, no single entry is refused given the entries
/// before it.
proof fn lemma_no_error_means_every_entry_accepted(entries: Seq<(Seq<char>, Seq<char>)>, k: int)
    requires
        entries_error(entries) is None,
        0 <= k < entries.len(),
    ensures
        entry_error(
            entries[k].0,
            entries[k].1,
            entries.subrange(0, k).map_values(|e: (Seq<char>, Seq<char>)| e.1),
        ) is None,
    decreases entries.len(),
{
    let rest = entries.drop_last();
    if k < entries.len() - 1 {
        lemma_no_error_means_every_entry_accepted(rest, k);
        assert(rest[k] == entries[k]);
        assert(rest.subrange(0, k) =~= entries.subrange(0, k));
    } else {
        assert(entries.subrange(0, k) =~= rest);
    }
}

/// A shortcut that is Escape, in any ASCII case, or empty is refused.
pub proof fn lemma_reserved_shortcut_is_refused(settings: ShortcutSettings, k: int)
    requires
        0 <= k < 5,
        ascii_upper_seq(settings.entry_seq()[k].1) == ascii_upper_seq("Escape"@)
            || settings.entry_seq()[k].1.len() == 0,
    ensures
        settings_error(settings) is Some,
{
    if settings.version == 1 && settings_error(settings) is None {
        lemma_no_error_means_every_entry_accepted(settings.entry_seq(), k);
    }
}

/// Entries each of which is neither empty nor Escape, parses, and differs
/// up to ASCII case from every one before it hold no error.
proof fn lemma_acceptable_entries_hold_no_error(entries: Seq<(Seq<char>, Seq<char>)>)
    requires
        forall|k: int|
            0 <= k < entries.len() ==> ascii_upper_seq(#[trigger] entries[k].1) != ascii_upper_seq(
                "Escape"@,
            ) && entries[k].1.len() != 0 && shortcut_id(entries[k].1) is Some,
        forall|i: int, k: int|
            0 <= i < k < entries.len() ==> ascii_upper_seq(#[trigger] entries[i].1) != ascii_upper_seq(
                #[trigger] entries[k].1,
            ),
    ensures
        entries_error(entries) is None,
    decreases entries.len(),
{
    if entries.len() > 0 {
        let rest = entries.drop_last();
        assert forall|k: int| 0 <= k < rest.len() implies ascii_upper_seq(#[trigger] rest[k].1)
            != ascii_upper_seq("Escape"@) && rest[k].1.len() != 0 && shortcut_id(rest[k].1) is Some by {
            assert(rest[k] == entries[k]);
        }
        assert forall|i: int, k: int| 0 <= i < k < rest.len() implies ascii_upper_seq(
            #[trigger] rest[i].1,
        ) != ascii_upper_seq(#[trigger] rest[k].1) by {
            assert(rest[i] == entries[i] && rest[k] == entries[k]);
        }
        lemma_acceptable_entries_hold_no_error(rest);
        let last = entries.len() - 1;
        let earlier = rest.map_values(|e: (Seq<char>, Seq<char>)| e.1);
        assert(entries.last() == entries[last]);
        assert(entries[last].1 == entries[last].1);
        assert forall|j: int| 0 <= j < earlier.len() implies #[trigger] ascii_upper_seq(earlier[j])
            != ascii_upper_seq(entries[last].1) by {
            assert(earlier[j] == entries[j].1);
            assert(entries[j].1 == entries[j].1);
        }
    }
}

/// Settings of version 1 whose five shortcuts are each neither empty nor
/// Escape, each parse, and are pairwise different up to ASCII case are
/// accepted.
pub proof fn lemma_acceptable_settings_are_accepted(settings: ShortcutSettings)
    requires
        settings.version == 1,
        forall|k: int|
            0 <= k < 5 ==> ascii_upper_seq(#[trigger] settings.entry_seq()[k].1) != ascii_upper_seq(
                "Escape"@,
            ) && settings.entry_seq()[k].1.len() != 0 && shortcut_id(settings.entry_seq()[k].1) is Some,
        forall|i: int, k: int|
            0 <= i < k < 5 ==> ascii_upper_seq(#[trigger] settings.entry_seq()[i].1) != ascii_upper_seq(
                #[trigger] settings.entry_seq()[k].1,
            ),
    ensures
        settings_error(settings) is None,
{
    lemma_acceptable_entries_hold_no_error(settings.entry_seq());
}

/// Every one of the five shortcuts must parse: settings in which any does
/// not are refused.
pub proof fn lemma_unparsable_shortcut_is_refused(settings: ShortcutSettings, k: int)
    requires
        0 <= k < 5,
        shortcut_id(settings.entry_seq()[k].1) is None,
    ensures
        settings_error(settings) is Some,
{
    if settings.version == 1 && settings_error(settings) is None {
        lemma_no_error_means_every_entry_accepted(settings.entry_seq(), k);
    }
}

/// Two actions can never share a shortcut, even in different ASCII case.
pub proof fn lemma_repeated_shortcut_is_refused(settings: ShortcutSettings, i: int, j: int)
    requires
        0 <= i < j < 5,
        ascii_upper_seq(settings.entry_seq()[i].1) == ascii_upper_seq(settings.entry_seq()[j].1),
    ensures
        settings_error(settings) is Some,
{
    if settings.version == 1 && settings_error(settings) is None {
        let entries = settings.entry_seq();
        lemma_no_error_means_every_entry_accepted(entries, j);
        let earlier = entries.subrange(0, j).map_values(|e: (Seq<char>, Seq<char>)| e.1);
        assert(earlier[i] == entries[i].1);
    }
}

} // verus!
