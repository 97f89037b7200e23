//! The clipboard history: entries identified by a content hash, most recent
//! first, without duplicates and bounded in size.
use vstd::prelude::*;

use crate::clipboard::{ClipboardImage, ClipboardItem, ImageData, ItemData};
use crate::digest::{hash_image, hash_text, image_hash, text_hash};
use crate::preview::{generate_preview, image_preview};

verus! {

/// The history keeps at most this many entries.
pub const MAX_ITEMS: usize = 120;

#[derive(Debug)]
pub enum ClipboardError {
    Database(String),
    Io(String),
    PoisonError,
    ItemNotFound,
}

impl ClipboardError {
    /// The message shown for this error.
    pub fn message(&self) -> (message: String)
        ensures
            message@ == clipboard_error_message(*self),
    {
        match self {
            ClipboardError::Database(error) => crate::text::join2(
                "Clipboard database error: ",
                error.as_str(),
            ),
            ClipboardError::Io(error) => crate::text::join2(
                "Clipboard storage error: ",
                error.as_str(),
            ),
            ClipboardError::PoisonError => String::from_str("Clipboard database lock poisoned"),
            ClipboardError::ItemNotFound => String::from_str("Item not found"),
        }
    }
}

pub open spec fn clipboard_error_message(error: ClipboardError) -> Seq<char> {
    match error {
        ClipboardError::Database(e) => "Clipboard database error: "@ + e@,
        ClipboardError::Io(e) => "Clipboard storage error: "@ + e@,
        ClipboardError::PoisonError => "Clipboard database lock poisoned"@,
        ClipboardError::ItemNotFound => "Item not found"@,
    }
}

/// The first position of an entry with `hash`.
pub open spec fn index_of_hash(items: Seq<ItemData>, hash: Seq<char>) -> Option<int>
    decreases items.len(),
{
    if items.len() == 0 {
        None
    } else if items[0].hash == hash {
        Some(0)
    } else {
        match index_of_hash(items.drop_first(), hash) {
            Some(i) => Some(i + 1),
            None => None,
        }
    }
}

/// No two entries share a hash.
pub open spec fn distinct_hashes(items: Seq<ItemData>) -> bool {
    forall|i: int, j: int|
        0 <= i < items.len() && 0 <= j < items.len() && i != j ==> #[trigger] items[i].hash
            != #[trigger] items[j].hash
}

/// The entry a capture of `image` and `text` makes, if any: an image is
/// identified by its pixels, otherwise a non-empty text by its characters;
/// empty text counts as no text.
pub open spec fn new_entry(image: Option<ImageData>, text: Option<Seq<char>>) -> Option<ItemData> {
    let text = match text {
        Some(t) => if t.len() > 0 {
            Some(t)
        } else {
            None
        },
        None => None,
    };
    let text_value = match text {
        Some(t) => t,
        None => Seq::empty(),
    };
    match image {
        Some(image) => Some(
            ItemData {
                text: text_value,
                hash: image_hash(image.width, image.height, image.rgba),
                image: Some(image),
                preview: image_preview(image),
            },
        ),
        None => match text {
            Some(t) => Some(ItemData { text: t, hash: text_hash(t), image: None, preview: None }),
            None => None,
        },
    }
}

/// The history after recording `entry`: an entry with the same hash moves to
/// the front and takes the new image and preview, keeping its text when the
/// new text is empty; a new entry goes to the front; only the most recent
/// `MAX_ITEMS` entries are kept.
pub open spec fn added(items: Seq<ItemData>, entry: ItemData) -> Seq<ItemData> {
    let front = match index_of_hash(items, entry.hash) {
        Some(i) => seq![
            ItemData {
                text: if entry.text.len() == 0 {
                    items[i].text
                } else {
                    entry.text
                },
                ..entry
            },
        ] + items.remove(i),
        None => seq![entry] + items,
    };
    if front.len() > MAX_ITEMS {
        front.take(MAX_ITEMS as int)
    } else {
        front
    }
}

/// The history with the entry at `i` moved to the front.
pub open spec fn moved_to_top(items: Seq<ItemData>, i: int) -> Seq<ItemData> {
    seq![items[i]] + items.remove(i)
}

pub open spec fn display_data(item: ItemData) -> ItemData {
    ItemData { image: None, ..item }
}

pub struct ClipboardStore {
    items: Vec<ClipboardItem>,
}

pub open spec fn item_seq(items: Seq<ClipboardItem>) -> Seq<ItemData> {
    items.map_values(|item: ClipboardItem| item.data())
}

impl ClipboardStore {
    /// The entries, most recent first.
    pub closed spec fn view(&self) -> Seq<ItemData> {
        item_seq(self.items@)
    }

    #[verifier::type_invariant]
    closed spec fn well_formed(&self) -> bool {
        &&& distinct_hashes(item_seq(self.items@))
        &&& self.items@.len() <= MAX_ITEMS
    }

    /// The number of entries. The history never holds two entries with the
    /// same hash nor more than `MAX_ITEMS` entries.
    pub fn len(&self) -> (count: usize)
        ensures
            count == self.view().len(),
            distinct_hashes(self.view()),
            self.view().len() <= MAX_ITEMS,
    {
        proof {
            use_type_invariant(self);
        }
        self.items.len()
    }

    /// An empty history.
    pub fn new() -> (store: Self)
        ensures
            store.view() == Seq::<ItemData>::empty(),
    {
        let store = ClipboardStore { items: Vec::new() };
        assert(store.view() =~= Seq::<ItemData>::empty());
        store
    }

    fn find(&self, hash: &str) -> (index: Option<usize>)
        ensures
            match index {
                Some(i) => index_of_hash(self.view(), hash@) == Some(i as int) && i
                    < self.items@.len() && self.view()[i as int].hash == hash@,
                None => index_of_hash(self.view(), hash@) is None,
            },
    {
        let mut i: usize = 0;
        while i < self.items.len()
            invariant
                i <= self.items@.len(),
                forall|j: int| 0 <= j < i ==> #[trigger] self.view()[j].hash != hash@,
            decreases self.items.len() - i,
        {
            if crate::text::str_equals(self.items[i].hash.as_str(), hash) {
                proof {
                    lemma_index_of_hash_found(self.view(), hash@, i as int);
                }
                return Some(i);
            }
            i = i + 1;
        }
        proof {
            lemma_index_of_hash_absent(self.view(), hash@);
        }
        None
    }

    /// The entry with `hash`, with its full image.
    pub fn get_by_hash(&self, hash: &str) -> (item: Option<ClipboardItem>)
        ensures
            match index_of_hash(self.view(), hash@) {
                Some(i) => item matches Some(found) && found.data() == self.view()[i],
                None => item is None,
            },
    {
        match self.find(hash) {
            Some(i) => Some(self.items[i].duplicate(true)),
            None => None,
        }
    }

    pub fn exists_by_hash(&self, hash: &str) -> (exists: bool)
        ensures
            exists == index_of_hash(self.view(), hash@) is Some,
    {
        self.find(hash).is_some()
    }

    /// Removes the entry with `hash` and returns the position it had.
    pub fn delete_by_hash(&mut self, hash: &str) -> (result: Result<usize, ClipboardError>)
        ensures
            match index_of_hash(old(self).view(), hash@) {
                Some(i) => result matches Ok(index) && index == i && final(self).view()
                    == old(self).view().remove(i),
                None => result matches Err(ClipboardError::ItemNotFound) && final(self).view()
                    == old(self).view(),
            },
    {
        proof {
            use_type_invariant(&*self);
        }
        let index = match self.find(hash) {
            Some(i) => i,
            None => return Err(ClipboardError::ItemNotFound),
        };
        let mut items: Vec<ClipboardItem> = Vec::new();
        std::mem::swap(&mut items, &mut self.items);
        let ghost before = items@;
        items.remove(index);
        proof {
            assert(item_seq(items@) =~= item_seq(before).remove(index as int));
            lemma_remove_keeps_distinct(item_seq(before), index as int);
        }
        self.items = items;
        Ok(index)
    }

    /// Moves the entry with `hash` to the front.
    pub fn move_to_top_by_hash(&mut self, hash: &str) -> (result: Result<(), ClipboardError>)
        ensures
            match index_of_hash(old(self).view(), hash@) {
                Some(i) => result is Ok && final(self).view() == moved_to_top(old(self).view(), i),
                None => result matches Err(ClipboardError::ItemNotFound) && final(self).view()
                    == old(self).view(),
            },
    {
        proof {
            use_type_invariant(&*self);
        }
        let index = match self.find(hash) {
            Some(i) => i,
            None => return Err(ClipboardError::ItemNotFound),
        };
        let mut items: Vec<ClipboardItem> = Vec::new();
        std::mem::swap(&mut items, &mut self.items);
        let ghost before = item_seq(items@);
        let item = items.remove(index);
        items.insert(0, item);
        proof {
            assert(item_seq(items@) =~= moved_to_top(before, index as int));
            lemma_move_keeps_distinct(before, index as int);
        }
        self.items = items;
        Ok(())
    }

    /// Records a capture of `image` and/or `text`; returns whether it made an
    /// entry (content with neither an image nor non-empty text makes none).
    pub fn try_add_content(&mut self, image: Option<ClipboardImage>, text: Option<String>) -> (result:
        Result<bool, ClipboardError>)
        ensures
            ({
                let entry = new_entry(
                    crate::clipboard::option_image_data(image),
                    crate::clipboard::option_chars(text),
                );
                &&& result == Ok::<bool, ClipboardError>(entry is Some)
                &&& match entry {
                    Some(e) => final(self).view() == added(old(self).view(), e),
                    None => final(self).view() == old(self).view(),
                }
            }),
    {
        proof {
            use_type_invariant(&*self);
        }
        let ghost text_param = crate::clipboard::option_chars(text);
        let ghost image_param = crate::clipboard::option_image_data(image);
        let text = match text {
            Some(t) => if t.as_str().is_empty() {
                None
            } else {
                Some(t)
            },
            None => None,
        };
        let hash = match &image {
            Some(image) => hash_image(image.width, image.height, image.rgba.as_slice()),
            None => match &text {
                Some(text) => hash_text(text.as_str()),
                None => return Ok(false),
            },
        };
        let preview = match &image {
            Some(image) => generate_preview(image),
            None => None,
        };
        let text = match text {
            Some(text) => text,
            None => String::new(),
        };
        let entry = ClipboardItem { text, hash, image, preview };
        let ghost entry_data = entry.data();
        proof {
            assert(new_entry(image_param, text_param) == Some(entry_data)) by {
                assert(entry_data.text =~= entry.text@);
            }
        }
        self.add_entry(entry);
        Ok(true)
    }

    fn add_entry(&mut self, entry: ClipboardItem)
        ensures
            final(self).view() == added(old(self).view(), entry.data()),
    {
        proof {
            use_type_invariant(&*self);
        }
        let index = self.find(entry.hash.as_str());
        let mut items: Vec<ClipboardItem> = Vec::new();
        std::mem::swap(&mut items, &mut self.items);
        let ghost before = item_seq(items@);
        let mut entry = entry;
        let ghost e = entry.data();
        match index {
            Some(i) => {
                let previous = items.remove(i);
                if entry.text.as_str().is_empty() {
                    entry.text = previous.text;
                }
                proof {
                    assert(item_seq(items@) =~= before.remove(i as int));
                }
            },
            None => {},
        }
        items.insert(0, entry);
        let ghost front = item_seq(items@);
        proof {
            match index {
                Some(i) => {
                    assert(front =~= seq![
                        ItemData {
                            text: if e.text.len() == 0 {
                                before[i as int].text
                            } else {
                                e.text
                            },
                            ..e
                        },
                    ] + before.remove(i as int));
                    lemma_add_keeps_distinct(before, e, Some(i as int));
                },
                None => {
                    assert(front =~= seq![e] + before);
                    lemma_add_keeps_distinct(before, e, None);
                },
            }
        }
        if items.len() > MAX_ITEMS {
            items.truncate(MAX_ITEMS);
            proof {
                assert(item_seq(items@) =~= front.take(MAX_ITEMS as int));
                lemma_take_keeps_distinct(front, MAX_ITEMS as int);
            }
        }
        self.items = items;
    }

    /// Records a text capture.
    pub fn try_add_text(&mut self, text: String) -> (result: Result<bool, ClipboardError>)
        ensures
            ({
                let entry = new_entry(None, Some(text@));
                &&& result == Ok::<bool, ClipboardError>(entry is Some)
                &&& match entry {
                    Some(e) => final(self).view() == added(old(self).view(), e),
                    None => final(self).view() == old(self).view(),
                }
            }),
    {
        self.try_add_content(None, Some(text))
    }

    /// Records an image capture, with the text copied alongside it.
    pub fn try_add_image(&mut self, image: ClipboardImage, text: Option<String>) -> (result: Result<
        bool,
        ClipboardError,
    >)
        ensures
            ({
                let entry = new_entry(Some(image.data()), crate::clipboard::option_chars(text));
                &&& result == Ok::<bool, ClipboardError>(entry is Some)
                &&& match entry {
                    Some(e) => final(self).view() == added(old(self).view(), e),
                    None => final(self).view() == old(self).view(),
                }
            }),
    {
        self.try_add_content(Some(image), text)
    }

    /// Records a text capture; reports whether it made an entry.
    pub fn add_text(&mut self, text: String) -> (added_entry: bool)
        ensures
            added_entry == new_entry(None, Some(text@)) is Some,
            match new_entry(None, Some(text@)) {
                Some(e) => final(self).view() == added(old(self).view(), e),
                None => final(self).view() == old(self).view(),
            },
    {
        match self.try_add_text(text) {
            Ok(added_entry) => added_entry,
            Err(_) => false,
        }
    }

    /// Records an image capture; reports whether it made an entry.
    pub fn add_image(&mut self, image: ClipboardImage, text: Option<String>) -> (added_entry: bool)
        ensures
            ({
                let entry = new_entry(Some(image.data()), crate::clipboard::option_chars(text));
                &&& added_entry == entry is Some
                &&& match entry {
                    Some(e) => final(self).view() == added(old(self).view(), e),
                    None => final(self).view() == old(self).view(),
                }
            }),
    {
        match self.try_add_image(image, text) {
            Ok(added_entry) => added_entry,
            Err(_) => false,
        }
    }

    /// Records a capture; reports whether it made an entry.
    pub fn add_content(&mut self, image: Option<ClipboardImage>, text: Option<String>) -> (added_entry:
        bool)
        ensures
            ({
                let entry = new_entry(
                    crate::clipboard::option_image_data(image),
                    crate::clipboard::option_chars(text),
                );
                &&& added_entry == entry is Some
                &&& match entry {
                    Some(e) => final(self).view() == added(old(self).view(), e),
                    None => final(self).view() == old(self).view(),
                }
            }),
    {
        match self.try_add_content(image, text) {
            Ok(added_entry) => added_entry,
            Err(_) => false,
        }
    }

    /// Removes every entry.
    pub fn clear(&mut self) -> (result: Result<(), ClipboardError>)
        ensures
            result is Ok,
            final(self).view() == Seq::<ItemData>::empty(),
    {
        self.items = Vec::new();
        assert(self.view() =~= Seq::<ItemData>::empty());
        Ok(())
    }

    /// The most recent entry, with its full image.
    pub fn first(&self) -> (item: Option<ClipboardItem>)
        ensures
            self.view().len() == 0 ==> item is None,
            self.view().len() > 0 ==> (item matches Some(found) && found.data() == self.view()[0]),
    {
        if self.items.len() == 0 {
            None
        } else {
            Some(self.items[0].duplicate(true))
        }
    }

    fn list_items(&self, load_images: bool) -> (items: Vec<ClipboardItem>)
        ensures
            items@.len() == self.view().len(),
            forall|i: int|
                0 <= i < items@.len() ==> #[trigger] items@[i].data() == (if load_images {
                    self.view()[i]
                } else {
                    display_data(self.view()[i])
                }),
    {
        let mut items: Vec<ClipboardItem> = Vec::new();
        let mut i: usize = 0;
        while i < self.items.len()
            invariant
                i <= self.items@.len(),
                items@.len() == i,
                forall|j: int|
                    0 <= j < i ==> #[trigger] items@[j].data() == (if load_images {
                        self.view()[j]
                    } else {
                        display_data(self.view()[j])
                    }),
            decreases self.items.len() - i,
        {
            items.push(self.items[i].duplicate(load_images));
            i = i + 1;
        }
        items
    }

    /// Every entry, most recent first, with full images.
    pub fn list(&self) -> (result: Result<Vec<ClipboardItem>, ClipboardError>)
        ensures
            result matches Ok(items) && items@.len() == self.view().len() && forall|i: int|
                0 <= i < items@.len() ==> #[trigger] items@[i].data() == self.view()[i],
    {
        Ok(self.list_items(true))
    }

    /// Every entry, most recent first, without full images: the picker shows
    /// previews only.
    pub fn list_for_display(&self) -> (result: Result<Vec<ClipboardItem>, ClipboardError>)
        ensures
            result matches Ok(items) && items@.len() == self.view().len() && forall|i: int|
                0 <= i < items@.len() ==> #[trigger] items@[i].data() == display_data(
                    self.view()[i],
                ),
    {
        Ok(self.list_items(false))
    }
}

proof fn lemma_index_of_hash_found(items: Seq<ItemData>, hash: Seq<char>, i: int)
    requires
        0 <= i < items.len(),
        items[i].hash == hash,
        forall|j: int| 0 <= j < i ==> #[trigger] items[j].hash != hash,
    ensures
        index_of_hash(items, hash) == Some(i),
    decreases i,
{
    if i > 0 {
        assert forall|j: int| 0 <= j < i - 1 implies #[trigger] items.drop_first()[j].hash
            != hash by {
            assert(items.drop_first()[j] == items[j + 1]);
        }
        lemma_index_of_hash_found(items.drop_first(), hash, i - 1);
    }
}

proof fn lemma_index_of_hash_absent(items: Seq<ItemData>, hash: Seq<char>)
    requires
        forall|j: int| 0 <= j < items.len() ==> #[trigger] items[j].hash != hash,
    ensures
        index_of_hash(items, hash) is None,
    decreases items.len(),
{
    if items.len() > 0 {
        assert forall|j: int| 0 <= j < items.len() - 1 implies #[trigger] items.drop_first()[j].hash
            != hash by {
            assert(items.drop_first()[j] == items[j + 1]);
        }
        lemma_index_of_hash_absent(items.drop_first(), hash);
    }
}

/// What `index_of_hash` finds: the entry at the returned position has the
/// hash, and when nothing is found no entry has it.
pub proof fn lemma_index_of_hash(items: Seq<ItemData>, hash: Seq<char>)
    ensures
        match index_of_hash(items, hash) {
            Some(i) => 0 <= i < items.len() && items[i].hash == hash && forall|j: int|
                0 <= j < i ==> #[trigger] items[j].hash != hash,
            None => forall|j: int| 0 <= j < items.len() ==> #[trigger] items[j].hash != hash,
        },
    decreases items.len(),
{
    if items.len() > 0 {
        lemma_index_of_hash(items.drop_first(), hash);
        if items[0].hash != hash {
            match index_of_hash(items.drop_first(), hash) {
                Some(i) => {
                    assert forall|j: int| 0 <= j < i + 1 implies #[trigger] items[j].hash != hash by {
                        if j > 0 {
                            assert(items[j] == items.drop_first()[j - 1]);
                        }
                    }
                },
                None => {
                    assert forall|j: int| 0 <= j < items.len() implies #[trigger] items[j].hash
                        != hash by {
                        if j > 0 {
                            assert(items[j] == items.drop_first()[j - 1]);
                        }
                    }
                },
            }
        }
    }
}

proof fn lemma_remove_keeps_distinct(items: Seq<ItemData>, i: int)
    requires
        0 <= i < items.len(),
        distinct_hashes(items),
    ensures
        distinct_hashes(items.remove(i)),
{
    let r = items.remove(i);
    assert forall|a: int, b: int|
        0 <= a < r.len() && 0 <= b < r.len() && a != b implies #[trigger] r[a].hash
        != #[trigger] r[b].hash by {
        let a0 = if a < i {
            a
        } else {
            a + 1
        };
        let b0 = if b < i {
            b
        } else {
            b + 1
        };
        assert(r[a] == items[a0]);
        assert(r[b] == items[b0]);
    }
}

proof fn lemma_move_keeps_distinct(items: Seq<ItemData>, i: int)
    requires
        0 <= i < items.len(),
        distinct_hashes(items),
    ensures
        distinct_hashes(moved_to_top(items, i)),
        moved_to_top(items, i).len() == items.len(),
{
    lemma_remove_keeps_distinct(items, i);
    let r = items.remove(i);
    let m = moved_to_top(items, i);
    assert forall|a: int, b: int|
        0 <= a < m.len() && 0 <= b < m.len() && a != b implies #[trigger] m[a].hash
        != #[trigger] m[b].hash by {
        if a == 0 || b == 0 {
            let other = if a == 0 {
                b
            } else {
                a
            };
            let o0 = if other - 1 < i {
                other - 1
            } else {
                other
            };
            assert(m[other] == r[other - 1]);
            assert(r[other - 1] == items[o0]);
            assert(o0 != i);
        } else {
            assert(m[a] == r[a - 1]);
            assert(m[b] == r[b - 1]);
        }
    }
}

proof fn lemma_add_keeps_distinct(items: Seq<ItemData>, entry: ItemData, found: Option<int>)
    requires
        distinct_hashes(items),
        found == index_of_hash(items, entry.hash),
    ensures
        ({
            let front = match found {
                Some(i) => seq![
                    ItemData {
                        text: if entry.text.len() == 0 {
                            items[i].text
                        } else {
                            entry.text
                        },
                        ..entry
                    },
                ] + items.remove(i),
                None => seq![entry] + items,
            };
            distinct_hashes(front)
        }),
{
    lemma_index_of_hash(items, entry.hash);
    match found {
        Some(i) => {
            lemma_remove_keeps_distinct(items, i);
            let r = items.remove(i);
            let head = ItemData {
                text: if entry.text.len() == 0 {
                    items[i].text
                } else {
                    entry.text
                },
                ..entry
            };
            let front = seq![head] + r;
            assert forall|a: int, b: int|
                0 <= a < front.len() && 0 <= b < front.len() && a != b implies #[trigger] front[a].hash
                != #[trigger] front[b].hash by {
                if a == 0 || b == 0 {
                    let other = if a == 0 {
                        b
                    } else {
                        a
                    };
                    let o0 = if other - 1 < i {
                        other - 1
                    } else {
                        other
                    };
                    assert(front[other] == r[other - 1]);
                    assert(r[other - 1] == items[o0]);
                    assert(o0 != i);
                    assert(items[i].hash == entry.hash);
                } else {
                    assert(front[a] == r[a - 1]);
                    assert(front[b] == r[b - 1]);
                }
            }
        },
        None => {
            let front = seq![entry] + items;
            assert forall|a: int, b: int|
                0 <= a < front.len() && 0 <= b < front.len() && a != b implies #[trigger] front[a].hash
                != #[trigger] front[b].hash by {
                if a == 0 {
                    assert(front[b] == items[b - 1]);
                } else if b == 0 {
                    assert(front[a] == items[a - 1]);
                } else {
                    assert(front[a] == items[a - 1]);
                    assert(front[b] == items[b - 1]);
                }
            }
        },
    }
}

proof fn lemma_take_keeps_distinct(items: Seq<ItemData>, n: int)
    requires
        0 <= n <= items.len(),
        distinct_hashes(items),
    ensures
        distinct_hashes(items.take(n)),
{
    let t = items.take(n);
    assert forall|a: int, b: int|
        0 <= a < t.len() && 0 <= b < t.len() && a != b implies #[trigger] t[a].hash
        != #[trigger] t[b].hash by {
        assert(t[a] == items[a]);
        assert(t[b] == items[b]);
    }
}

/// A recorded capture is the most recent entry: it is first, keeps the
/// captured hash, image and preview, and is what a lookup by its hash finds.
pub proof fn lemma_recorded_capture_is_first(items: Seq<ItemData>, entry: ItemData)
    ensures
        added(items, entry).len() >= 1,
        added(items, entry)[0].hash == entry.hash,
        added(items, entry)[0].image == entry.image,
        added(items, entry)[0].preview == entry.preview,
        entry.text.len() > 0 ==> added(items, entry)[0].text == entry.text,
        index_of_hash(added(items, entry), entry.hash) == Some(0int),
{
    let result = added(items, entry);
    assert(result[0].hash == entry.hash);
    lemma_index_of_hash_found(result, entry.hash, 0);
}

/// The history never holds two entries with one hash nor more than
/// `MAX_ITEMS` entries, whatever is recorded.
pub proof fn lemma_recording_keeps_history_valid(items: Seq<ItemData>, entry: ItemData)
    requires
        distinct_hashes(items),
        items.len() <= MAX_ITEMS,
    ensures
        distinct_hashes(added(items, entry)),
        added(items, entry).len() <= MAX_ITEMS,
{
    let found = index_of_hash(items, entry.hash);
    lemma_add_keeps_distinct(items, entry, found);
    lemma_index_of_hash(items, entry.hash);
    let front = match found {
        Some(i) => seq![
            ItemData {
                text: if entry.text.len() == 0 {
                    items[i].text
                } else {
                    entry.text
                },
                ..entry
            },
        ] + items.remove(i),
        None => seq![entry] + items,
    };
    if front.len() > MAX_ITEMS {
        lemma_take_keeps_distinct(front, MAX_ITEMS as int);
    }
}

/// Recording content that is already in the history does not grow it: the
/// existing entry moves to the front instead of being duplicated.
pub proof fn lemma_recording_a_duplicate_keeps_the_length(items: Seq<ItemData>, entry: ItemData)
    requires
        index_of_hash(items, entry.hash) is Some,
        items.len() <= MAX_ITEMS,
    ensures
        added(items, entry).len() == items.len(),
{
    lemma_index_of_hash(items, entry.hash);
}

/// Recording content already in the history moves that entry to the front
/// and leaves every other entry where it was relative to the rest: the
/// history after it is the entry followed by the old history without it.
/// New content that fits goes in front of the whole old history.
pub proof fn lemma_recording_moves_only_the_recorded_entry(items: Seq<ItemData>, entry: ItemData, i: int)
    requires
        distinct_hashes(items),
        items.len() <= MAX_ITEMS,
        0 <= i < items.len(),
        items[i].hash == entry.hash,
    ensures
        added(items, entry).len() == items.len(),
        added(items, entry)[0].hash == entry.hash,
        added(items, entry)[0].image == entry.image,
        added(items, entry)[0].preview == entry.preview,
        added(items, entry)[0].text == (if entry.text.len() == 0 {
            items[i].text
        } else {
            entry.text
        }),
        added(items, entry).drop_first() == items.remove(i),
{
    lemma_index_of_hash(items, entry.hash);
    let found = index_of_hash(items, entry.hash);
    assert(found == Some(i)) by {
        if found != Some(i) {
            let j = found->Some_0;
            assert(items[j].hash == items[i].hash);
        }
    }
    assert(added(items, entry).drop_first() =~= items.remove(i));
}

/// New content, when the history has room, goes in front of the whole old
/// history, which keeps its order.
pub proof fn lemma_recording_new_content_prepends(items: Seq<ItemData>, entry: ItemData)
    requires
        forall|j: int| 0 <= j < items.len() ==> #[trigger] items[j].hash != entry.hash,
        items.len() < MAX_ITEMS,
    ensures
        added(items, entry) == seq![entry] + items,
{
    lemma_index_of_hash(items, entry.hash);
    if index_of_hash(items, entry.hash) is Some {
        let j = index_of_hash(items, entry.hash)->Some_0;
        assert(items[j].hash != entry.hash);
    }
}

/// A full history drops its oldest entry for a new one.
pub proof fn lemma_full_history_evicts_the_oldest(items: Seq<ItemData>, entry: ItemData)
    requires
        index_of_hash(items, entry.hash) is None,
        items.len() == MAX_ITEMS,
    ensures
        added(items, entry) == seq![entry] + items.take(MAX_ITEMS - 1),
{
    assert(added(items, entry) =~= seq![entry] + items.take(MAX_ITEMS - 1));
}

/// After a deletion no entry has the deleted hash, and every other entry
/// keeps its order.
pub proof fn lemma_deleted_hash_is_gone(items: Seq<ItemData>, hash: Seq<char>)
    requires
        distinct_hashes(items),
        index_of_hash(items, hash) is Some,
    ensures
        ({
            let i = index_of_hash(items, hash)->0;
            &&& index_of_hash(items.remove(i), hash) is None
            &&& items.remove(i).len() == items.len() - 1
        }),
{
    lemma_index_of_hash(items, hash);
    let i = index_of_hash(items, hash)->0;
    let r = items.remove(i);
    assert forall|j: int| 0 <= j < r.len() implies #[trigger] r[j].hash != hash by {
        if j < i {
            assert(r[j] == items[j]);
        } else {
            assert(r[j] == items[j + 1]);
        }
    }
    lemma_index_of_hash_absent(r, hash);
}

/// Moving an entry to the top keeps the number of entries, puts that entry
/// first, and keeps the others in order behind it.
pub proof fn lemma_move_to_top_reorders_only(items: Seq<ItemData>, hash: Seq<char>)
    requires
        distinct_hashes(items),
        index_of_hash(items, hash) is Some,
    ensures
        ({
            let i = index_of_hash(items, hash)->0;
            let moved = moved_to_top(items, i);
            &&& moved.len() == items.len()
            &&& moved[0] == items[i]
            &&& index_of_hash(moved, hash) == Some(0int)
            &&& moved.drop_first() == items.remove(i)
        }),
{
    lemma_index_of_hash(items, hash);
    let i = index_of_hash(items, hash)->0;
    let moved = moved_to_top(items, i);
    lemma_index_of_hash_found(moved, hash, 0);
    assert(moved.drop_first() =~= items.remove(i));
}

/// The timestamp given to the entry at `offset` in the old sort order,
/// most recent first: `now` less the offset, stopping at the smallest
/// timestamp.
pub open spec fn migrated_timestamp(now: i64, offset: int) -> i64 {
    if now - offset >= i64::MIN {
        (now - offset) as i64
    } else {
        i64::MIN
    }
}

/// The timestamps for `count` entries taken in their old sort order, most
/// recent first: each one earlier than the one before it, until the
/// smallest timestamp is reached.
pub fn migrated_timestamps(now: i64, count: usize) -> (timestamps: Vec<i64>)
    ensures
        timestamps@.len() == count,
        forall|k: int| 0 <= k < count ==> #[trigger] timestamps@[k] == migrated_timestamp(now, k),
{
    let mut timestamps: Vec<i64> = Vec::new();
    let mut current: i64 = now;
    while timestamps.len() < count
        invariant
            timestamps@.len() <= count,
            current == migrated_timestamp(now, timestamps@.len() as int),
            forall|k: int| 0 <= k < timestamps@.len() ==> #[trigger] timestamps@[k] == migrated_timestamp(now, k),
        decreases count - timestamps@.len(),
    {
        timestamps.push(current);
        if current > i64::MIN {
            current = current - 1;
        }
    }
    timestamps
}

} // verus!
