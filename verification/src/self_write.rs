//! Recognising Klipo's own clipboard writes: every write is announced by a
//! short-lived marker carrying a signature of the written content, and the
//! next capture that shows that content consumes the marker instead of
//! storing the content again.
use std::collections::VecDeque;
use vstd::prelude::*;

use crate::clipboard::{ClipboardImage, ClipboardSnapshot, ImageData};
use crate::digest::{
    append_bytes, append_le_u32, append_le_u64, ascii_bytes, ascii_seq, le_u32, le_u64,
    md5_bytes, md5_digest,
};

verus! {

/// How long a marker waits for its write to be observed, in milliseconds.
pub const SELF_WRITE_MARKER_TTL_MS: u64 = 2000;

/// At most this many writes wait to be observed at once.
pub const MAX_SELF_WRITE_MARKERS: usize = 8;

/// The MD5 signature of the content of one clipboard write.
#[derive(Debug, Clone, Copy)]
pub struct ClipboardSignature(pub [u8; 16]);

/// A length-prefixed byte string: its length as a little-endian `u64`, then
/// its bytes.
pub open spec fn framed_bytes(bytes: Seq<u8>) -> Seq<u8> {
    le_u64(bytes.len() as u64) + bytes
}

/// An image as signed: width, height, then its framed pixels.
pub open spec fn framed_image(image: ImageData) -> Seq<u8> {
    le_u32(image.width) + le_u32(image.height) + framed_bytes(image.rgba)
}

/// The bytes whose digest is the signature of a write of `image` and/or
/// `text`: a versioned prefix, the kind of content, then the content.
pub open spec fn signature_input(image: Option<ImageData>, text: Option<Seq<char>>) -> Seq<u8> {
    let prefix = ascii_seq("klipo-self-write:v1\0"@);
    match (image, text) {
        (Some(image), Some(text)) => prefix + ascii_seq("image+text\0"@) + framed_image(image)
            + framed_bytes(vstd::utf8::encode_utf8(text)),
        (Some(image), None) => prefix + ascii_seq("image\0"@) + framed_image(image),
        (None, Some(text)) => prefix + ascii_seq("text\0"@) + framed_bytes(
            vstd::utf8::encode_utf8(text),
        ),
        (None, None) => prefix,
    }
}

/// The signature of a write of `image` and/or `text`.
pub open spec fn content_signature(image: Option<ImageData>, text: Option<Seq<char>>) -> Seq<u8> {
    md5_digest(signature_input(image, text))
}

fn append_framed(input: &mut Vec<u8>, bytes: &[u8])
    ensures
        final(input)@ == old(input)@ + framed_bytes(bytes@),
{
    append_le_u64(input, bytes.len() as u64);
    append_bytes(input, bytes);
    assert(final(input)@ =~= old(input)@ + framed_bytes(bytes@));
}

fn append_image(input: &mut Vec<u8>, image: &ClipboardImage)
    ensures
        final(input)@ == old(input)@ + framed_image(image.data()),
{
    append_le_u32(input, image.width);
    append_le_u32(input, image.height);
    append_framed(input, image.rgba.as_slice());
    assert(final(input)@ =~= old(input)@ + framed_image(image.data()));
}

pub open spec fn option_data(image: Option<&ClipboardImage>) -> Option<ImageData> {
    match image {
        Some(image) => Some(image.data()),
        None => None,
    }
}

pub open spec fn option_str(text: Option<&str>) -> Option<Seq<char>> {
    match text {
        Some(text) => Some(text@),
        None => None,
    }
}

/// The signature of a write of `image` and/or `text`; a write always holds
/// at least one of them.
pub fn signature_for_content(image: Option<&ClipboardImage>, text: Option<&str>) -> (signature:
    ClipboardSignature)
    requires
        image is Some || text is Some,
    ensures
        signature.0@ == content_signature(option_data(image), option_str(text)),
{
    let mut input = ascii_bytes("klipo-self-write:v1\0");
    match (image, text) {
        (Some(image), Some(text)) => {
            append_bytes(&mut input, ascii_bytes("image+text\0").as_slice());
            append_image(&mut input, image);
            append_framed(&mut input, text.as_bytes());
        },
        (Some(image), None) => {
            append_bytes(&mut input, ascii_bytes("image\0").as_slice());
            append_image(&mut input, image);
        },
        (None, Some(text)) => {
            append_bytes(&mut input, ascii_bytes("text\0").as_slice());
            append_framed(&mut input, text.as_bytes());
        },
        (None, None) => {},
    }
    ClipboardSignature(md5_bytes(input.as_slice()))
}

/// The signature of what a snapshot shows, or `None` for an empty snapshot.
pub fn signature_for_snapshot(snapshot: &ClipboardSnapshot) -> (signature: Option<
    ClipboardSignature,
>)
    ensures
        signature is None <==> (snapshot.image is None && snapshot.text is None),
        signature matches Some(s) ==> s.0@ == content_signature(
            snapshot.image_data(),
            snapshot.text_chars(),
        ),
{
    match (&snapshot.image, &snapshot.text) {
        (None, None) => None,
        (image, text) => {
            let text_ref = match text {
                Some(text) => Some(text.as_str()),
                None => None,
            };
            let image_ref = match image {
                Some(image) => Some(image),
                None => None,
            };
            Some(signature_for_content(image_ref, text_ref))
        },
    }
}

/// Whether two signatures are equal.
pub fn same_signature(a: &ClipboardSignature, b: &ClipboardSignature) -> (same: bool)
    ensures
        same == (a.0@ == b.0@),
{
    let mut i: usize = 0;
    while i < 16
        invariant
            i <= 16,
            forall|j: int| 0 <= j < i ==> a.0@[j] == b.0@[j],
        decreases 16 - i,
    {
        if a.0[i] != b.0[i] {
            return false;
        }
        i = i + 1;
    }
    assert(a.0@ =~= b.0@);
    true
}

/// A write waiting to be observed, as a value.
pub struct MarkerData {
    pub id: u64,
    pub signature: Seq<u8>,
    pub expires_at: u64,
}

#[derive(Debug)]
pub struct SelfWriteMarker {
    pub id: u64,
    pub signature: ClipboardSignature,
    pub expires_at: u64,
}

impl SelfWriteMarker {
    pub open spec fn data(&self) -> MarkerData {
        MarkerData { id: self.id, signature: self.signature.0@, expires_at: self.expires_at }
    }
}

/// The markers still live at `now`, in order.
pub open spec fn unexpired(markers: Seq<MarkerData>, now: u64) -> Seq<MarkerData>
    decreases markers.len(),
{
    if markers.len() == 0 {
        markers
    } else {
        let earlier = unexpired(markers.drop_last(), now);
        if markers.last().expires_at > now {
            earlier.push(markers.last())
        } else {
            earlier
        }
    }
}

/// The expiry of a marker armed or refreshed at `now`.
pub open spec fn expiry(now: u64) -> u64 {
    if now + SELF_WRITE_MARKER_TTL_MS <= u64::MAX {
        (now + SELF_WRITE_MARKER_TTL_MS) as u64
    } else {
        u64::MAX
    }
}

/// The live markers after making room for one more: the oldest are
/// dropped until fewer than the maximum remain.
pub open spec fn with_room(live: Seq<MarkerData>) -> Seq<MarkerData> {
    if live.len() >= MAX_SELF_WRITE_MARKERS {
        live.subrange(live.len() - (MAX_SELF_WRITE_MARKERS - 1), live.len() as int)
    } else {
        live
    }
}

/// The markers after arming one for `signature` at `now` with `id`.
pub open spec fn armed(markers: Seq<MarkerData>, id: u64, signature: Seq<u8>, now: u64) -> Seq<
    MarkerData,
> {
    with_room(unexpired(markers, now)).push(
        MarkerData { id, signature, expires_at: expiry(now) },
    )
}

/// The first position holding a marker with `id`, if any.
pub open spec fn first_with_id(markers: Seq<MarkerData>, id: u64) -> Option<int>
    decreases markers.len(),
{
    if markers.len() == 0 {
        None
    } else if markers[0].id == id {
        Some(0)
    } else {
        match first_with_id(markers.drop_first(), id) {
            Some(i) => Some(i + 1),
            None => None,
        }
    }
}

/// The markers after the marker `id` now stands for `signature`, live again
/// from `now`; expired markers are dropped first.
pub open spec fn refreshed(markers: Seq<MarkerData>, id: u64, signature: Seq<u8>, now: u64) -> Seq<
    MarkerData,
> {
    let live = unexpired(markers, now);
    match first_with_id(live, id) {
        Some(i) => live.update(i, MarkerData { id, signature, expires_at: expiry(now) }),
        None => live,
    }
}

/// The markers other than those with `id`.
pub open spec fn without_id(markers: Seq<MarkerData>, id: u64) -> Seq<MarkerData>
    decreases markers.len(),
{
    if markers.len() == 0 {
        markers
    } else {
        let earlier = without_id(markers.drop_last(), id);
        if markers.last().id != id {
            earlier.push(markers.last())
        } else {
            earlier
        }
    }
}

/// The last position holding a marker with `signature`, if any.
pub open spec fn last_with_signature(markers: Seq<MarkerData>, signature: Seq<u8>) -> Option<int>
    decreases markers.len(),
{
    if markers.len() == 0 {
        None
    } else if markers.last().signature == signature {
        Some(markers.len() - 1)
    } else {
        last_with_signature(markers.drop_last(), signature)
    }
}

/// Whether a capture showing `signature` at `now` is one of Klipo's own
/// writes: some live marker carries that signature.
pub open spec fn is_own_write(markers: Seq<MarkerData>, signature: Option<Seq<u8>>, now: u64) -> bool {
    match signature {
        Some(s) => last_with_signature(unexpired(markers, now), s) is Some,
        None => false,
    }
}

/// The markers after a capture showing `signature` at `now`: a recognised
/// write consumes its marker and every older one; an unrecognised capture
/// clears them all, since the clipboard no longer holds any pending write.
pub open spec fn reconciled(markers: Seq<MarkerData>, signature: Option<Seq<u8>>, now: u64) -> Seq<
    MarkerData,
> {
    let live = unexpired(markers, now);
    match signature {
        Some(s) => match last_with_signature(live, s) {
            Some(i) => live.subrange(i + 1, live.len() as int),
            None => Seq::empty(),
        },
        None => Seq::empty(),
    }
}

/// The writes waiting to be observed.
pub struct SelfWriteMarkers {
    next_id: u64,
    entries: VecDeque<SelfWriteMarker>,
}

pub open spec fn marker_seq(entries: Seq<SelfWriteMarker>) -> Seq<MarkerData> {
    entries.map_values(|m: SelfWriteMarker| m.data())
}

impl SelfWriteMarkers {
    pub closed spec fn view(&self) -> Seq<MarkerData> {
        marker_seq(self.entries@)
    }

    pub closed spec fn next_id(&self) -> u64 {
        self.next_id
    }

    /// The markers never outnumber the maximum.
    pub open spec fn wf(&self) -> bool {
        self.view().len() <= MAX_SELF_WRITE_MARKERS
    }

    pub fn new() -> (markers: Self)
        ensures
            markers.view() == Seq::<MarkerData>::empty(),
            markers.next_id() == 0,
            markers.wf(),
    {
        let markers = SelfWriteMarkers { next_id: 0, entries: VecDeque::new() };
        assert(markers.view() =~= Seq::<MarkerData>::empty());
        markers
    }

    proof fn lemma_marker_seq_push(entries: Seq<SelfWriteMarker>, m: SelfWriteMarker)
        ensures
            marker_seq(entries.push(m)) == marker_seq(entries).push(m.data()),
    {
        assert(marker_seq(entries.push(m)) =~= marker_seq(entries).push(m.data()));
    }

    /// Drops the markers that expired by `now`.
    fn drop_expired(&mut self, now: u64)
        ensures
            final(self).view() == unexpired(old(self).view(), now),
            final(self).next_id() == old(self).next_id(),
    {
        let mut old_entries: VecDeque<SelfWriteMarker> = VecDeque::new();
        std::mem::swap(&mut old_entries, &mut self.entries);
        let ghost all = marker_seq(old_entries@);
        let mut reversed: VecDeque<SelfWriteMarker> = VecDeque::new();
        while old_entries.len() > 0
            invariant
                all == marker_seq(old_entries@) + marker_seq(reversed@).reverse(),
            decreases old_entries.len(),
        {
            let m = old_entries.pop_back().unwrap();
            proof {
                Self::lemma_marker_seq_push(old_entries@, m);
                Self::lemma_marker_seq_push(reversed@, m);
                assert(marker_seq(reversed@.push(m)).reverse() =~= seq![m.data()] + marker_seq(
                    reversed@,
                ).reverse());
            }
            reversed.push_back(m);
            proof {
                assert(all =~= marker_seq(old_entries@) + marker_seq(reversed@).reverse());
            }
        }
        let ghost total = reversed@.len();
        assert(marker_seq(reversed@).reverse() =~= all);
        while reversed.len() > 0
            invariant
                total == all.len(),
                reversed@.len() <= total,
                forall|i: int| 0 <= i < reversed@.len() ==> #[trigger] reversed@[i].data() == all[total - 1 - i],
                marker_seq(self.entries@) == unexpired(all.subrange(0, total - reversed@.len()), now),
                self.next_id == old(self).next_id(),
            decreases reversed.len(),
        {
            let ghost taken = total - reversed@.len();
            let m = reversed.pop_back().unwrap();
            proof {
                assert(m.data() == all[taken]);
                assert(all.subrange(0, taken + 1).drop_last() =~= all.subrange(0, taken));
            }
            if m.expires_at > now {
                proof {
                    Self::lemma_marker_seq_push(self.entries@, m);
                }
                self.entries.push_back(m);
            }
        }
        assert(all.subrange(0, total as int) =~= all);
    }

    /// Announces a write of content with `signature` at `now`, and returns the
    /// id of its marker. Expired markers are dropped, then the oldest ones
    /// until the new marker fits.
    pub fn arm(&mut self, signature: ClipboardSignature, now: u64) -> (id: u64)
        ensures
            id == (if old(self).next_id() == u64::MAX {
                0
            } else {
                (old(self).next_id() + 1) as u64
            }),
            final(self).next_id() == id,
            final(self).view() == armed(old(self).view(), id, signature.0@, now),
            final(self).wf(),
    {
        self.drop_expired(now);
        let ghost live = self.view();
        if self.entries.len() >= MAX_SELF_WRITE_MARKERS {
            let excess = self.entries.len() - (MAX_SELF_WRITE_MARKERS - 1);
            let mut entries: VecDeque<SelfWriteMarker> = VecDeque::new();
            std::mem::swap(&mut entries, &mut self.entries);
            let tail = entries.split_off(excess);
            proof {
                assert(marker_seq(tail@) =~= live.subrange(excess as int, live.len() as int));
            }
            self.entries = tail;
        }
        assert(self.view() == with_room(live));
        self.next_id = self.next_id.wrapping_add(1);
        let id = self.next_id;
        let expires_at = now.saturating_add(SELF_WRITE_MARKER_TTL_MS);
        let marker = SelfWriteMarker { id, signature, expires_at };
        proof {
            Self::lemma_marker_seq_push(self.entries@, marker);
        }
        self.entries.push_back(marker);
        id
    }

    /// The marker `id` now stands for `signature` and is live again from
    /// `now`; expired markers are dropped first. An unknown id changes
    /// nothing else.
    pub fn refresh(&mut self, id: u64, signature: ClipboardSignature, now: u64)
        requires
            old(self).wf(),
        ensures
            final(self).view() == refreshed(old(self).view(), id, signature.0@, now),
            final(self).next_id() == old(self).next_id(),
            final(self).wf(),
    {
        self.drop_expired(now);
        proof {
            lemma_unexpired_len(old(self).view(), now);
        }
        let ghost live = self.view();
        let mut i: usize = 0;
        while i < self.entries.len()
            invariant
                i <= self.entries@.len(),
                self.view() == live,
                live == unexpired(old(self).view(), now),
                live.len() <= MAX_SELF_WRITE_MARKERS,
                self.next_id == old(self).next_id(),
                forall|j: int| 0 <= j < i ==> #[trigger] live[j].id != id,
            decreases self.entries.len() - i,
        {
            if self.entries[i].id == id {
                proof {
                    lemma_first_with_id(live, id, i as int);
                }
                let marker = SelfWriteMarker {
                    id,
                    signature,
                    expires_at: now.saturating_add(SELF_WRITE_MARKER_TTL_MS),
                };
                let ghost before = self.entries@;
                let _replaced = self.entries.remove(i);
                self.entries.insert(i, marker);
                assert(self.entries@ =~= before.update(i as int, marker));
                proof {
                    assert(marker_seq(self.entries@) =~= marker_seq(before).update(
                        i as int,
                        marker.data(),
                    ));
                    assert(self.view().len() == live.len());
                }
                return;
            }
            i = i + 1;
        }
        proof {
            lemma_no_id(live, id);
        }
    }

    /// Forgets the marker `id`.
    pub fn clear(&mut self, id: u64)
        requires
            old(self).wf(),
        ensures
            final(self).view() == without_id(old(self).view(), id),
            final(self).next_id() == old(self).next_id(),
            final(self).wf(),
    {
        let mut old_entries: VecDeque<SelfWriteMarker> = VecDeque::new();
        std::mem::swap(&mut old_entries, &mut self.entries);
        let ghost all = marker_seq(old_entries@);
        let mut reversed: VecDeque<SelfWriteMarker> = VecDeque::new();
        while old_entries.len() > 0
            invariant
                all == marker_seq(old_entries@) + marker_seq(reversed@).reverse(),
            decreases old_entries.len(),
        {
            let m = old_entries.pop_back().unwrap();
            proof {
                Self::lemma_marker_seq_push(old_entries@, m);
                Self::lemma_marker_seq_push(reversed@, m);
                assert(marker_seq(reversed@.push(m)).reverse() =~= seq![m.data()] + marker_seq(
                    reversed@,
                ).reverse());
            }
            reversed.push_back(m);
            proof {
                assert(all =~= marker_seq(old_entries@) + marker_seq(reversed@).reverse());
            }
        }
        let ghost total = reversed@.len();
        assert(marker_seq(reversed@).reverse() =~= all);
        while reversed.len() > 0
            invariant
                total == all.len(),
                reversed@.len() <= total,
                forall|i: int| 0 <= i < reversed@.len() ==> #[trigger] reversed@[i].data() == all[total - 1 - i],
                marker_seq(self.entries@) == without_id(all.subrange(0, total - reversed@.len()), id),
                self.next_id == old(self).next_id(),
            decreases reversed.len(),
        {
            let ghost taken = total - reversed@.len();
            let m = reversed.pop_back().unwrap();
            proof {
                assert(m.data() == all[taken]);
                assert(all.subrange(0, taken + 1).drop_last() =~= all.subrange(0, taken));
            }
            if m.id != id {
                proof {
                    Self::lemma_marker_seq_push(self.entries@, m);
                }
                self.entries.push_back(m);
            }
        }
        assert(all.subrange(0, total as int) =~= all);
        proof {
            lemma_without_id_len(all, id);
        }
    }

    /// Decides whether a capture showing `signature` at `now` is one of
    /// Klipo's own writes, and consumes the markers it settles.
    pub fn reconcile(&mut self, signature: Option<ClipboardSignature>, now: u64) -> (own_write: bool)
        requires
            old(self).wf(),
        ensures
            own_write == is_own_write(
                old(self).view(),
                match signature {
                    Some(s) => Some(s.0@),
                    None => None,
                },
                now,
            ),
            final(self).view() == reconciled(
                old(self).view(),
                match signature {
                    Some(s) => Some(s.0@),
                    None => None,
                },
                now,
            ),
            final(self).next_id() == old(self).next_id(),
            final(self).wf(),
    {
        self.drop_expired(now);
        proof {
            lemma_unexpired_len(old(self).view(), now);
        }
        let ghost live = self.view();
        let sig = match signature {
            Some(sig) => sig,
            None => {
                self.entries = VecDeque::new();
                assert(self.view() =~= Seq::<MarkerData>::empty());
                return false;
            },
        };
        let mut i: usize = self.entries.len();
        assert(live.subrange(0, i as int) =~= live);
        while i > 0
            invariant
                i <= self.entries@.len(),
                self.view() == live,
                live == unexpired(old(self).view(), now),
                live.len() <= MAX_SELF_WRITE_MARKERS,
                signature == Some(sig),
                self.next_id == old(self).next_id(),
                last_with_signature(live, sig.0@) == last_with_signature(
                    live.subrange(0, i as int),
                    sig.0@,
                ),
            decreases i,
        {
            let index = i - 1;
            if same_signature(&self.entries[index].signature, &sig) {
                proof {
                    assert(live.subrange(0, i as int).last() == live[index as int]);
                    assert(live[index as int].signature == sig.0@);
                    assert(last_with_signature(live.subrange(0, i as int), sig.0@) == Some(
                        index as int,
                    ));
                }
                let tail = self.entries.split_off(i);
                proof {
                    assert(marker_seq(tail@) =~= live.subrange(i as int, live.len() as int));
                }
                self.entries = tail;
                return true;
            }
            proof {
                assert(live.subrange(0, i as int).drop_last() =~= live.subrange(0, index as int));
            }
            i = index;
        }
        self.entries = VecDeque::new();
        assert(self.view() =~= Seq::<MarkerData>::empty());
        false
    }

    /// Forgets every pending write.
    pub fn shutdown(&mut self)
        ensures
            final(self).view() == Seq::<MarkerData>::empty(),
            final(self).next_id() == old(self).next_id(),
            final(self).wf(),
    {
        self.entries = VecDeque::new();
        assert(self.view() =~= Seq::<MarkerData>::empty());
    }

    /// The number of pending writes.
    pub fn len(&self) -> (count: usize)
        ensures
            count == self.view().len(),
    {
        self.entries.len()
    }
}

proof fn lemma_unexpired_len(markers: Seq<MarkerData>, now: u64)
    ensures
        unexpired(markers, now).len() <= markers.len(),
    decreases markers.len(),
{
    if markers.len() > 0 {
        lemma_unexpired_len(markers.drop_last(), now);
    }
}

proof fn lemma_without_id_len(markers: Seq<MarkerData>, id: u64)
    ensures
        without_id(markers, id).len() <= markers.len(),
    decreases markers.len(),
{
    if markers.len() > 0 {
        lemma_without_id_len(markers.drop_last(), id);
    }
}

proof fn lemma_first_with_id(markers: Seq<MarkerData>, id: u64, i: int)
    requires
        0 <= i < markers.len(),
        markers[i].id == id,
        forall|j: int| 0 <= j < i ==> #[trigger] markers[j].id != id,
    ensures
        first_with_id(markers, id) == Some(i),
    decreases i,
{
    if i > 0 {
        assert forall|j: int| 0 <= j < i - 1 implies #[trigger] markers.drop_first()[j].id != id by {
            assert(markers.drop_first()[j] == markers[j + 1]);
        }
        lemma_first_with_id(markers.drop_first(), id, i - 1);
    }
}

proof fn lemma_no_id(markers: Seq<MarkerData>, id: u64)
    requires
        forall|j: int| 0 <= j < markers.len() ==> #[trigger] markers[j].id != id,
    ensures
        first_with_id(markers, id) is None,
    decreases markers.len(),
{
    if markers.len() > 0 {
        assert forall|j: int| 0 <= j < markers.len() - 1 implies #[trigger] markers.drop_first()[j].id != id by {
            assert(markers.drop_first()[j] == markers[j + 1]);
        }
        lemma_no_id(markers.drop_first(), id);
    }
}

/// No marker carries `signature`.
pub open spec fn lacks_signature(markers: Seq<MarkerData>, signature: Seq<u8>) -> bool {
    forall|j: int| 0 <= j < markers.len() ==> #[trigger] markers[j].signature != signature
}

proof fn lemma_last_with_signature(markers: Seq<MarkerData>, signature: Seq<u8>)
    ensures
        match last_with_signature(markers, signature) {
            Some(i) => 0 <= i < markers.len() && markers[i].signature == signature
                && lacks_signature(markers.subrange(i + 1, markers.len() as int), signature),
            None => lacks_signature(markers, signature),
        },
    decreases markers.len(),
{
    if markers.len() > 0 {
        let rest = markers.drop_last();
        lemma_last_with_signature(rest, signature);
        if markers.last().signature != signature {
            match last_with_signature(rest, signature) {
                Some(i) => {
                    let tail = markers.subrange(i + 1, markers.len() as int);
                    assert forall|j: int| 0 <= j < tail.len() implies #[trigger] tail[j].signature
                        != signature by {
                        if j < tail.len() - 1 {
                            assert(tail[j] == rest.subrange(i + 1, rest.len() as int)[j]);
                        }
                    }
                },
                None => {
                    assert forall|j: int| 0 <= j < markers.len() implies #[trigger] markers[j].signature
                        != signature by {
                        if j < markers.len() - 1 {
                            assert(markers[j] == rest[j]);
                        }
                    }
                },
            }
        }
    }
}

proof fn lemma_lacking_signature_is_not_found(markers: Seq<MarkerData>, signature: Seq<u8>)
    requires
        lacks_signature(markers, signature),
    ensures
        last_with_signature(markers, signature) is None,
    decreases markers.len(),
{
    if markers.len() > 0 {
        assert(markers.last() == markers[markers.len() - 1]);
        assert forall|j: int| 0 <= j < markers.drop_last().len() implies #[trigger] markers.drop_last()[j].signature
            != signature by {
            assert(markers.drop_last()[j] == markers[j]);
        }
        lemma_lacking_signature_is_not_found(markers.drop_last(), signature);
    }
}

proof fn lemma_unexpired_lacks_signature(markers: Seq<MarkerData>, signature: Seq<u8>, now: u64)
    requires
        lacks_signature(markers, signature),
    ensures
        lacks_signature(unexpired(markers, now), signature),
    decreases markers.len(),
{
    if markers.len() > 0 {
        assert(markers.last() == markers[markers.len() - 1]);
        assert forall|j: int| 0 <= j < markers.drop_last().len() implies #[trigger] markers.drop_last()[j].signature
            != signature by {
            assert(markers.drop_last()[j] == markers[j]);
        }
        lemma_unexpired_lacks_signature(markers.drop_last(), signature, now);
    }
}

proof fn lemma_all_expired(markers: Seq<MarkerData>, now: u64)
    requires
        forall|j: int| 0 <= j < markers.len() ==> #[trigger] markers[j].expires_at <= now,
    ensures
        unexpired(markers, now).len() == 0,
    decreases markers.len(),
{
    if markers.len() > 0 {
        assert(markers.last() == markers[markers.len() - 1]);
        assert forall|j: int| 0 <= j < markers.drop_last().len() implies #[trigger] markers.drop_last()[j].expires_at
            <= now by {
            assert(markers.drop_last()[j] == markers[j]);
        }
        lemma_all_expired(markers.drop_last(), now);
    }
}

/// A write that Klipo armed at `now` is recognised as its own by any
/// capture that shows the same signature before the marker expires.
pub proof fn lemma_armed_write_is_recognised(
    markers: Seq<MarkerData>,
    id: u64,
    signature: Seq<u8>,
    now: u64,
    later: u64,
)
    requires
        later < expiry(now),
    ensures
        is_own_write(armed(markers, id, signature, now), Some(signature), later),
{
    let marked = armed(markers, id, signature, now);
    assert(marked.drop_last() == with_room(unexpired(markers, now)));
    let live = unexpired(marked, later);
    assert(live == unexpired(marked.drop_last(), later).push(marked.last()));
    assert(live.last().signature == signature);
}

/// Recognising a write consumes its marker: a later capture with the same
/// signature is the user's copy and is stored.
pub proof fn lemma_recognised_write_is_consumed(
    markers: Seq<MarkerData>,
    signature: Seq<u8>,
    now: u64,
    later: u64,
)
    ensures
        !is_own_write(reconciled(markers, Some(signature), now), Some(signature), later),
{
    let live = unexpired(markers, now);
    lemma_last_with_signature(live, signature);
    let rest = reconciled(markers, Some(signature), now);
    match last_with_signature(live, signature) {
        Some(i) => {
            assert(rest == live.subrange(i + 1, live.len() as int));
        },
        None => {
            assert(rest.len() == 0);
        },
    }
    assert(lacks_signature(rest, signature));
    lemma_unexpired_lacks_signature(rest, signature, later);
    lemma_lacking_signature_is_not_found(unexpired(rest, later), signature);
}

/// Expired markers suppress nothing.
pub proof fn lemma_expired_markers_suppress_nothing(
    markers: Seq<MarkerData>,
    signature: Option<Seq<u8>>,
    now: u64,
)
    requires
        forall|j: int| 0 <= j < markers.len() ==> #[trigger] markers[j].expires_at <= now,
    ensures
        !is_own_write(markers, signature, now),
{
    lemma_all_expired(markers, now);
}

/// A capture that is not one of Klipo's writes clears every pending marker,
/// since the clipboard no longer holds any of them.
pub proof fn lemma_foreign_capture_clears_markers(
    markers: Seq<MarkerData>,
    signature: Option<Seq<u8>>,
    now: u64,
)
    requires
        !is_own_write(markers, signature, now),
    ensures
        reconciled(markers, signature, now).len() == 0,
{
}

/// At most `MAX_SELF_WRITE_MARKERS` writes wait to be observed.
pub proof fn lemma_pending_writes_are_bounded(
    markers: Seq<MarkerData>,
    id: u64,
    signature: Seq<u8>,
    now: u64,
)
    ensures
        armed(markers, id, signature, now).len() <= MAX_SELF_WRITE_MARKERS,
{
}

/// The id the next marker gets after `id`; ids wrap around.
pub open spec fn following_id(id: u64) -> u64 {
    if id == u64::MAX {
        0
    } else {
        (id + 1) as u64
    }
}

/// The pending writes after one write of content with `signature` under the
/// marker `id`: armed at `armed_at`, then, when the write verified, made live
/// again at `verified_at`, and otherwise dropped.
pub open spec fn settled_write(
    markers: Seq<MarkerData>,
    id: u64,
    signature: Seq<u8>,
    verified: bool,
    armed_at: u64,
    verified_at: u64,
) -> Seq<MarkerData> {
    let marked = armed(markers, id, signature, armed_at);
    if verified {
        refreshed(marked, id, signature, verified_at)
    } else {
        without_id(marked, id)
    }
}

/// The pending writes after a write of an image with its text: the marker
/// is armed for both; when that does not verify it is moved to the text
/// alone, which is written next and settles the marker.
pub open spec fn settled_mixed_write(
    markers: Seq<MarkerData>,
    id: u64,
    mixed_signature: Seq<u8>,
    text_signature: Seq<u8>,
    mixed_verified: bool,
    text_verified: bool,
    armed_at: u64,
    moved_at: u64,
    verified_at: u64,
) -> Seq<MarkerData> {
    let marked = armed(markers, id, mixed_signature, armed_at);
    if mixed_verified {
        refreshed(marked, id, mixed_signature, moved_at)
    } else {
        let moved = refreshed(marked, id, text_signature, moved_at);
        if text_verified {
            refreshed(moved, id, text_signature, verified_at)
        } else {
            without_id(moved, id)
        }
    }
}

/// No marker carries `id`.
pub open spec fn lacks_id(markers: Seq<MarkerData>, id: u64) -> bool {
    forall|j: int| 0 <= j < markers.len() ==> #[trigger] markers[j].id != id
}

proof fn lemma_unexpired_lacks_id(markers: Seq<MarkerData>, id: u64, now: u64)
    requires
        lacks_id(markers, id),
    ensures
        lacks_id(unexpired(markers, now), id),
    decreases markers.len(),
{
    if markers.len() > 0 {
        assert(markers.last() == markers[markers.len() - 1]);
        assert forall|j: int| 0 <= j < markers.drop_last().len() implies #[trigger] markers.drop_last()[j].id
            != id by {
            assert(markers.drop_last()[j] == markers[j]);
        }
        lemma_unexpired_lacks_id(markers.drop_last(), id, now);
    }
}

/// A marker that is last, live at `now`, and alone with its id is the one
/// that a refresh at `now` updates; it stays last.
proof fn lemma_refresh_last(markers: Seq<MarkerData>, id: u64, signature: Seq<u8>, now: u64)
    requires
        markers.len() > 0,
        markers.last().id == id,
        markers.last().expires_at > now,
        lacks_id(markers.drop_last(), id),
    ensures
        refreshed(markers, id, signature, now).len() > 0,
        refreshed(markers, id, signature, now).last() == (MarkerData {
            id,
            signature,
            expires_at: expiry(now),
        }),
        lacks_id(refreshed(markers, id, signature, now).drop_last(), id),
{
    let live = unexpired(markers, now);
    let earlier = unexpired(markers.drop_last(), now);
    assert(live == earlier.push(markers.last()));
    lemma_unexpired_lacks_id(markers.drop_last(), id, now);
    assert forall|j: int| 0 <= j < live.len() - 1 implies #[trigger] live[j].id != id by {
        assert(live[j] == earlier[j]);
    }
    lemma_first_with_id(live, id, live.len() - 1);
    let result = refreshed(markers, id, signature, now);
    assert(result.drop_last() =~= earlier);
}

/// The markers just after arming `id` end with that marker, alone with its
/// id when no earlier marker had it.
proof fn lemma_armed_last(markers: Seq<MarkerData>, id: u64, signature: Seq<u8>, now: u64)
    requires
        lacks_id(markers, id),
    ensures
        armed(markers, id, signature, now).len() > 0,
        armed(markers, id, signature, now).last() == (MarkerData {
            id,
            signature,
            expires_at: expiry(now),
        }),
        lacks_id(armed(markers, id, signature, now).drop_last(), id),
{
    lemma_unexpired_lacks_id(markers, id, now);
    let live = unexpired(markers, now);
    let room = with_room(live);
    assert forall|j: int| 0 <= j < room.len() implies #[trigger] room[j].id != id by {
        if live.len() >= MAX_SELF_WRITE_MARKERS {
            assert(room[j] == live[j + live.len() - (MAX_SELF_WRITE_MARKERS - 1)]);
        }
    }
    assert(armed(markers, id, signature, now).drop_last() =~= room);
}

/// A capture before `expiry(refreshed_at)` that shows the signature of the
/// last marker is recognised.
proof fn lemma_last_marker_recognised(markers: Seq<MarkerData>, signature: Seq<u8>, later: u64)
    requires
        markers.len() > 0,
        markers.last().signature == signature,
        markers.last().expires_at > later,
    ensures
        is_own_write(markers, Some(signature), later),
{
    let live = unexpired(markers, later);
    assert(live == unexpired(markers.drop_last(), later).push(markers.last()));
}

/// Klipo's verified write is not captured again: a capture that shows the
/// written content before the marker expires is recognised as Klipo's own.
/// This needs the marker to have been armed under an id no pending marker
/// carried, and to have still been live when the write verified.
pub proof fn lemma_verified_write_is_recognised(
    markers: Seq<MarkerData>,
    id: u64,
    signature: Seq<u8>,
    armed_at: u64,
    verified_at: u64,
    later: u64,
)
    requires
        lacks_id(markers, id),
        verified_at < expiry(armed_at),
        later < expiry(verified_at),
    ensures
        is_own_write(
            settled_write(markers, id, signature, true, armed_at, verified_at),
            Some(signature),
            later,
        ),
{
    lemma_armed_last(markers, id, signature, armed_at);
    lemma_refresh_last(armed(markers, id, signature, armed_at), id, signature, verified_at);
    lemma_last_marker_recognised(
        settled_write(markers, id, signature, true, armed_at, verified_at),
        signature,
        later,
    );
}

/// The same for an image written with its text: a capture of both is
/// recognised when the mixed write verified, and a capture of the text
/// alone when Klipo fell back to writing the text.
pub proof fn lemma_verified_mixed_write_is_recognised(
    markers: Seq<MarkerData>,
    id: u64,
    mixed_signature: Seq<u8>,
    text_signature: Seq<u8>,
    mixed_verified: bool,
    armed_at: u64,
    moved_at: u64,
    verified_at: u64,
    later: u64,
)
    requires
        lacks_id(markers, id),
        moved_at < expiry(armed_at),
        mixed_verified ==> later < expiry(moved_at),
        !mixed_verified ==> verified_at < expiry(moved_at) && later < expiry(verified_at),
    ensures
        is_own_write(
            settled_mixed_write(
                markers,
                id,
                mixed_signature,
                text_signature,
                mixed_verified,
                true,
                armed_at,
                moved_at,
                verified_at,
            ),
            Some(if mixed_verified {
                mixed_signature
            } else {
                text_signature
            }),
            later,
        ),
{
    lemma_armed_last(markers, id, mixed_signature, armed_at);
    let marked = armed(markers, id, mixed_signature, armed_at);
    let settled = settled_mixed_write(
        markers,
        id,
        mixed_signature,
        text_signature,
        mixed_verified,
        true,
        armed_at,
        moved_at,
        verified_at,
    );
    if mixed_verified {
        lemma_refresh_last(marked, id, mixed_signature, moved_at);
        lemma_last_marker_recognised(settled, mixed_signature, later);
    } else {
        lemma_refresh_last(marked, id, text_signature, moved_at);
        let moved = refreshed(marked, id, text_signature, moved_at);
        lemma_refresh_last(moved, id, text_signature, verified_at);
        lemma_last_marker_recognised(settled, text_signature, later);
    }
}

/// After a verified write, its marker is the newest pending one, live until
/// the expiry of the time the write verified; none of the pending markers
/// outnumbers the maximum.
pub proof fn lemma_verified_write_marker_is_newest(
    markers: Seq<MarkerData>,
    id: u64,
    signature: Seq<u8>,
    armed_at: u64,
    verified_at: u64,
)
    requires
        lacks_id(markers, id),
        verified_at < expiry(armed_at),
    ensures
        settled_write(markers, id, signature, true, armed_at, verified_at).len() > 0,
        settled_write(markers, id, signature, true, armed_at, verified_at).last() == (MarkerData {
            id,
            signature,
            expires_at: expiry(verified_at),
        }),
        settled_write(markers, id, signature, true, armed_at, verified_at).len()
            <= MAX_SELF_WRITE_MARKERS,
{
    lemma_armed_last(markers, id, signature, armed_at);
    let marked = armed(markers, id, signature, armed_at);
    lemma_refresh_last(marked, id, signature, verified_at);
    lemma_unexpired_len(marked, verified_at);
    lemma_pending_writes_are_bounded(markers, id, signature, armed_at);
    lemma_first_with_id_in_range(unexpired(marked, verified_at), id);
}

proof fn lemma_first_with_id_in_range(markers: Seq<MarkerData>, id: u64)
    ensures
        first_with_id(markers, id) matches Some(i) ==> 0 <= i < markers.len(),
    decreases markers.len(),
{
    if markers.len() > 0 {
        lemma_first_with_id_in_range(markers.drop_first(), id);
    }
}

/// Every marker has expired by `now`.
pub open spec fn all_expired_by(markers: Seq<MarkerData>, now: u64) -> bool {
    forall|j: int| 0 <= j < markers.len() ==> #[trigger] markers[j].expires_at <= now
}

proof fn lemma_unexpired_keeps_expired_by(markers: Seq<MarkerData>, at: u64, now: u64)
    requires
        all_expired_by(markers, now),
    ensures
        all_expired_by(unexpired(markers, at), now),
    decreases markers.len(),
{
    if markers.len() > 0 {
        assert(markers.last() == markers[markers.len() - 1]);
        assert forall|j: int| 0 <= j < markers.drop_last().len() implies #[trigger] markers.drop_last()[j].expires_at
            <= now by {
            assert(markers.drop_last()[j] == markers[j]);
        }
        lemma_unexpired_keeps_expired_by(markers.drop_last(), at, now);
    }
}

proof fn lemma_without_id_keeps_expired_by(markers: Seq<MarkerData>, id: u64, now: u64)
    requires
        all_expired_by(markers, now),
    ensures
        all_expired_by(without_id(markers, id), now),
    decreases markers.len(),
{
    if markers.len() > 0 {
        assert(markers.last() == markers[markers.len() - 1]);
        assert forall|j: int| 0 <= j < markers.drop_last().len() implies #[trigger] markers.drop_last()[j].expires_at
            <= now by {
            assert(markers.drop_last()[j] == markers[j]);
        }
        lemma_without_id_keeps_expired_by(markers.drop_last(), id, now);
    }
}

proof fn lemma_armed_expired_by(markers: Seq<MarkerData>, id: u64, signature: Seq<u8>, armed_at: u64, now: u64)
    requires
        all_expired_by(markers, now),
        expiry(armed_at) <= now,
    ensures
        all_expired_by(armed(markers, id, signature, armed_at), now),
{
    lemma_unexpired_keeps_expired_by(markers, armed_at, now);
    let live = unexpired(markers, armed_at);
    let room = with_room(live);
    assert forall|j: int| 0 <= j < room.len() implies #[trigger] room[j].expires_at <= now by {
        if live.len() >= MAX_SELF_WRITE_MARKERS {
            assert(room[j] == live[j + live.len() - (MAX_SELF_WRITE_MARKERS - 1)]);
        }
    }
    let marked = armed(markers, id, signature, armed_at);
    assert forall|j: int| 0 <= j < marked.len() implies #[trigger] marked[j].expires_at <= now by {
        if j < room.len() {
            assert(marked[j] == room[j]);
        }
    }
}

proof fn lemma_refreshed_expired_by(markers: Seq<MarkerData>, id: u64, signature: Seq<u8>, at: u64, now: u64)
    requires
        all_expired_by(markers, now),
        expiry(at) <= now,
    ensures
        all_expired_by(refreshed(markers, id, signature, at), now),
{
    lemma_unexpired_keeps_expired_by(markers, at, now);
    lemma_first_with_id_in_range(unexpired(markers, at), id);
}

/// A write expires: when every marker pending before it has expired by
/// `now`, and `now` is at least one marker lifetime after every time the
/// write was marked at, no capture at `now` is taken for Klipo's own.
pub proof fn lemma_write_markers_expire(
    markers: Seq<MarkerData>,
    id: u64,
    signature: Seq<u8>,
    verified: bool,
    armed_at: u64,
    verified_at: u64,
    captured: Option<Seq<u8>>,
    now: u64,
)
    requires
        all_expired_by(markers, now),
        expiry(armed_at) <= now,
        verified ==> expiry(verified_at) <= now,
    ensures
        !is_own_write(settled_write(markers, id, signature, verified, armed_at, verified_at), captured, now),
{
    lemma_armed_expired_by(markers, id, signature, armed_at, now);
    let marked = armed(markers, id, signature, armed_at);
    if verified {
        lemma_refreshed_expired_by(marked, id, signature, verified_at, now);
    } else {
        lemma_without_id_keeps_expired_by(marked, id, now);
    }
    let settled = settled_write(markers, id, signature, verified, armed_at, verified_at);
    lemma_expired_markers_suppress_nothing(settled, captured, now);
}

proof fn lemma_unexpired_all_live(markers: Seq<MarkerData>, now: u64)
    requires
        forall|j: int| 0 <= j < markers.len() ==> #[trigger] markers[j].expires_at > now,
    ensures
        unexpired(markers, now) == markers,
    decreases markers.len(),
{
    if markers.len() > 0 {
        assert(markers.last() == markers[markers.len() - 1]);
        assert forall|j: int| 0 <= j < markers.drop_last().len() implies #[trigger] markers.drop_last()[j].expires_at
            > now by {
            assert(markers.drop_last()[j] == markers[j]);
        }
        lemma_unexpired_all_live(markers.drop_last(), now);
        assert(markers.drop_last().push(markers.last()) =~= markers);
    }
}

/// Arming a marker keeps at most `MAX_SELF_WRITE_MARKERS`: one more than
/// the live markers, or exactly the maximum when they already filled it.
pub proof fn lemma_armed_count(markers: Seq<MarkerData>, id: u64, signature: Seq<u8>, now: u64)
    ensures
        armed(markers, id, signature, now).len() == if unexpired(markers, now).len()
            >= MAX_SELF_WRITE_MARKERS {
            MAX_SELF_WRITE_MARKERS as int
        } else {
            unexpired(markers, now).len() + 1 as int
        },
{
}

/// A verified write while every pending marker is still live adds one
/// marker, or keeps exactly `MAX_SELF_WRITE_MARKERS` when they were full:
/// so after nine such writes exactly eight markers wait.
pub proof fn lemma_verified_write_count(
    markers: Seq<MarkerData>,
    id: u64,
    signature: Seq<u8>,
    armed_at: u64,
    verified_at: u64,
)
    requires
        lacks_id(markers, id),
        armed_at <= verified_at,
        verified_at < expiry(armed_at),
        forall|j: int| 0 <= j < markers.len() ==> #[trigger] markers[j].expires_at > verified_at,
    ensures
        settled_write(markers, id, signature, true, armed_at, verified_at).len() == if markers.len()
            >= MAX_SELF_WRITE_MARKERS {
            MAX_SELF_WRITE_MARKERS as int
        } else {
            markers.len() + 1 as int
        },
{
    assert forall|j: int| 0 <= j < markers.len() implies #[trigger] markers[j].expires_at > armed_at by {
        assert(markers[j].expires_at > verified_at);
    }
    lemma_unexpired_all_live(markers, armed_at);
    let marked = armed(markers, id, signature, armed_at);
    let room = with_room(markers);
    assert forall|j: int| 0 <= j < marked.len() implies #[trigger] marked[j].expires_at > verified_at by {
        if j < room.len() {
            assert(marked[j] == room[j]);
            if markers.len() >= MAX_SELF_WRITE_MARKERS {
                assert(room[j] == markers[j + markers.len() - (MAX_SELF_WRITE_MARKERS - 1)]);
            } else {
                assert(room[j] == markers[j]);
            }
        } else {
            assert(marked[j].expires_at == expiry(armed_at));
        }
    }
    lemma_unexpired_all_live(marked, verified_at);
    lemma_first_with_id_in_range(marked, id);
}

} // verus!
