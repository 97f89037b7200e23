//! Reading and writing the system clipboard through a backend, and telling
//! Klipo's own writes apart from the user's copies.
use vstd::prelude::*;

use crate::clipboard::{
    image_is_encodable, rgba_buffer_fits, snapshot_from_contents, snapshot_image, snapshot_text,
    ClipboardContent,
    ClipboardImage, ClipboardItem, ClipboardSnapshot, SystemClipboardError,
};
use crate::self_write::{
    content_signature, following_id, is_own_write, reconciled, settled_mixed_write, MAX_SELF_WRITE_MARKERS,
    expiry, lacks_id, lemma_verified_write_is_recognised, lemma_verified_mixed_write_is_recognised,
    SELF_WRITE_MARKER_TTL_MS, all_expired_by, lemma_write_markers_expire,
    settled_write, signature_for_content, signature_for_snapshot, ClipboardSignature, MarkerData,
    SelfWriteMarkers,
};
use crate::storage::{added, new_entry, ClipboardError, ClipboardStore};

verus! {

/// A representation the clipboard can be asked for.
#[derive(Debug, Clone, Copy, PartialEq, Eq, Structural)]
pub enum ContentFormat {
    Image,
    Text,
}

/// One representation handed to the clipboard in a write.
#[derive(Debug)]
pub enum WriteContent {
    Image(ClipboardImage),
    Text(String),
}

/// The system clipboard as the platform offers it. Implementations perform
/// the native calls; nothing is assumed of what they return.
pub trait ClipboardBackend {
    fn get(&self, formats: &[ContentFormat]) -> Result<Vec<ClipboardContent>, SystemClipboardError>;

    fn has(&self, format: ContentFormat) -> bool;

    fn set(&self, contents: Vec<WriteContent>) -> Result<(), SystemClipboardError>;
}

/// A monotonic clock, in milliseconds.
pub trait ClipboardClock {
    fn now(&self) -> u64;
}

/// The presence checks after a successful write: each required
/// representation was asked for, and `image_found` and `text_found` are
/// what the backend answered.
pub open spec fn presence_checked<B: ClipboardBackend>(
    backend: &B,
    requires_image: bool,
    requires_text: bool,
    image_found: bool,
    text_found: bool,
) -> bool {
    &&& requires_image ==> call_ensures(B::has, (backend, ContentFormat::Image), image_found)
    &&& requires_text ==> call_ensures(B::has, (backend, ContentFormat::Text), text_found)
}

/// The outcome of a verified write whose presence checks found what they
/// found: a representation that is not required counts as present.
pub open spec fn verified_outcome(
    requires_image: bool,
    requires_text: bool,
    image_found: bool,
    text_found: bool,
) -> Result<(), SystemClipboardError> {
    if (!requires_image || image_found) && (!requires_text || text_found) {
        Ok(())
    } else {
        Err(SystemClipboardError::Verification)
    }
}

/// `contents` were handed to the backend's `set`: its error is the result;
/// after a successful write, the required representations were asked for
/// and the result follows the answers.
pub open spec fn verified_write<B: ClipboardBackend>(
    backend: &B,
    contents: Vec<WriteContent>,
    requires_image: bool,
    requires_text: bool,
    result: Result<(), SystemClipboardError>,
) -> bool {
    exists|written: Result<(), SystemClipboardError>|
        #[trigger] call_ensures(B::set, (backend, contents), written) && match written {
            Err(e) => result == Err::<(), SystemClipboardError>(e),
            Ok(()) => exists|image_found: bool, text_found: bool|
                #[trigger] presence_checked(
                    backend,
                    requires_image,
                    requires_text,
                    image_found,
                    text_found,
                ) && result == verified_outcome(requires_image, requires_text, image_found, text_found),
        }
}

/// The clock, asked for the time, answered `time`.
pub open spec fn clock_read<C: ClipboardClock>(clock: &C, time: u64) -> bool {
    call_ensures(C::now, (clock,), time)
}

pub open spec fn holds_text(content: WriteContent, text: Seq<char>) -> bool {
    content matches WriteContent::Text(t) && t@ == text
}

pub open spec fn holds_image(content: WriteContent, image: crate::clipboard::ImageData) -> bool {
    content matches WriteContent::Image(i) && i.data() == image
}

/// The contents of a write of the text alone.
pub open spec fn text_contents(contents: Seq<WriteContent>, text: Seq<char>) -> bool {
    contents.len() == 1 && holds_text(contents[0], text)
}

/// The contents of a write of the image alone.
pub open spec fn image_contents(contents: Seq<WriteContent>, image: crate::clipboard::ImageData) -> bool {
    contents.len() == 1 && holds_image(contents[0], image)
}

/// The contents of a write of the image followed by its text.
pub open spec fn mixed_contents(
    contents: Seq<WriteContent>,
    image: crate::clipboard::ImageData,
    text: Seq<char>,
) -> bool {
    contents.len() == 2 && holds_image(contents[0], image) && holds_text(contents[1], text)
}

/// The image and its text were written together, in that order, and the
/// write with its checks of both representations gave `result`.
pub open spec fn mixed_written<B: ClipboardBackend>(
    backend: &B,
    image: crate::clipboard::ImageData,
    text: Seq<char>,
    result: Result<(), SystemClipboardError>,
) -> bool {
    exists|contents: Vec<WriteContent>|
        #[trigger] verified_write(backend, contents, true, true, result) && mixed_contents(
            contents@,
            image,
            text,
        )
}

/// The text alone was written, and the write with its check of the text
/// gave `result`.
pub open spec fn fallback_written<B: ClipboardBackend>(
    backend: &B,
    text: Seq<char>,
    result: Result<(), SystemClipboardError>,
) -> bool {
    exists|contents: Vec<WriteContent>|
        #[trigger] verified_write(backend, contents, false, true, result) && text_contents(
            contents@,
            text,
        )
}

/// The image alone was written, and the write with its check of the image
/// gave `result`.
pub open spec fn image_written<B: ClipboardBackend>(
    backend: &B,
    image: crate::clipboard::ImageData,
    result: Result<(), SystemClipboardError>,
) -> bool {
    exists|contents: Vec<WriteContent>|
        #[trigger] verified_write(backend, contents, true, false, result) && image_contents(
            contents@,
            image,
        )
}

/// The pending writes went from `before` to `after` through one marked
/// write under `id`: armed at a reading of `clock`, then refreshed at a
/// later reading when the write verified, and dropped otherwise.
pub open spec fn write_settled<C: ClipboardClock>(
    clock: &C,
    before: Seq<MarkerData>,
    after: Seq<MarkerData>,
    id: u64,
    signature: Seq<u8>,
    verified: bool,
) -> bool {
    exists|armed_at: u64, verified_at: u64|
        clock_read(clock, armed_at) && (verified ==> clock_read(clock, verified_at)) && after
            == #[trigger] settled_write(before, id, signature, verified, armed_at, verified_at)
}

/// The mixed write protocol, from the backend's side and the markers':
/// the image with its text was written first, under a marker armed at a
/// reading of `clock`; when that verified, the marker was refreshed and the
/// result is `Ok`; otherwise the marker was moved to the text, the text
/// alone was written next, and that write decides the result and settles
/// the marker. Every marker time is a reading of `clock`.
pub open spec fn mixed_write_settled<B: ClipboardBackend, C: ClipboardClock>(
    backend: &B,
    clock: &C,
    before: Seq<MarkerData>,
    after: Seq<MarkerData>,
    id: u64,
    image: crate::clipboard::ImageData,
    text: Seq<char>,
    result: Result<(), SystemClipboardError>,
) -> bool {
    exists|mixed_result: Result<(), SystemClipboardError>, armed_at: u64, moved_at: u64, verified_at: u64|
        {
            &&& #[trigger] mixed_written(backend, image, text, mixed_result)
            &&& (mixed_result is Ok ==> result is Ok)
            &&& (mixed_result is Err ==> fallback_written(backend, text, result))
            &&& clock_read(clock, armed_at)
            &&& clock_read(clock, moved_at)
            &&& (mixed_result is Err && result is Ok ==> clock_read(clock, verified_at))
            &&& after == #[trigger] settled_mixed_write(
                before,
                id,
                content_signature(Some(image), Some(text)),
                content_signature(None, Some(text)),
                mixed_result is Ok,
                result is Ok,
                armed_at,
                moved_at,
                verified_at,
            )
        }
}

/// Writes `contents`, then checks that every required representation is
/// present; both checks are made whenever the write itself succeeded, and a
/// failed write is returned as is.
pub fn write_and_verify<B: ClipboardBackend>(
    backend: &B,
    contents: Vec<WriteContent>,
    requires_image: bool,
    requires_text: bool,
) -> (result: Result<(), SystemClipboardError>)
    ensures
        verified_write(backend, contents, requires_image, requires_text, result),
{
    let write = B::set;
    let written = write(backend, contents);
    match written {
        Ok(()) => {},
        Err(error) => return Err(error),
    }
    let check = B::has;
    let image_available = if requires_image {
        check(backend, ContentFormat::Image)
    } else {
        true
    };
    let text_available = if requires_text {
        check(backend, ContentFormat::Text)
    } else {
        true
    };
    assert(presence_checked(backend, requires_image, requires_text, image_available, text_available));
    let result = verification_result(image_available, text_available);
    proof {
        if let Ok(unit) = result {
            assert(unit == ());
        }
    }
    assert(result == verified_outcome(requires_image, requires_text, image_available, text_available));
    result
}

/// A verified write succeeds only when every required representation was
/// found after it.
pub fn verification_result(image_available: bool, text_available: bool) -> (result: Result<
    (),
    SystemClipboardError,
>)
    ensures
        result is Ok <==> (image_available && text_available),
        result is Err ==> result == Err::<(), SystemClipboardError>(
            SystemClipboardError::Verification,
        ),
{
    if image_available && text_available {
        Ok(())
    } else {
        Err(SystemClipboardError::Verification)
    }
}

/// A snapshot built from the representations `contents`, in their order.
pub open spec fn snapshot_holds(snapshot: ClipboardSnapshot, contents: Seq<ClipboardContent>) -> bool {
    snapshot.image_data() == snapshot_image(contents) && snapshot.text_chars() == snapshot_text(contents)
}

/// The pixels of an item's image, if it has one.
pub open spec fn item_image_data(item: ClipboardItem) -> Option<crate::clipboard::ImageData> {
    match item.image {
        Some(image) => Some(image.data()),
        None => None,
    }
}

/// Whether an item's image can be handed to the clipboard: its buffer holds
/// all of its pixels.
pub open spec fn item_image_fits(item: ClipboardItem) -> bool {
    match item.image {
        Some(image) => rgba_buffer_fits(image.width, image.height, image.rgba@.len()),
        None => false,
    }
}

/// Which content a write of `item` hands to the clipboard first.
pub enum WritePlan {
    /// The image together with its text; the text alone is the fallback.
    Mixed,
    ImageOnly,
    TextOnly,
    /// Refused before any write.
    Refused(SystemClipboardError),
}

pub open spec fn write_plan(has_image: bool, has_text: bool, image_fits: bool) -> WritePlan {
    if has_image && has_text {
        if image_fits {
            WritePlan::Mixed
        } else {
            WritePlan::TextOnly
        }
    } else if has_image {
        if image_fits {
            WritePlan::ImageOnly
        } else {
            WritePlan::Refused(SystemClipboardError::InvalidImage)
        }
    } else if has_text {
        WritePlan::TextOnly
    } else {
        WritePlan::Refused(SystemClipboardError::EmptyContent)
    }
}

/// Chooses the first write for an item: an image with text is written as
/// both (falling back to the text); an image that cannot be encoded falls
/// back to the text, or is refused when there is none; an item with neither
/// is refused.
pub fn plan_write(has_image: bool, has_text: bool, image_fits: bool) -> (plan: WritePlan)
    ensures
        plan == write_plan(has_image, has_text, image_fits),
{
    if has_image && has_text {
        if image_fits {
            WritePlan::Mixed
        } else {
            WritePlan::TextOnly
        }
    } else if has_image {
        if image_fits {
            WritePlan::ImageOnly
        } else {
            WritePlan::Refused(SystemClipboardError::InvalidImage)
        }
    } else if has_text {
        WritePlan::TextOnly
    } else {
        WritePlan::Refused(SystemClipboardError::EmptyContent)
    }
}

/// Why a capture failed.
#[derive(Debug)]
pub enum ClipboardCaptureError {
    Read(SystemClipboardError),
    Store(ClipboardError),
}

/// The clipboard entry a snapshot makes, if any.
pub open spec fn snapshot_entry(snapshot: ClipboardSnapshot) -> Option<crate::clipboard::ItemData> {
    new_entry(snapshot.image_data(), snapshot.text_chars())
}

/// Stores what a snapshot shows: its image (with its text), else its text;
/// an empty snapshot stores nothing.
pub fn store_snapshot(store: &mut ClipboardStore, snapshot: ClipboardSnapshot) -> (result: Result<
    bool,
    ClipboardError,
>)
    ensures
        result == Ok::<bool, ClipboardError>(snapshot_entry(snapshot) is Some),
        match snapshot_entry(snapshot) {
            Some(e) => final(store).view() == added(old(store).view(), e),
            None => final(store).view() == old(store).view(),
        },
{
    match snapshot.image {
        Some(image) => store.try_add_image(image, snapshot.text),
        None => match snapshot.text {
            Some(text) => store.try_add_text(text),
            None => Ok(false),
        },
    }
}

pub open spec fn snapshot_signature(snapshot: ClipboardSnapshot) -> Option<Seq<u8>> {
    if snapshot.image is None && snapshot.text is None {
        None
    } else {
        Some(content_signature(snapshot.image_data(), snapshot.text_chars()))
    }
}

/// Klipo's view of the system clipboard: the backend, the writes waiting to
/// be observed, and the clock that times them out.
pub struct SystemClipboard<B, C> {
    backend: B,
    markers: SelfWriteMarkers,
    clock: C,
}

impl<B: ClipboardBackend, C: ClipboardClock> SystemClipboard<B, C> {
    /// The writes waiting to be observed.
    pub closed spec fn pending(&self) -> Seq<MarkerData> {
        self.markers.view()
    }

    /// At most `MAX_SELF_WRITE_MARKERS` writes wait to be observed.
    pub open spec fn wf(&self) -> bool {
        self.pending().len() <= MAX_SELF_WRITE_MARKERS
    }

    /// The clock that times the pending writes.
    pub closed spec fn clock(&self) -> C {
        self.clock
    }

    /// The id of the last marker armed; the next write is marked with the
    /// id that follows it.
    pub closed spec fn last_marker_id(&self) -> u64 {
        self.markers.next_id()
    }

    pub fn from_backend_with_clock(backend: B, clock: C) -> (clipboard: Self)
        ensures
            clipboard.pending() == Seq::<MarkerData>::empty(),
            clipboard.last_marker_id() == 0,
            clipboard.wf(),
    {
        SystemClipboard { backend, markers: SelfWriteMarkers::new(), clock }
    }

    /// The number of writes waiting to be observed.
    pub fn pending_writes(&self) -> (count: usize)
        ensures
            count == self.pending().len(),
    {
        self.markers.len()
    }

    /// The backend the clipboard reads and writes through.
    pub closed spec fn backend(&self) -> B {
        self.backend
    }

    /// Reads one snapshot of the clipboard, asking the backend for an image
    /// and text: the snapshot is built from what it returned, and its error
    /// is returned as is.
    pub fn read(&self) -> (result: Result<ClipboardSnapshot, SystemClipboardError>)
        ensures
            exists|formats: &[ContentFormat], got: Result<Vec<ClipboardContent>, SystemClipboardError>|
                #[trigger] call_ensures(B::get, (&self.backend(), formats), got) && formats@ == seq![
                    ContentFormat::Image,
                    ContentFormat::Text,
                ] && match got {
                    Ok(contents) => result matches Ok(snapshot) && snapshot_holds(snapshot, contents@),
                    Err(e) => result == Err::<ClipboardSnapshot, SystemClipboardError>(e),
                },
    {
        let formats = vec![ContentFormat::Image, ContentFormat::Text];
        let get = B::get;
        assert(self.backend() == self.backend);
        match get(&self.backend, formats.as_slice()) {
            Ok(contents) => Ok(snapshot_from_contents(contents)),
            Err(error) => Err(error),
        }
    }

    /// Settles a snapshot against the pending writes at the clock's reading:
    /// whether it shows one of Klipo's own writes.
    pub fn reconcile_self_write(&mut self, snapshot: &ClipboardSnapshot) -> (own_write: bool)
        requires
            old(self).wf(),
        ensures
            final(self).wf(),
            final(self).last_marker_id() == old(self).last_marker_id(),
            final(self).backend() == old(self).backend(),
            final(self).clock() == old(self).clock(),
            exists|now: u64|
                #[trigger] clock_read(&old(self).clock(), now) && own_write == is_own_write(
                    old(self).pending(),
                    snapshot_signature(*snapshot),
                    now,
                ) && final(self).pending() == reconciled(
                    old(self).pending(),
                    snapshot_signature(*snapshot),
                    now,
                ),
    {
        let read_clock = C::now;
        let now = read_clock(&self.clock);
        assert(clock_read(&self.clock(), now));
        let signature = signature_for_snapshot(snapshot);
        let own_write = self.markers.reconcile(signature, now);
        proof {
            let s = match signature {
                Some(s) => Some(s.0@),
                None => None,
            };
            assert(s == snapshot_signature(*snapshot));
            assert(own_write == is_own_write(old(self).pending(), snapshot_signature(*snapshot), now)
                && self.pending() == reconciled(old(self).pending(), snapshot_signature(*snapshot), now));
        }
        own_write
    }

    /// Reads the clipboard and settles the snapshot against the pending
    /// writes at the clock's reading.
    pub fn read_and_reconcile_self_write(&mut self) -> (result: Result<
        (ClipboardSnapshot, bool),
        SystemClipboardError,
    >)
        requires
            old(self).wf(),
        ensures
            final(self).wf(),
            final(self).last_marker_id() == old(self).last_marker_id(),
            final(self).backend() == old(self).backend(),
            final(self).clock() == old(self).clock(),
            exists|formats: &[ContentFormat], got: Result<Vec<ClipboardContent>, SystemClipboardError>|
                #[trigger] call_ensures(B::get, (&old(self).backend(), formats), got) && formats@
                    == seq![ContentFormat::Image, ContentFormat::Text] && match got {
                    Err(e) => result == Err::<(ClipboardSnapshot, bool), SystemClipboardError>(e)
                        && final(self).pending() == old(self).pending(),
                    Ok(contents) => (result matches Ok((snapshot, own_write)) && snapshot_holds(
                        snapshot,
                        contents@,
                    ) && exists|now: u64|
                        #[trigger] clock_read(&old(self).clock(), now) && own_write == is_own_write(
                            old(self).pending(),
                            snapshot_signature(snapshot),
                            now,
                        ) && final(self).pending() == reconciled(
                            old(self).pending(),
                            snapshot_signature(snapshot),
                            now,
                        )),
                },
    {
        let snapshot = match self.read() {
            Ok(snapshot) => snapshot,
            Err(error) => return Err(error),
        };
        let own_write = self.reconcile_self_write(&snapshot);
        Ok((snapshot, own_write))
    }

    /// Writes `contents` under a fresh marker for `signature`: the marker is
    /// armed at the clock's reading before the write, kept (and refreshed at
    /// a fresh reading) when the write verifies, and dropped otherwise.
    fn write_marked(
        &mut self,
        contents: Vec<WriteContent>,
        requires_image: bool,
        requires_text: bool,
        signature: ClipboardSignature,
    ) -> (result: Result<(), SystemClipboardError>)
        requires
            old(self).wf(),
        ensures
            final(self).wf(),
            final(self).last_marker_id() == following_id(old(self).last_marker_id()),
            final(self).backend() == old(self).backend(),
            final(self).clock() == old(self).clock(),
            verified_write(&old(self).backend(), contents, requires_image, requires_text, result),
            write_settled(
                &old(self).clock(),
                old(self).pending(),
                final(self).pending(),
                following_id(old(self).last_marker_id()),
                signature.0@,
                result is Ok,
            ),
    {
        let read_clock = C::now;
        let armed_at = read_clock(&self.clock);
        assert(clock_read(&self.clock(), armed_at));
        let marker_id = self.markers.arm(signature, armed_at);
        assert(marker_id == following_id(old(self).last_marker_id()));
        let result = write_and_verify(&self.backend, contents, requires_image, requires_text);
        let verified = result.is_ok();
        let mut verified_at: u64 = 0;
        if verified {
            verified_at = read_clock(&self.clock);
            assert(clock_read(&self.clock(), verified_at));
            self.markers.refresh(marker_id, signature, verified_at);
        } else {
            self.markers.clear(marker_id);
        }
        assert(self.pending() == settled_write(
            old(self).pending(),
            marker_id,
            signature.0@,
            result is Ok,
            armed_at,
            verified_at,
        ));
        result
    }

    /// Writes the image and its text together; when that does not verify,
    /// the same marker is moved to the text and the text alone is written,
    /// and that second write decides the result. Every marker time is a
    /// reading of the clock.
    fn write_mixed(&mut self, image: &ClipboardImage, text: &str) -> (result: Result<
        (),
        SystemClipboardError,
    >)
        requires
            old(self).wf(),
        ensures
            final(self).wf(),
            final(self).last_marker_id() == following_id(old(self).last_marker_id()),
            final(self).backend() == old(self).backend(),
            final(self).clock() == old(self).clock(),
            mixed_write_settled(
                &old(self).backend(),
                &old(self).clock(),
                old(self).pending(),
                final(self).pending(),
                following_id(old(self).last_marker_id()),
                image.data(),
                text@,
                result,
            ),
    {
        let mixed_signature = signature_for_content(Some(image), Some(text));
        let fallback_signature = signature_for_content(None, Some(text));
        let read_clock = C::now;
        let armed_at = read_clock(&self.clock);
        assert(clock_read(&self.clock(), armed_at));
        let marker_id = self.markers.arm(mixed_signature, armed_at);
        assert(marker_id == following_id(old(self).last_marker_id()));
        let contents = vec![WriteContent::Image(image.duplicate()), WriteContent::Text(String::from_str(text))];
        let ghost mixed = contents;
        assert(mixed_contents(mixed@, image.data(), text@));
        let mixed_result = write_and_verify(&self.backend, contents, true, true);
        let mixed_verified = mixed_result.is_ok();
        let moved_at = read_clock(&self.clock);
        assert(clock_read(&self.clock(), moved_at));
        let mut verified_at: u64 = 0;
        let result = if mixed_verified {
            self.markers.refresh(marker_id, mixed_signature, moved_at);
            Ok(())
        } else {
            self.markers.refresh(marker_id, fallback_signature, moved_at);
            let fallback = vec![WriteContent::Text(String::from_str(text))];
            let ghost fallback_view = fallback;
            assert(text_contents(fallback_view@, text@));
            let fallback_result = write_and_verify(&self.backend, fallback, false, true);
            assert(fallback_written(&self.backend(), text@, fallback_result));
            if fallback_result.is_ok() {
                verified_at = read_clock(&self.clock);
                assert(clock_read(&self.clock(), verified_at));
                self.markers.refresh(marker_id, fallback_signature, verified_at);
            } else {
                self.markers.clear(marker_id);
            }
            fallback_result
        };
        assert(mixed_written(&self.backend(), image.data(), text@, mixed_result));
        assert(self.pending() == settled_mixed_write(
            old(self).pending(),
            marker_id,
            mixed_signature.0@,
            fallback_signature.0@,
            mixed_verified,
            result is Ok,
            armed_at,
            moved_at,
            verified_at,
        ));
        result
    }

    /// Puts an item on the system clipboard and announces the write, so that
    /// the capture it causes is not stored again. What is written follows
    /// `write_plan`: the text alone, the image alone, or the image with its
    /// text and the text alone as the fallback; each write is marked with the
    /// next marker id, at readings of the clock.
    pub fn write_item(&mut self, item: &ClipboardItem) -> (result: Result<(), SystemClipboardError>)
        requires
            old(self).wf(),
        ensures
            final(self).wf(),
            final(self).backend() == old(self).backend(),
            final(self).clock() == old(self).clock(),
            ({
                let id = following_id(old(self).last_marker_id());
                let text = item.text@;
                match write_plan(item.image is Some, text.len() > 0, item_image_fits(*item)) {
                    WritePlan::Refused(error) => result == Err::<(), SystemClipboardError>(error)
                        && final(self).pending() == old(self).pending()
                        && final(self).last_marker_id() == old(self).last_marker_id(),
                    WritePlan::TextOnly => final(self).last_marker_id() == id && fallback_written(
                        &old(self).backend(),
                        text,
                        result,
                    ) && write_settled(
                        &old(self).clock(),
                        old(self).pending(),
                        final(self).pending(),
                        id,
                        content_signature(None, Some(text)),
                        result is Ok,
                    ),
                    WritePlan::ImageOnly => final(self).last_marker_id() == id && image_written(
                        &old(self).backend(),
                        item_image_data(*item)->Some_0,
                        result,
                    ) && write_settled(
                        &old(self).clock(),
                        old(self).pending(),
                        final(self).pending(),
                        id,
                        content_signature(item_image_data(*item), None),
                        result is Ok,
                    ),
                    WritePlan::Mixed => final(self).last_marker_id() == id && mixed_write_settled(
                        &old(self).backend(),
                        &old(self).clock(),
                        old(self).pending(),
                        final(self).pending(),
                        id,
                        item_image_data(*item)->Some_0,
                        text,
                        result,
                    ),
                }
            }),
    {
        let has_text = !item.text.as_str().is_empty();
        let image_fits = match &item.image {
            Some(image) => image_is_encodable(image),
            None => false,
        };
        match plan_write(item.image.is_some(), has_text, image_fits) {
            WritePlan::Mixed => match &item.image {
                Some(image) => self.write_mixed(image, item.text.as_str()),
                None => Err(SystemClipboardError::EmptyContent),
            },
            WritePlan::ImageOnly => match &item.image {
                Some(image) => {
                    let signature = signature_for_content(Some(image), None);
                    let contents = vec![WriteContent::Image(image.duplicate())];
                    let ghost written = contents;
                    assert(image_contents(written@, image.data()));
                    let result = self.write_marked(contents, true, false, signature);
                    assert(image_written(&old(self).backend(), image.data(), result));
                    result
                },
                None => Err(SystemClipboardError::EmptyContent),
            },
            WritePlan::TextOnly => {
                let signature = signature_for_content(None, Some(item.text.as_str()));
                let contents = vec![WriteContent::Text(item.text.clone())];
                let ghost written = contents;
                assert(text_contents(written@, item.text@));
                let result = self.write_marked(contents, false, true, signature);
                assert(fallback_written(&old(self).backend(), item.text@, result));
                result
            },
            WritePlan::Refused(error) => Err(error),
        }
    }

    /// Forgets every pending write, so that later captures are all stored.
    pub fn shutdown(&mut self)
        ensures
            final(self).pending() == Seq::<MarkerData>::empty(),
            final(self).wf(),
            final(self).last_marker_id() == old(self).last_marker_id(),
            final(self).backend() == old(self).backend(),
            final(self).clock() == old(self).clock(),
    {
        self.markers.shutdown();
    }
}

/// Handles one clipboard change: reads the clipboard, skips Klipo's own
/// writes, and stores anything else. Returns whether an entry was stored.
pub fn capture_clipboard_change<B: ClipboardBackend, C: ClipboardClock>(
    system_clipboard: &mut SystemClipboard<B, C>,
    store: &mut ClipboardStore,
) -> (result: Result<bool, ClipboardCaptureError>)
    requires
        old(system_clipboard).wf(),
    ensures
        final(system_clipboard).wf(),
        final(system_clipboard).last_marker_id() == old(system_clipboard).last_marker_id(),
        final(system_clipboard).backend() == old(system_clipboard).backend(),
        final(system_clipboard).clock() == old(system_clipboard).clock(),
        exists|formats: &[ContentFormat], got: Result<Vec<ClipboardContent>, SystemClipboardError>|
            #[trigger] call_ensures(B::get, (&old(system_clipboard).backend(), formats), got) && formats@
                == seq![ContentFormat::Image, ContentFormat::Text] && match got {
                Err(e) => result == Err::<bool, ClipboardCaptureError>(ClipboardCaptureError::Read(e))
                    && final(store).view() == old(store).view() && final(system_clipboard).pending()
                    == old(system_clipboard).pending(),
                Ok(contents) => exists|snapshot: ClipboardSnapshot, now: u64|
                    {
                        &&& snapshot_holds(snapshot, contents@)
                        &&& clock_read(&old(system_clipboard).clock(), now)
                        &&& #[trigger] reconciled(
                            old(system_clipboard).pending(),
                            snapshot_signature(snapshot),
                            now,
                        ) == final(system_clipboard).pending()
                        &&& if is_own_write(
                            old(system_clipboard).pending(),
                            snapshot_signature(snapshot),
                            now,
                        ) {
                            result matches Ok(false) && final(store).view() == old(store).view()
                        } else {
                            (result matches Ok(stored) && stored == (snapshot_entry(snapshot) is Some))
                                && match snapshot_entry(snapshot) {
                                Some(e) => final(store).view() == added(old(store).view(), e),
                                None => final(store).view() == old(store).view(),
                            }
                        }
                    },
            },
{
    let (snapshot, own_write) = match system_clipboard.read_and_reconcile_self_write() {
        Ok(read) => read,
        Err(error) => return Err(ClipboardCaptureError::Read(error)),
    };
    capture_snapshot(store, snapshot, own_write)
}

/// Stores a snapshot unless it shows one of Klipo's own writes.
pub fn capture_snapshot(store: &mut ClipboardStore, snapshot: ClipboardSnapshot, own_write: bool) -> (result:
    Result<bool, ClipboardCaptureError>)
    ensures
        own_write ==> (result matches Ok(false) && final(store).view() == old(store).view()),
        !own_write ==> (result matches Ok(stored) && stored == (snapshot_entry(snapshot) is Some)),
        !own_write ==> match snapshot_entry(snapshot) {
            Some(e) => final(store).view() == added(old(store).view(), e),
            None => final(store).view() == old(store).view(),
        },
{
    if own_write {
        Ok(false)
    } else {
        match store_snapshot(store, snapshot) {
            Ok(stored) => Ok(stored),
            Err(error) => Err(ClipboardCaptureError::Store(error)),
        }
    }
}

/// Every reading of `clock` lies less than one marker lifetime from every
/// other, far enough from the top of the range that no expiry saturates.
pub open spec fn readings_within_lifetime<C: ClipboardClock>(clock: &C) -> bool {
    forall|earlier: u64, later: u64|
        #[trigger] clock_read(clock, earlier) && #[trigger] clock_read(clock, later) ==> later
            < earlier + SELF_WRITE_MARKER_TTL_MS && earlier + SELF_WRITE_MARKER_TTL_MS <= u64::MAX
}

/// A verified write is recognised as Klipo's own: when the clock's readings
/// stay within one marker lifetime, a capture showing the written content,
/// settled at any reading of the clock, is one of Klipo's writes. The write
/// must have been marked under an id no pending marker carried.
pub proof fn lemma_written_content_is_recognised<C: ClipboardClock>(
    clock: &C,
    before: Seq<MarkerData>,
    after: Seq<MarkerData>,
    id: u64,
    signature: Seq<u8>,
    now: u64,
)
    requires
        write_settled(clock, before, after, id, signature, true),
        lacks_id(before, id),
        clock_read(clock, now),
        readings_within_lifetime(clock),
    ensures
        is_own_write(after, Some(signature), now),
{
    let (armed_at, verified_at) = choose|armed_at: u64, verified_at: u64|
        clock_read(clock, armed_at) && (true ==> clock_read(clock, verified_at)) && after
            == #[trigger] settled_write(before, id, signature, true, armed_at, verified_at);
    assert(clock_read(clock, armed_at) && clock_read(clock, verified_at));
    assert(verified_at < expiry(armed_at));
    assert(now < expiry(verified_at));
    lemma_verified_write_is_recognised(before, id, signature, armed_at, verified_at, now);
}

/// The same for an image written with its text: the content that ended on
/// the clipboard (both, or the text alone after the fallback) is recognised
/// at any reading of the clock.
pub proof fn lemma_written_mixed_content_is_recognised<B: ClipboardBackend, C: ClipboardClock>(
    backend: &B,
    clock: &C,
    before: Seq<MarkerData>,
    after: Seq<MarkerData>,
    id: u64,
    image: crate::clipboard::ImageData,
    text: Seq<char>,
    now: u64,
)
    requires
        mixed_write_settled(backend, clock, before, after, id, image, text, Ok(())),
        lacks_id(before, id),
        clock_read(clock, now),
        readings_within_lifetime(clock),
    ensures
        is_own_write(after, Some(content_signature(Some(image), Some(text))), now)
            || is_own_write(after, Some(content_signature(None, Some(text))), now),
{
    let (mixed_result, armed_at, moved_at, verified_at) = choose|
        mixed_result: Result<(), SystemClipboardError>,
        armed_at: u64,
        moved_at: u64,
        verified_at: u64,
    |
        {
            &&& #[trigger] mixed_written(backend, image, text, mixed_result)
            &&& (mixed_result is Ok ==> Ok::<(), SystemClipboardError>(()) is Ok)
            &&& (mixed_result is Err ==> fallback_written(backend, text, Ok(())))
            &&& clock_read(clock, armed_at)
            &&& clock_read(clock, moved_at)
            &&& (mixed_result is Err && Ok::<(), SystemClipboardError>(()) is Ok ==> clock_read(
                clock,
                verified_at,
            ))
            &&& after == #[trigger] settled_mixed_write(
                before,
                id,
                content_signature(Some(image), Some(text)),
                content_signature(None, Some(text)),
                mixed_result is Ok,
                Ok::<(), SystemClipboardError>(()) is Ok,
                armed_at,
                moved_at,
                verified_at,
            )
        };
    assert(clock_read(clock, armed_at) && clock_read(clock, moved_at));
    assert(moved_at < expiry(armed_at));
    if mixed_result is Ok {
        assert(now < expiry(moved_at));
    } else {
        assert(clock_read(clock, verified_at));
        assert(verified_at < expiry(moved_at));
        assert(now < expiry(verified_at));
    }
    lemma_verified_mixed_write_is_recognised(
        before,
        id,
        content_signature(Some(image), Some(text)),
        content_signature(None, Some(text)),
        mixed_result is Ok,
        armed_at,
        moved_at,
        verified_at,
        now,
    );
}

/// A write's marker expires: when every marker pending before the write
/// has expired by `now`, and `now` is at least one marker lifetime after
/// every reading of the clock the write was marked at, a capture at `now`
/// is not taken for Klipo's own, whatever it shows.
pub proof fn lemma_written_content_expires<C: ClipboardClock>(
    clock: &C,
    before: Seq<MarkerData>,
    after: Seq<MarkerData>,
    id: u64,
    signature: Seq<u8>,
    verified: bool,
    captured: Option<Seq<u8>>,
    now: u64,
)
    requires
        write_settled(clock, before, after, id, signature, verified),
        all_expired_by(before, now),
        forall|t: u64| #[trigger] clock_read(clock, t) ==> expiry(t) <= now,
    ensures
        !is_own_write(after, captured, now),
{
    let (armed_at, verified_at) = choose|armed_at: u64, verified_at: u64|
        clock_read(clock, armed_at) && (verified ==> clock_read(clock, verified_at)) && after
            == #[trigger] settled_write(before, id, signature, verified, armed_at, verified_at);
    assert(clock_read(clock, armed_at));
    lemma_write_markers_expire(before, id, signature, verified, armed_at, verified_at, captured, now);
}

} // verus!
