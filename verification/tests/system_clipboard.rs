use std::cell::{Cell, RefCell};
use std::collections::VecDeque;
use std::rc::Rc;

use klipo::clipboard::{
    ClipboardContent, ClipboardImage, ClipboardItem, ClipboardSnapshot, SystemClipboardError,
};
use klipo::self_write::{MAX_SELF_WRITE_MARKERS, SELF_WRITE_MARKER_TTL_MS};
use klipo::storage::ClipboardStore;
use klipo::system_clipboard::{
    capture_clipboard_change, plan_write, store_snapshot, verification_result,
    ClipboardBackend, ClipboardCaptureError, ClipboardClock, ContentFormat, SystemClipboard,
    WriteContent, WritePlan,
};

#[derive(Debug, PartialEq)]
enum FakeWriteContent {
    Image {
        rgba: Vec<u8>,
        width: u32,
        height: u32,
    },
    Text(String),
}

#[derive(Debug, PartialEq)]
enum ContentFormatKind {
    Image,
    Text,
}

#[derive(Default)]
struct FakeClipboardObservations {
    requested_formats: Vec<(bool, bool)>,
    writes: Vec<Vec<FakeWriteContent>>,
    verified_formats: Vec<ContentFormatKind>,
}

struct FakeClipboard {
    responses: RefCell<VecDeque<Result<Vec<ClipboardContent>, SystemClipboardError>>>,
    observations: Rc<RefCell<FakeClipboardObservations>>,
    set_results: RefCell<VecDeque<Result<(), SystemClipboardError>>>,
    has_results: RefCell<VecDeque<bool>>,
}

impl FakeClipboard {
    fn new(
        responses: Vec<Result<Vec<ClipboardContent>, SystemClipboardError>>,
    ) -> (Self, Rc<RefCell<FakeClipboardObservations>>) {
        Self::with_write_behavior(responses, Vec::new(), Vec::new())
    }

    fn with_write_behavior(
        responses: Vec<Result<Vec<ClipboardContent>, SystemClipboardError>>,
        set_results: Vec<Result<(), SystemClipboardError>>,
        has_results: Vec<bool>,
    ) -> (Self, Rc<RefCell<FakeClipboardObservations>>) {
        let observations = Rc::new(RefCell::new(FakeClipboardObservations::default()));
        (
            Self {
                responses: RefCell::new(responses.into()),
                observations: Rc::clone(&observations),
                set_results: RefCell::new(set_results.into()),
                has_results: RefCell::new(has_results.into()),
            },
            observations,
        )
    }
}

impl ClipboardBackend for FakeClipboard {
    fn get(&self, formats: &[ContentFormat]) -> Result<Vec<ClipboardContent>, SystemClipboardError> {
        let has_image = formats.iter().any(|format| *format == ContentFormat::Image);
        let has_text = formats.iter().any(|format| *format == ContentFormat::Text);
        self.observations
            .borrow_mut()
            .requested_formats
            .push((has_image, has_text));
        self.responses
            .borrow_mut()
            .pop_front()
            .unwrap_or_else(|| Ok(Vec::new()))
    }

    fn has(&self, format: ContentFormat) -> bool {
        let format_kind = match format {
            ContentFormat::Image => ContentFormatKind::Image,
            ContentFormat::Text => ContentFormatKind::Text,
        };
        self.observations.borrow_mut().verified_formats.push(format_kind);
        self.has_results.borrow_mut().pop_front().unwrap_or(true)
    }

    fn set(&self, contents: Vec<WriteContent>) -> Result<(), SystemClipboardError> {
        let write = contents
            .into_iter()
            .map(|content| match content {
                WriteContent::Image(image) => FakeWriteContent::Image {
                    rgba: image.rgba,
                    width: image.width,
                    height: image.height,
                },
                WriteContent::Text(text) => FakeWriteContent::Text(text),
            })
            .collect();
        self.observations.borrow_mut().writes.push(write);
        self.set_results.borrow_mut().pop_front().unwrap_or(Ok(()))
    }
}

#[derive(Clone)]
struct TestClock {
    now: Rc<Cell<u64>>,
}

impl TestClock {
    fn new() -> Self {
        Self {
            now: Rc::new(Cell::new(1_000)),
        }
    }

    fn advance(&self, milliseconds: u64) {
        self.now.set(self.now.get() + milliseconds);
    }
}

impl ClipboardClock for TestClock {
    fn now(&self) -> u64 {
        self.now.get()
    }
}

fn from_backend(backend: FakeClipboard) -> SystemClipboard<FakeClipboard, TestClock> {
    SystemClipboard::from_backend_with_clock(backend, TestClock::new())
}

fn image_content(rgba: Vec<u8>, width: u32, height: u32) -> ClipboardContent {
    ClipboardContent::Image {
        rgba: Some(rgba),
        width,
        height,
    }
}

fn item(text: &str, image: Option<ClipboardImage>) -> ClipboardItem {
    ClipboardItem {
        text: text.into(),
        hash: "test-hash".into(),
        image,
        preview: None,
    }
}

fn clipboard_image(rgba: Vec<u8>, width: u32, height: u32) -> ClipboardImage {
    ClipboardImage::from_rgba(rgba, width, height).unwrap()
}

#[test]
fn reads_text_only_content() {
    let (backend, requested_formats) =
        FakeClipboard::new(vec![Ok(vec![ClipboardContent::Text("hello".into())])]);
    let clipboard = from_backend(backend);

    let snapshot = clipboard.read().unwrap();

    assert_eq!(snapshot.text.as_deref(), Some("hello"));
    assert!(snapshot.image.is_none());
    assert_eq!(
        requested_formats.borrow().requested_formats,
        vec![(true, true)]
    );
}

#[test]
fn reads_image_only_content_without_changing_pixels_or_dimensions() {
    let rgba = vec![1, 2, 3, 4, 5, 6, 7, 8];
    let (backend, _) = FakeClipboard::new(vec![Ok(vec![image_content(rgba.clone(), 2, 1)])]);
    let clipboard = from_backend(backend);

    let snapshot = clipboard.read().unwrap();
    let image = snapshot.image.unwrap();

    assert_eq!(image.rgba, rgba);
    assert_eq!((image.width, image.height), (2, 1));
    assert!(snapshot.text.is_none());
}

#[test]
fn reads_image_and_text_as_one_snapshot() {
    let (backend, _) = FakeClipboard::new(vec![Ok(vec![
        image_content(vec![1, 2, 3, 4], 1, 1),
        ClipboardContent::Text("fallback".into()),
    ])]);
    let clipboard = from_backend(backend);

    let snapshot = clipboard.read().unwrap();

    assert_eq!(snapshot.text.as_deref(), Some("fallback"));
    assert_eq!(snapshot.image.unwrap().rgba, vec![1, 2, 3, 4]);
}

#[test]
fn ignores_empty_text_unsupported_content_and_invalid_images() {
    let (backend, _) = FakeClipboard::new(vec![Ok(vec![
        ClipboardContent::Text(String::new()),
        ClipboardContent::Other,
        ClipboardContent::Image {
            rgba: None,
            width: 0,
            height: 0,
        },
    ])]);
    let clipboard = from_backend(backend);

    let snapshot = clipboard.read().unwrap();

    assert!(snapshot.text.is_none());
    assert!(snapshot.image.is_none());
}

#[test]
fn keeps_available_content_when_another_representation_is_unavailable() {
    let (backend, _) =
        FakeClipboard::new(vec![Ok(vec![ClipboardContent::Text("available".into())])]);
    let clipboard = from_backend(backend);

    let snapshot = clipboard.read().unwrap();

    assert_eq!(snapshot.text.as_deref(), Some("available"));
    assert!(snapshot.image.is_none());
}

#[test]
fn read_failure_does_not_poison_later_reads() {
    let (backend, _) = FakeClipboard::new(vec![
        Err(SystemClipboardError::Read),
        Ok(vec![ClipboardContent::Text("later".into())]),
    ]);
    let clipboard = from_backend(backend);

    assert!(matches!(clipboard.read(), Err(SystemClipboardError::Read)));
    assert_eq!(clipboard.read().unwrap().text.as_deref(), Some("later"));
}

#[test]
fn empty_snapshot_is_not_stored() {
    let mut store = ClipboardStore::new();

    assert!(!store_snapshot(&mut store, ClipboardSnapshot::default()).unwrap());
    assert!(store.list().unwrap().is_empty());
}

#[test]
fn capture_flow_ignores_empty_content_and_accepts_the_next_change() {
    let (backend, _) = FakeClipboard::new(vec![
        Ok(Vec::new()),
        Ok(vec![ClipboardContent::Text("later".into())]),
    ]);
    let mut system_clipboard = from_backend(backend);
    let mut store = ClipboardStore::new();

    assert!(!capture_clipboard_change(&mut system_clipboard, &mut store).unwrap());
    assert!(capture_clipboard_change(&mut system_clipboard, &mut store).unwrap());
    assert_eq!(store.list().unwrap().len(), 1);
    assert_eq!(store.first().unwrap().text, "later");
}

#[test]
fn capture_flow_recovers_after_a_read_failure() {
    let (backend, _) = FakeClipboard::new(vec![
        Err(SystemClipboardError::Read),
        Ok(vec![ClipboardContent::Text("recovered".into())]),
    ]);
    let mut system_clipboard = from_backend(backend);
    let mut store = ClipboardStore::new();

    assert!(matches!(
        capture_clipboard_change(&mut system_clipboard, &mut store),
        Err(ClipboardCaptureError::Read(SystemClipboardError::Read))
    ));
    assert!(capture_clipboard_change(&mut system_clipboard, &mut store).unwrap());
    assert_eq!(store.first().unwrap().text, "recovered");
}

#[test]
fn verified_klipo_text_write_is_not_captured_again() {
    let (backend, _) = FakeClipboard::with_write_behavior(
        vec![Ok(vec![ClipboardContent::Text("hello".into())])],
        Vec::new(),
        vec![true],
    );
    let mut system_clipboard = from_backend(backend);
    let mut store = ClipboardStore::new();

    system_clipboard.write_item(&item("hello", None)).unwrap();

    assert!(!capture_clipboard_change(&mut system_clipboard, &mut store).unwrap());
    assert!(store.list().unwrap().is_empty());
}

#[test]
fn verified_klipo_image_write_is_not_captured_again() {
    let image = clipboard_image(vec![1, 2, 3, 4], 1, 1);
    let (backend, _) = FakeClipboard::with_write_behavior(
        vec![Ok(vec![image_content(
            image.rgba.clone(),
            image.width,
            image.height,
        )])],
        Vec::new(),
        vec![true],
    );
    let mut system_clipboard = from_backend(backend);
    let mut store = ClipboardStore::new();

    system_clipboard.write_item(&item("", Some(image))).unwrap();

    assert!(!capture_clipboard_change(&mut system_clipboard, &mut store).unwrap());
    assert!(store.list().unwrap().is_empty());
}

#[test]
fn verified_klipo_mixed_write_is_not_captured_again() {
    let image = clipboard_image(vec![1, 2, 3, 4], 1, 1);
    let (backend, _) = FakeClipboard::with_write_behavior(
        vec![Ok(vec![
            image_content(image.rgba.clone(), image.width, image.height),
            ClipboardContent::Text("fallback".into()),
        ])],
        Vec::new(),
        vec![true, true],
    );
    let mut system_clipboard = from_backend(backend);
    let mut store = ClipboardStore::new();

    system_clipboard
        .write_item(&item("fallback", Some(image)))
        .unwrap();

    assert!(!capture_clipboard_change(&mut system_clipboard, &mut store).unwrap());
    assert!(store.list().unwrap().is_empty());
}

#[test]
fn mixed_write_fallback_updates_the_self_write_marker_to_text() {
    let image = clipboard_image(vec![1, 2, 3, 4], 1, 1);
    let (backend, _) = FakeClipboard::with_write_behavior(
        vec![Ok(vec![ClipboardContent::Text("fallback".into())])],
        vec![Ok(()), Ok(())],
        vec![true, false, true],
    );
    let mut system_clipboard = from_backend(backend);
    let mut store = ClipboardStore::new();

    system_clipboard
        .write_item(&item("fallback", Some(image)))
        .unwrap();

    assert!(!capture_clipboard_change(&mut system_clipboard, &mut store).unwrap());
    assert!(store.list().unwrap().is_empty());
}

#[test]
fn later_identical_external_copy_is_captured_after_self_write_marker_is_consumed() {
    let (backend, _) = FakeClipboard::with_write_behavior(
        vec![
            Ok(vec![ClipboardContent::Text("hello".into())]),
            Ok(vec![ClipboardContent::Text("hello".into())]),
        ],
        Vec::new(),
        vec![true],
    );
    let mut system_clipboard = from_backend(backend);
    let mut store = ClipboardStore::new();

    system_clipboard.write_item(&item("hello", None)).unwrap();

    assert!(!capture_clipboard_change(&mut system_clipboard, &mut store).unwrap());
    assert!(capture_clipboard_change(&mut system_clipboard, &mut store).unwrap());
    assert_eq!(store.first().unwrap().text, "hello");
}

#[test]
fn external_copy_of_a_superseded_write_is_captured_after_coalesced_changes() {
    let (backend, _) = FakeClipboard::with_write_behavior(
        vec![
            Ok(vec![ClipboardContent::Text("B".into())]),
            Ok(vec![ClipboardContent::Text("A".into())]),
        ],
        Vec::new(),
        vec![true, true],
    );
    let mut system_clipboard = from_backend(backend);
    let mut store = ClipboardStore::new();

    system_clipboard.write_item(&item("A", None)).unwrap();
    system_clipboard.write_item(&item("B", None)).unwrap();

    assert!(!capture_clipboard_change(&mut system_clipboard, &mut store).unwrap());
    assert!(capture_clipboard_change(&mut system_clipboard, &mut store).unwrap());
    assert_eq!(store.first().unwrap().text, "A");
}

#[test]
fn expired_self_write_marker_does_not_suppress_matching_external_copy() {
    let clock = TestClock::new();
    let (backend, _) = FakeClipboard::with_write_behavior(
        vec![Ok(vec![ClipboardContent::Text("hello".into())])],
        Vec::new(),
        vec![true],
    );
    let mut system_clipboard = SystemClipboard::from_backend_with_clock(backend, clock.clone());
    let mut store = ClipboardStore::new();

    system_clipboard.write_item(&item("hello", None)).unwrap();
    clock.advance(SELF_WRITE_MARKER_TTL_MS);

    assert!(capture_clipboard_change(&mut system_clipboard, &mut store).unwrap());
    assert_eq!(store.first().unwrap().text, "hello");
}

#[test]
fn mismatched_capture_is_stored_and_clears_the_stale_self_write_marker() {
    let (backend, _) = FakeClipboard::with_write_behavior(
        vec![
            Ok(vec![ClipboardContent::Text("external".into())]),
            Ok(vec![ClipboardContent::Text("hello".into())]),
        ],
        Vec::new(),
        vec![true],
    );
    let mut system_clipboard = from_backend(backend);
    let mut store = ClipboardStore::new();

    system_clipboard.write_item(&item("hello", None)).unwrap();

    assert!(capture_clipboard_change(&mut system_clipboard, &mut store).unwrap());
    assert!(capture_clipboard_change(&mut system_clipboard, &mut store).unwrap());
    assert_eq!(store.list().unwrap().len(), 2);
}

#[test]
fn failed_write_clears_its_self_write_marker() {
    let (backend, _) = FakeClipboard::with_write_behavior(
        vec![Ok(vec![ClipboardContent::Text("hello".into())])],
        vec![Err(SystemClipboardError::Write)],
        Vec::new(),
    );
    let mut system_clipboard = from_backend(backend);
    let mut store = ClipboardStore::new();

    assert!(matches!(
        system_clipboard.write_item(&item("hello", None)),
        Err(SystemClipboardError::Write)
    ));

    assert!(capture_clipboard_change(&mut system_clipboard, &mut store).unwrap());
    assert_eq!(store.first().unwrap().text, "hello");
}

#[test]
fn shutdown_clears_pending_self_write_markers() {
    let (backend, _) = FakeClipboard::with_write_behavior(
        vec![Ok(vec![ClipboardContent::Text("hello".into())])],
        Vec::new(),
        vec![true],
    );
    let mut system_clipboard = from_backend(backend);
    let mut store = ClipboardStore::new();

    system_clipboard.write_item(&item("hello", None)).unwrap();
    system_clipboard.shutdown();

    assert!(capture_clipboard_change(&mut system_clipboard, &mut store).unwrap());
    assert_eq!(store.first().unwrap().text, "hello");
}

#[test]
fn pending_self_write_markers_are_bounded() {
    let (backend, _) = FakeClipboard::with_write_behavior(Vec::new(), Vec::new(), vec![true; 9]);
    let mut system_clipboard = from_backend(backend);

    for index in 0..9 {
        system_clipboard
            .write_item(&item(&format!("text-{index}"), None))
            .unwrap();
    }

    assert_eq!(system_clipboard.pending_writes(), MAX_SELF_WRITE_MARKERS);
}

#[test]
fn writes_text_once_and_verifies_text() {
    let (backend, observations) =
        FakeClipboard::with_write_behavior(Vec::new(), Vec::new(), vec![true]);
    let mut clipboard = from_backend(backend);

    clipboard.write_item(&item("hello", None)).unwrap();

    let observations = observations.borrow();
    assert_eq!(
        observations.writes,
        vec![vec![FakeWriteContent::Text("hello".into())]]
    );
    assert_eq!(observations.verified_formats, vec![ContentFormatKind::Text]);
}

#[test]
fn writes_image_once_with_original_pixels_dimensions_and_alpha() {
    let rgba = vec![1, 2, 3, 4, 5, 6, 7, 128];
    let (backend, observations) =
        FakeClipboard::with_write_behavior(Vec::new(), Vec::new(), vec![true]);
    let mut clipboard = from_backend(backend);

    clipboard
        .write_item(&item("", Some(clipboard_image(rgba.clone(), 2, 1))))
        .unwrap();

    let observations = observations.borrow();
    assert_eq!(
        observations.writes,
        vec![vec![FakeWriteContent::Image {
            rgba,
            width: 2,
            height: 1,
        }]]
    );
    assert_eq!(
        observations.verified_formats,
        vec![ContentFormatKind::Image]
    );
}

#[test]
fn writes_mixed_content_in_one_image_first_operation() {
    let (backend, observations) =
        FakeClipboard::with_write_behavior(Vec::new(), Vec::new(), vec![true, true]);
    let mut clipboard = from_backend(backend);

    clipboard
        .write_item(&item(
            "fallback",
            Some(clipboard_image(vec![10, 20, 30, 40], 1, 1)),
        ))
        .unwrap();

    let observations = observations.borrow();
    assert_eq!(
        observations.writes,
        vec![vec![
            FakeWriteContent::Image {
                rgba: vec![10, 20, 30, 40],
                width: 1,
                height: 1,
            },
            FakeWriteContent::Text("fallback".into()),
        ]]
    );
    assert_eq!(
        observations.verified_formats,
        vec![ContentFormatKind::Image, ContentFormatKind::Text]
    );
}

#[test]
fn incomplete_mixed_write_uses_one_verified_text_fallback() {
    let (backend, observations) = FakeClipboard::with_write_behavior(
        Vec::new(),
        vec![Ok(()), Ok(())],
        vec![true, false, true],
    );
    let mut clipboard = from_backend(backend);

    clipboard
        .write_item(&item(
            "fallback",
            Some(clipboard_image(vec![10, 20, 30, 40], 1, 1)),
        ))
        .unwrap();

    let observations = observations.borrow();
    assert_eq!(observations.writes.len(), 2);
    assert_eq!(
        observations.writes[1],
        vec![FakeWriteContent::Text("fallback".into())]
    );
    assert_eq!(
        observations.verified_formats,
        vec![
            ContentFormatKind::Image,
            ContentFormatKind::Text,
            ContentFormatKind::Text,
        ]
    );
}

#[test]
fn failed_mixed_write_uses_fallback_once() {
    let (backend, observations) = FakeClipboard::with_write_behavior(
        Vec::new(),
        vec![Err(SystemClipboardError::Write), Ok(())],
        vec![true],
    );
    let mut clipboard = from_backend(backend);

    clipboard
        .write_item(&item(
            "fallback",
            Some(clipboard_image(vec![10, 20, 30, 40], 1, 1)),
        ))
        .unwrap();

    let observations = observations.borrow();
    assert_eq!(observations.writes.len(), 2);
    assert_eq!(
        observations.writes[1],
        vec![FakeWriteContent::Text("fallback".into())]
    );
    assert_eq!(observations.verified_formats, vec![ContentFormatKind::Text]);
}

#[test]
fn unverified_mixed_fallback_fails_without_a_third_write() {
    let (backend, observations) = FakeClipboard::with_write_behavior(
        Vec::new(),
        vec![Ok(()), Ok(())],
        vec![true, false, false],
    );
    let mut clipboard = from_backend(backend);

    assert!(matches!(
        clipboard.write_item(&item(
            "fallback",
            Some(clipboard_image(vec![10, 20, 30, 40], 1, 1)),
        )),
        Err(SystemClipboardError::Verification)
    ));
    let observations = observations.borrow();
    assert_eq!(observations.writes.len(), 2);
    assert_eq!(
        observations.verified_formats,
        vec![
            ContentFormatKind::Image,
            ContentFormatKind::Text,
            ContentFormatKind::Text,
        ]
    );
}

#[test]
fn unverified_text_write_fails_without_a_second_write() {
    let (backend, observations) =
        FakeClipboard::with_write_behavior(Vec::new(), Vec::new(), vec![false]);
    let mut clipboard = from_backend(backend);

    assert!(matches!(
        clipboard.write_item(&item("hello", None)),
        Err(SystemClipboardError::Verification)
    ));
    assert_eq!(observations.borrow().writes.len(), 1);
}

#[test]
fn failed_image_write_does_not_use_empty_text_as_fallback() {
    let (backend, observations) = FakeClipboard::with_write_behavior(
        Vec::new(),
        vec![Err(SystemClipboardError::Write)],
        Vec::new(),
    );
    let mut clipboard = from_backend(backend);

    assert!(matches!(
        clipboard.write_item(&item("", Some(clipboard_image(vec![1, 2, 3, 4], 1, 1)))),
        Err(SystemClipboardError::Write)
    ));
    assert_eq!(observations.borrow().writes.len(), 1);
}

#[test]
fn empty_item_is_rejected_without_a_write() {
    let (backend, observations) =
        FakeClipboard::with_write_behavior(Vec::new(), Vec::new(), Vec::new());
    let mut clipboard = from_backend(backend);

    assert!(matches!(
        clipboard.write_item(&item("", None)),
        Err(SystemClipboardError::EmptyContent)
    ));
    assert!(observations.borrow().writes.is_empty());
}

#[test]
fn an_image_shorter_than_its_dimensions_is_refused_without_a_write() {
    let (backend, observations) =
        FakeClipboard::with_write_behavior(Vec::new(), Vec::new(), Vec::new());
    let mut clipboard = from_backend(backend);
    let short = ClipboardImage {
        rgba: vec![1, 2, 3],
        width: 1,
        height: 1,
    };

    assert!(matches!(
        clipboard.write_item(&item("", Some(short))),
        Err(SystemClipboardError::InvalidImage)
    ));
    assert!(observations.borrow().writes.is_empty());
}

#[test]
fn write_plans_and_verification() {
    assert!(matches!(plan_write(true, true, true), WritePlan::Mixed));
    assert!(matches!(plan_write(true, true, false), WritePlan::TextOnly));
    assert!(matches!(plan_write(true, false, true), WritePlan::ImageOnly));
    assert!(matches!(
        plan_write(true, false, false),
        WritePlan::Refused(SystemClipboardError::InvalidImage)
    ));
    assert!(matches!(
        plan_write(false, false, false),
        WritePlan::Refused(SystemClipboardError::EmptyContent)
    ));
    assert_eq!(verification_result(true, true), Ok(()));
    assert_eq!(
        verification_result(true, false),
        Err(SystemClipboardError::Verification)
    );
}

#[test]
fn error_messages_are_stable() {
    assert_eq!(
        SystemClipboardError::Verification.message(),
        "System clipboard write verification failed"
    );
    assert_eq!(
        SystemClipboardError::EmptyContent.message(),
        "No clipboard content to write"
    );
}
