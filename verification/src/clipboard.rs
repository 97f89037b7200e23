//! Clipboard contents: images, snapshots of what the system clipboard holds,
//! and history items.
use vstd::prelude::*;

verus! {

/// RGBA pixels with their dimensions, as a value.
pub struct ImageData {
    pub rgba: Seq<u8>,
    pub width: u32,
    pub height: u32,
}

/// The byte count of a `width` x `height` RGBA image, when it fits in a
/// `usize`.
pub open spec fn rgba_byte_count(width: u32, height: u32) -> Option<nat> {
    if width * height * 4 <= usize::MAX {
        Some((width * height * 4) as nat)
    } else {
        None
    }
}

/// An image accepted from the clipboard: both dimensions are positive and
/// the pixel buffer holds exactly four bytes per pixel.
pub open spec fn valid_image_data(rgba: Seq<u8>, width: u32, height: u32) -> bool {
    &&& width > 0
    &&& height > 0
    &&& rgba_byte_count(width, height) == Some(rgba.len())
}

#[derive(Debug, Clone)]
pub struct ClipboardImage {
    pub rgba: Vec<u8>,
    pub width: u32,
    pub height: u32,
}

impl ClipboardImage {
    pub open spec fn data(&self) -> ImageData {
        ImageData { rgba: self.rgba@, width: self.width, height: self.height }
    }

    /// Accepts `rgba` as a `width` x `height` image only when it holds
    /// exactly four bytes per pixel and neither dimension is zero.
    pub fn from_rgba(rgba: Vec<u8>, width: u32, height: u32) -> (image: Option<Self>)
        ensures
            image is Some <==> valid_image_data(rgba@, width, height),
            image matches Some(img) ==> img.data() == (ImageData { rgba: rgba@, width, height }),
    {
        let pixel_count = match (width as usize).checked_mul(height as usize) {
            Some(count) => count,
            None => {
                assert(width * height * 4 > usize::MAX) by (nonlinear_arith)
                    requires
                        width * height > usize::MAX,
                ;
                return None;
            },
        };
        let byte_count = match pixel_count.checked_mul(4) {
            Some(count) => count,
            None => return None,
        };
        if width == 0 || height == 0 || rgba.len() != byte_count {
            return None;
        }
        Some(Self { rgba, width, height })
    }

    /// A copy of this image.
    pub fn duplicate(&self) -> (copy: Self)
        ensures
            copy.data() == self.data(),
    {
        Self { rgba: self.rgba.clone(), width: self.width, height: self.height }
    }
}

/// Whether `RgbaImage::from_raw` (image crate) accepts a buffer of `len`
/// bytes for a `width` x `height` image: the four-bytes-per-pixel size must
/// fit in a `usize` and be at most `len`.
pub open spec fn rgba_buffer_fits(width: u32, height: u32, len: nat) -> bool {
    &&& 4 * width <= usize::MAX
    &&& 4 * width * height <= usize::MAX
    &&& 4 * width * height <= len
}

/// Whether an image can be handed to the clipboard as an RGBA buffer.
pub fn image_is_encodable(image: &ClipboardImage) -> (fits: bool)
    ensures
        fits == rgba_buffer_fits(image.width, image.height, image.rgba@.len()),
{
    let width = image.width as usize;
    let height = image.height as usize;
    match 4usize.checked_mul(width) {
        Some(row) => match row.checked_mul(height) {
            Some(count) => {
                count <= image.rgba.len()
            },
            None => false,
        },
        None => false,
    }
}

#[derive(Debug, Clone, Copy, PartialEq, Eq, Structural)]
pub enum SystemClipboardError {
    Initialization,
    Read,
    Write,
    Verification,
    InvalidImage,
    EmptyContent,
    LockPoisoned,
}

impl SystemClipboardError {
    /// The message shown for this error.
    pub fn message(&self) -> (message: &'static str)
        ensures
            message@ == system_clipboard_error_message(*self),
    {
        match self {
            SystemClipboardError::Initialization => "Failed to initialize system clipboard",
            SystemClipboardError::Read => "Failed to read system clipboard",
            SystemClipboardError::Write => "Failed to write system clipboard",
            SystemClipboardError::Verification => "System clipboard write verification failed",
            SystemClipboardError::InvalidImage => "Invalid clipboard image",
            SystemClipboardError::EmptyContent => "No clipboard content to write",
            SystemClipboardError::LockPoisoned => "System clipboard lock is poisoned",
        }
    }
}

pub open spec fn system_clipboard_error_message(error: SystemClipboardError) -> Seq<char> {
    match error {
        SystemClipboardError::Initialization => "Failed to initialize system clipboard"@,
        SystemClipboardError::Read => "Failed to read system clipboard"@,
        SystemClipboardError::Write => "Failed to write system clipboard"@,
        SystemClipboardError::Verification => "System clipboard write verification failed"@,
        SystemClipboardError::InvalidImage => "Invalid clipboard image"@,
        SystemClipboardError::EmptyContent => "No clipboard content to write"@,
        SystemClipboardError::LockPoisoned => "System clipboard lock is poisoned"@,
    }
}

/// What the system clipboard held when it was read: at most one image and
/// at most one non-empty text.
#[derive(Debug)]
pub struct ClipboardSnapshot {
    pub image: Option<ClipboardImage>,
    pub text: Option<String>,
}

impl ClipboardSnapshot {
    pub fn new() -> (snapshot: Self)
        ensures
            snapshot.image is None,
            snapshot.text is None,
    {
        ClipboardSnapshot { image: None, text: None }
    }

    pub open spec fn image_data(&self) -> Option<ImageData> {
        match self.image {
            Some(image) => Some(image.data()),
            None => None,
        }
    }

    pub open spec fn text_chars(&self) -> Option<Seq<char>> {
        match self.text {
            Some(text) => Some(text@),
            None => None,
        }
    }
}

impl Default for ClipboardSnapshot {
    fn default() -> (snapshot: Self)
        ensures
            snapshot.image is None,
            snapshot.text is None,
    {
        ClipboardSnapshot { image: None, text: None }
    }
}

/// One representation read from the system clipboard. An image carries the
/// pixels it decoded to, or `None` when it could not be decoded.
#[derive(Debug)]
pub enum ClipboardContent {
    Image { rgba: Option<Vec<u8>>, width: u32, height: u32 },
    Text(String),
    Other,
}

/// The image a content contributes, when it is an image that decodes to a
/// valid RGBA buffer.
pub open spec fn content_image(content: ClipboardContent) -> Option<ImageData> {
    match content {
        ClipboardContent::Image { rgba: Some(rgba), width, height } => if valid_image_data(
            rgba@,
            width,
            height,
        ) {
            Some(ImageData { rgba: rgba@, width, height })
        } else {
            None
        },
        _ => None,
    }
}

/// The image of a snapshot: the first image representation decides, unless
/// it fails to decode, in which case a later one may.
pub open spec fn snapshot_image(contents: Seq<ClipboardContent>) -> Option<ImageData>
    decreases contents.len(),
{
    if contents.len() == 0 {
        None
    } else {
        let earlier = snapshot_image(contents.drop_last());
        if earlier is Some {
            earlier
        } else {
            content_image(contents.last())
        }
    }
}

/// The text of a snapshot: the first non-empty text representation.
pub open spec fn snapshot_text(contents: Seq<ClipboardContent>) -> Option<Seq<char>>
    decreases contents.len(),
{
    if contents.len() == 0 {
        None
    } else {
        let earlier = snapshot_text(contents.drop_last());
        if earlier is Some {
            earlier
        } else {
            match contents.last() {
                ClipboardContent::Text(text) => if text@.len() > 0 {
                    Some(text@)
                } else {
                    None
                },
                _ => None,
            }
        }
    }
}

/// Collects one snapshot from the representations the clipboard returned,
/// in the order it returned them.
pub fn snapshot_from_contents(contents: Vec<ClipboardContent>) -> (snapshot: ClipboardSnapshot)
    ensures
        snapshot.image_data() == snapshot_image(contents@),
        snapshot.text_chars() == snapshot_text(contents@),
{
    let ghost all = contents@;
    let mut snapshot = ClipboardSnapshot::new();
    let mut contents = contents;
    let mut rest: Vec<ClipboardContent> = Vec::new();
    // Take the contents in their original order.
    while contents.len() > 0
        invariant
            all == contents@ + rest@.reverse(),
        decreases contents.len(),
    {
        let last = contents.pop().unwrap();
        rest.push(last);
        proof {
            assert(all =~= contents@ + rest@.reverse());
        }
    }
    assert(rest@.reverse() =~= all);
    let ghost total = rest@.len();
    while rest.len() > 0
        invariant
            rest@.len() <= total,
            total == all.len(),
            forall|i: int| 0 <= i < rest@.len() ==> rest@[i] == all[total - 1 - i],
            snapshot.image_data() == snapshot_image(all.subrange(0, total - rest@.len())),
            snapshot.text_chars() == snapshot_text(all.subrange(0, total - rest@.len())),
        decreases rest.len(),
    {
        let ghost taken = total - rest@.len();
        let content = rest.pop().unwrap();
        proof {
            assert(content == all[taken]);
            assert(all.subrange(0, taken + 1).drop_last() =~= all.subrange(0, taken));
            assert(all.subrange(0, taken + 1).last() == content);
        }
        match content {
            ClipboardContent::Image { rgba, width, height } => {
                if snapshot.image.is_none() {
                    snapshot.image = match rgba {
                        Some(rgba) => ClipboardImage::from_rgba(rgba, width, height),
                        None => None,
                    };
                }
            },
            ClipboardContent::Text(text) => {
                if snapshot.text.is_none() && !text.as_str().is_empty() {
                    snapshot.text = Some(text);
                }
            },
            ClipboardContent::Other => {},
        }
    }
    assert(all.subrange(0, total as int) =~= all);
    snapshot
}

/// One entry of the clipboard history. The image is loaded only where the
/// full pixels are needed; the preview is a small PNG data URL.
#[derive(Debug, Clone)]
pub struct ClipboardItem {
    pub text: String,
    pub hash: String,
    pub image: Option<ClipboardImage>,
    pub preview: Option<String>,
}

/// A history entry, as a value.
pub struct ItemData {
    pub text: Seq<char>,
    pub hash: Seq<char>,
    pub image: Option<ImageData>,
    pub preview: Option<Seq<char>>,
}

pub open spec fn option_image_data(image: Option<ClipboardImage>) -> Option<ImageData> {
    match image {
        Some(image) => Some(image.data()),
        None => None,
    }
}

pub open spec fn option_chars(text: Option<String>) -> Option<Seq<char>> {
    match text {
        Some(text) => Some(text@),
        None => None,
    }
}

impl ClipboardItem {
    pub open spec fn data(&self) -> ItemData {
        ItemData {
            text: self.text@,
            hash: self.hash@,
            image: option_image_data(self.image),
            preview: option_chars(self.preview),
        }
    }

    /// A copy of this item; `with_image` decides whether the pixels are kept.
    pub fn duplicate(&self, with_image: bool) -> (copy: Self)
        ensures
            copy.data() == (ItemData {
                image: if with_image {
                    self.data().image
                } else {
                    None
                },
                ..self.data()
            }),
    {
        let image = if with_image {
            match &self.image {
                Some(image) => Some(image.duplicate()),
                None => None,
            }
        } else {
            None
        };
        let preview = match &self.preview {
            Some(preview) => Some(preview.clone()),
            None => None,
        };
        ClipboardItem { text: self.text.clone(), hash: self.hash.clone(), image, preview }
    }
}

#[derive(Debug)]
pub struct ClipboardWatcherInitializationError;

impl ClipboardWatcherInitializationError {
    pub fn message(&self) -> (message: &'static str)
        ensures
            message@ == "Failed to initialize clipboard watcher"@,
    {
        "Failed to initialize clipboard watcher"
    }
}

} // verus!
