//! What a window capture is asked for, and what the preview area keeps of the captures that
//! come back.

use vstd::prelude::*;

verus! {

/// What a capture is for, which decides where the app files the frame.
#[derive(Clone, Copy, Debug, PartialEq, Eq, Structural)]
pub enum CaptureKind {
    /// The large preview of the selected window.
    Preview,
    /// A row thumbnail in icon mode.
    Thumbnail,
}

pub struct CaptureRequest {
    pub window_id: u32,
    pub kind: CaptureKind,
    pub full_desktop: bool,
    /// Pixel size of the preview area; the capture is fitted into it with its aspect ratio kept.
    pub pixel_width: usize,
    pub pixel_height: usize,
}


/// The note shown where a preview is missing because Screen Recording is not allowed.
pub const SCREEN_RECORDING_NOTE: &'static str = "Allow Screen Recording in System Settings to see previews";

/// Why no capture is asked for while the shareable content has not arrived.
pub const PREVIEW_LOADING: &'static str = "Preview is loading";

/// Why no capture is asked for a window that the shareable content does not hold.
pub const NOT_CAPTURABLE: &'static str = "This window cannot be captured";

/// Where, among the ids of the shareable windows (`None` while they have not arrived), the
/// window that a capture of `window_id` is made from stands: the first with that id. While
/// nothing has arrived the preview is loading; a window that is not among them cannot be
/// captured.
pub fn capture_source(shareable: Option<&[u32]>, window_id: u32) -> (found: Result<
    usize,
    &'static str,
>)
    ensures
        match shareable {
            None => found == Err::<usize, &'static str>(PREVIEW_LOADING),
            Some(ids) => match found {
                Ok(index) => index < ids@.len() && ids@[index as int] == window_id && forall|j: int|
                    0 <= j < index ==> ids@[j] != window_id,
                Err(message) => message == NOT_CAPTURABLE && !ids@.contains(window_id),
            },
        },
{
    let ids = match shareable {
        None => return Err(PREVIEW_LOADING),
        Some(ids) => ids,
    };
    let mut index: usize = 0;
    while index < ids.len()
        invariant
            index <= ids@.len(),
            shareable == Some(ids),
            forall|j: int| 0 <= j < index ==> ids@[j] != window_id,
        decreases ids@.len() - index,
    {
        if ids[index] == window_id {
            return Ok(index);
        }
        index = index + 1;
    }
    Err(NOT_CAPTURABLE)
}

/// What a capture gave back: a frame, or why there is none.
pub enum CaptureOutcome<I> {
    Image(I),
    Unavailable(&'static str),
}

/// What the preview area holds: the last frame and the window it shows, why the last capture
/// gave none, and whether a capture is on its way. `I` is the frame as the platform holds it.
pub struct PreviewState<I> {
    pub image: Option<I>,
    pub window: Option<u32>,
    pub message: Option<&'static str>,
    pub in_flight: bool,
}

impl<I> PreviewState<I> {
    /// An empty preview area: no frame, no note, no capture on its way.
    pub fn new() -> (state: Self)
        ensures
            state.image is None,
            state.window is None,
            state.message is None,
            !state.in_flight,
    {
        PreviewState { image: None, window: None, message: None, in_flight: false }
    }

    /// A capture of `window_id` came back while `selected` is the selected window of a session
    /// that is `active`. Only a capture of the window still selected is kept: a frame replaces
    /// the last one and clears the note; a refusal keeps the last frame of the same window and
    /// notes why. Says whether the panel must redraw.
    pub fn captured(
        &mut self,
        window_id: u32,
        selected: Option<u32>,
        active: bool,
        outcome: CaptureOutcome<I>,
    ) -> (redraw: bool)
        ensures
            !final(self).in_flight,
            redraw == (active && selected == Some(window_id)),
            !redraw ==> final(self).image == old(self).image && final(self).window == old(
                self,
            ).window && final(self).message == old(self).message,
            redraw ==> final(self).window == Some(window_id),
            redraw ==> match outcome {
                CaptureOutcome::Image(image) => final(self).image == Some(image)
                    && final(self).message is None,
                CaptureOutcome::Unavailable(message) => final(self).message == Some(message)
                    && final(self).image == if old(self).window == Some(window_id) {
                    old(self).image
                } else {
                    None
                },
            },
    {
        self.in_flight = false;
        if !active || selected != Some(window_id) {
            return false;
        }
        match outcome {
            CaptureOutcome::Image(image) => {
                self.image = Some(image);
                self.message = None;
            },
            CaptureOutcome::Unavailable(message) => {
                if self.window != Some(window_id) {
                    self.image = None;
                }
                self.message = Some(message);
            },
        }
        self.window = Some(window_id);
        true
    }

    /// A capture of `window_id` could not be asked for, for `message`: a frame of another window
    /// is dropped, and the note says why.
    pub fn refused(&mut self, window_id: u32, message: &'static str)
        ensures
            final(self).window == Some(window_id),
            final(self).message == Some(message),
            final(self).image == if old(self).window == Some(window_id) {
                old(self).image
            } else {
                None
            },
            final(self).in_flight == old(self).in_flight,
    {
        if self.window != Some(window_id) {
            self.image = None;
            self.window = Some(window_id);
        }
        self.message = Some(message);
    }

    /// Whether the last frame shows: it is of the `selected` window.
    pub fn shows_image(&self, selected: Option<u32>) -> (shown: bool)
        ensures
            shown == (self.image is Some && selected is Some && self.window == selected),
    {
        self.image.is_some() && selected.is_some() && self.window == selected
    }

    /// The note in the preview area for the `selected` window: none while no window is
    /// selected or its frame shows; else that Screen Recording is needed, where it is not
    /// `screen_recording_granted`; else why the last capture gave no frame.
    pub fn note(&self, selected: Option<u32>, screen_recording_granted: bool) -> (note: Option<
        &'static str,
    >)
        ensures
            note == if selected is None || (self.image is Some && self.window == selected) {
                None
            } else if !screen_recording_granted {
                Some(SCREEN_RECORDING_NOTE)
            } else {
                self.message
            },
    {
        if selected.is_none() || self.shows_image(selected) {
            None
        } else if !screen_recording_granted {
            Some(SCREEN_RECORDING_NOTE)
        } else {
            self.message
        }
    }
}

} // verus!
