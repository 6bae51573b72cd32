//! A capture session: the state of one background sampling loop for one
//! window or screen source.
//!
//! The session itself is a value; the thread that drives it lives outside the
//! library. Each loop iteration hands the outcome of the platform's
//! single-frame capture call to [`CaptureSession::tick`], which encodes and
//! stores the frame (or skips a failed tick), and then sleeps for the time
//! [`pacing_sleep_ms`] computes from the frame interval.

use vstd::prelude::*;

use crate::frame::FrameBuffer;
use crate::frame::FrameData;
use crate::frame::SourceType;
use crate::frame::stored;

verus! {

/// What the base64 encoding of a byte sequence reads as; determined by the
/// bytes alone.
pub uninterp spec fn base64_of(bytes: Seq<u8>) -> Seq<char>;

/// Relies on base64's `Engine::encode` with the `STANDARD` engine: the output
/// is the padded base64 text of the input, a function of the input bytes
/// alone, of length `4 * ceil(n / 3)`. The length bound keeps the input out
/// of the range where `encode` aborts computing its buffer size.
#[verifier::external_body]
fn base64_encode(bytes: &Vec<u8>) -> (r: String)
    requires
        4 * ((bytes@.len() + 2) / 3) <= usize::MAX,
    ensures
        r@ == base64_of(bytes@),
        r@.len() == 4 * ((bytes@.len() + 2) / 3),
{
    base64::engine::Engine::encode(&base64::engine::general_purpose::STANDARD, bytes)
}

/// The live-preview capture of a still image is comparatively expensive, so
/// requested frame rates are clamped to this maximum.
pub const MAX_FPS: u32 = 30;

/// One capture session: identity of the source, the sampling configuration,
/// whether its loop should be running, and the buffer holding its freshest
/// frame.
pub struct CaptureSession {
    /// Caller-assigned id of this source.
    pub id: String,
    /// Whether the source is a window or a screen.
    pub source_type: SourceType,
    /// Platform-native identifier of the source.
    pub native_id: u32,
    /// Whether the background sampling loop is (to be) running.
    pub running: bool,
    /// Holds the most recent captured frame.
    pub buffer: FrameBuffer,
    /// Target sampling rate in frames per second.
    pub fps: u32,
    /// Nominal output width recorded on each frame.
    pub width: u32,
    /// Nominal output height recorded on each frame.
    pub height: u32,
}

/// A freshly constructed, not yet running session.
pub open spec fn fresh_session(
    id: String,
    source_type: SourceType,
    native_id: u32,
    fps: u32,
    width: u32,
    height: u32,
) -> CaptureSession {
    CaptureSession {
        id,
        source_type,
        native_id,
        running: false,
        buffer: FrameBuffer { latest: None, count: 0 },
        fps,
        width,
        height,
    }
}

impl CaptureSession {
    /// Create a new capture session for a window.
    pub fn new_window(id: String, window_id: u32, fps: u32, width: u32, height: u32) -> (r:
        Result<Self, String>)
        ensures
            r == Ok::<Self, String>(
                fresh_session(id, SourceType::Window, window_id, fps, width, height),
            ),
    {
        Ok(
            CaptureSession {
                id,
                source_type: SourceType::Window,
                native_id: window_id,
                running: false,
                buffer: FrameBuffer::new(),
                fps,
                width,
                height,
            },
        )
    }

    /// Create a new capture session for a screen.
    pub fn new_screen(id: String, screen_id: u32, fps: u32, width: u32, height: u32) -> (r:
        Result<Self, String>)
        ensures
            r == Ok::<Self, String>(
                fresh_session(id, SourceType::Screen, screen_id, fps, width, height),
            ),
    {
        Ok(
            CaptureSession {
                id,
                source_type: SourceType::Screen,
                native_id: screen_id,
                running: false,
                buffer: FrameBuffer::new(),
                fps,
                width,
                height,
            },
        )
    }

    /// Mark the session as running. Idempotent: starting a session that is
    /// already running changes nothing, so no second loop is ever called for.
    pub fn start(&mut self) -> (r: Result<(), String>)
        ensures
            r is Ok,
            *final(self) == (CaptureSession { running: true, ..*old(self) }),
    {
        self.running = true;
        Ok(())
    }

    /// Signal the sampling loop to exit. After the driving thread observes
    /// this and finishes, no further frame is stored.
    pub fn stop(&mut self) -> (r: Result<(), String>)
        ensures
            r is Ok,
            *final(self) == (CaptureSession { running: false, ..*old(self) }),
    {
        self.running = false;
        Ok(())
    }

    /// Whether the sampling loop is running. Pure state read.
    pub fn is_running(&self) -> (r: bool)
        ensures
            r == self.running,
    {
        self.running
    }

    /// The latest captured frame, if any.
    pub fn get_frame(&self) -> (r: Option<FrameData>)
        ensures
            r == self.buffer.latest,
    {
        self.buffer.get_frame()
    }

    /// How many frames this session has stored.
    pub fn frame_count(&self) -> (r: u64)
        ensures
            r == self.buffer.count,
    {
        self.buffer.frame_count()
    }

    /// The session's frame buffer.
    pub fn buffer(&self) -> (r: &FrameBuffer)
        ensures
            r == &self.buffer,
    {
        &self.buffer
    }

    /// One iteration of the sampling loop, given the outcome of the
    /// platform's single-frame capture call and the current timestamp.
    ///
    /// On a successful capture the encoded frame is stored wholesale and the
    /// frame counter moves by one; a failed capture is absorbed silently and
    /// the session is left exactly as it was.
    pub fn tick(&mut self, capture: Option<Vec<u8>>, timestamp_ms: u64)
        requires
            old(self).running,
            old(self).buffer.count < u64::MAX,
            capture matches Some(bytes) ==> 4 * ((bytes@.len() + 2) / 3) <= usize::MAX,
        ensures
            capture is None ==> *final(self) == *old(self),
            capture matches Some(bytes) ==> final(self).buffer.count == old(self).buffer.count + 1
                && (final(self).buffer.latest matches Some(f) && f.jpeg_base64@ == base64_of(
                bytes@,
            ) && f.timestamp == timestamp_ms && f.width == old(self).width && f.height == old(
                self,
            ).height) && *final(self) == (CaptureSession {
                buffer: final(self).buffer,
                ..*old(self)
            }),
    {
        match capture {
            Some(bytes) => {
                let frame = FrameData {
                    jpeg_base64: base64_encode(&bytes),
                    timestamp: timestamp_ms,
                    width: self.width,
                    height: self.height,
                };
                self.buffer.store_frame(frame);
            },
            None => {},
        }
    }
}

/// The nominal duration of one frame at the given rate, in milliseconds.
pub fn frame_interval_ms(fps: u32) -> (r: u64)
    requires
        fps >= 1,
    ensures
        r == 1000 as u64 / fps as u64,
{
    1000 / (fps as u64)
}

/// How long the sampling loop sleeps after a tick: the remainder of the
/// frame interval, or nothing if the tick already took at least that long —
/// the next capture then starts immediately, and no backlog accumulates.
pub fn pacing_sleep_ms(interval_ms: u64, elapsed_ms: u64) -> (r: u64)
    ensures
        r == if elapsed_ms < interval_ms {
            interval_ms - elapsed_ms
        } else {
            0
        },
{
    if elapsed_ms < interval_ms {
        interval_ms - elapsed_ms
    } else {
        0
    }
}

} // verus!
