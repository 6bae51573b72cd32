//! Single-slot frame storage: the freshest captured frame of one source.

use vstd::prelude::*;

verus! {

/// Kind of capture source.
#[derive(Debug, Clone, Copy, PartialEq, Eq, Structural)]
pub enum SourceType {
    Window,
    Screen,
}

/// One captured frame: the encoded image as base64 text plus metadata.
#[derive(Debug)]
pub struct FrameData {
    /// Encoded still image (JPEG) as base64 text.
    pub jpeg_base64: String,
    /// Capture timestamp in milliseconds.
    pub timestamp: u64,
    /// Nominal frame width.
    pub width: u32,
    /// Nominal frame height.
    pub height: u32,
}

impl Clone for FrameData {
    fn clone(&self) -> (r: Self)
        ensures
            r == *self,
    {
        FrameData {
            jpeg_base64: self.jpeg_base64.clone(),
            timestamp: self.timestamp,
            width: self.width,
            height: self.height,
        }
    }
}

/// A frame together with the id of the source it came from, as handed to
/// a caller polling for preview data.
#[derive(Debug)]
pub struct FramePayload {
    pub source_id: String,
    pub frame_base64: String,
    pub timestamp: u64,
    pub width: u32,
    pub height: u32,
}

impl Clone for FramePayload {
    fn clone(&self) -> (r: Self)
        ensures
            r == *self,
    {
        FramePayload {
            source_id: self.source_id.clone(),
            frame_base64: self.frame_base64.clone(),
            timestamp: self.timestamp,
            width: self.width,
            height: self.height,
        }
    }
}

/// Single-slot, overwrite-latest store for the most recent frame of one
/// source. No history is kept: each store replaces the held frame wholesale
/// and bumps the monotonic counter, and those are its only effects.
pub struct FrameBuffer {
    /// The most recently stored frame, if any frame was ever stored.
    pub latest: Option<FrameData>,
    /// How many frames have been stored since creation.
    pub count: u64,
}

/// The buffer state after one store: the frame is held and the counter has
/// moved by one.
pub open spec fn stored(b: FrameBuffer, f: FrameData) -> FrameBuffer {
    FrameBuffer { latest: Some(f), count: (b.count + 1) as u64 }
}

/// The buffer state after a whole sequence of stores, first to last.
pub open spec fn stored_all(b: FrameBuffer, fs: Seq<FrameData>) -> FrameBuffer
    decreases fs.len(),
{
    if fs.len() == 0 {
        b
    } else {
        stored(stored_all(b, fs.drop_last()), fs.last())
    }
}

impl FrameBuffer {
    /// An empty buffer: no frame yet, counter at zero.
    pub fn new() -> (b: FrameBuffer)
        ensures
            b.latest is None,
            b.count == 0,
    {
        FrameBuffer { latest: None, count: 0 }
    }

    /// Replace the held frame unconditionally and increment the counter.
    pub fn store_frame(&mut self, frame: FrameData)
        requires
            old(self).count < u64::MAX,
        ensures
            *final(self) == stored(*old(self), frame),
            final(self).latest == Some(frame),
            final(self).count == old(self).count + 1,
    {
        self.latest = Some(frame);
        self.count = self.count + 1;
    }

    /// The most recently stored frame, or nothing if never written.
    pub fn get_frame(&self) -> (r: Option<FrameData>)
        ensures
            r == self.latest,
    {
        match &self.latest {
            Some(f) => Some(f.clone()),
            None => None,
        }
    }

    /// How many frames have been stored so far.
    pub fn frame_count(&self) -> (r: u64)
        ensures
            r == self.count,
    {
        self.count
    }
}

impl Default for FrameBuffer {
    /// Same as a fresh buffer.
    fn default() -> (b: Self)
        ensures
            b.latest is None,
            b.count == 0,
    {
        FrameBuffer::new()
    }
}

/// Law: for a sequence of stores issued in order, the buffer afterwards holds
/// exactly the last stored frame, and its counter has advanced by the number
/// of stores.
pub proof fn lemma_store_sequence(b: FrameBuffer, fs: Seq<FrameData>)
    requires
        fs.len() > 0,
        b.count + fs.len() <= u64::MAX,
    ensures
        stored_all(b, fs).latest == Some(fs.last()),
        stored_all(b, fs).count == b.count + fs.len(),
    decreases fs.len(),
{
    if fs.len() == 1 {
        assert(fs.drop_last().len() == 0);
    } else {
        lemma_store_sequence(b, fs.drop_last());
    }
}

} // verus!
