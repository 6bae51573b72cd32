//! The capture session manager: a keyed collection of capture sessions with
//! start/stop/query operations, enforcing at most one live sampling loop per
//! source id.

use vstd::prelude::*;

use crate::frame::FrameBuffer;
use crate::frame::FrameData;
use crate::frame::FramePayload;
use crate::frame::SourceType;
use crate::session::CaptureSession;
use crate::session::MAX_FPS;

verus! {

/// Whether some session in the sequence carries the given id.
pub open spec fn has_id(s: Seq<CaptureSession>, id: Seq<char>) -> bool {
    exists|i: int| 0 <= i < s.len() && s[i].id@ == id
}

/// The index of the session carrying the given id.
pub open spec fn idx_of(s: Seq<CaptureSession>, id: Seq<char>) -> int {
    choose|i: int| 0 <= i < s.len() && s[i].id@ == id
}

/// The session carrying the given id.
pub open spec fn session_for(s: Seq<CaptureSession>, id: Seq<char>) -> CaptureSession
    recommends
        has_id(s, id),
{
    s[idx_of(s, id)]
}

/// Whether a session with the given id exists and its loop is running.
pub open spec fn has_running(s: Seq<CaptureSession>, id: Seq<char>) -> bool {
    has_id(s, id) && session_for(s, id).running
}

/// No two sessions share an id.
pub open spec fn unique_ids(s: Seq<CaptureSession>) -> bool {
    forall|i: int, j: int| 0 <= i < j < s.len() ==> s[i].id@ != s[j].id@
}

/// Manager for the capture sessions of all sources, keyed by source id.
pub struct CaptureManager {
    /// The sessions, at most one per id.
    pub sessions: Vec<CaptureSession>,
    /// Frame rate substituted when a start request omits one.
    pub default_fps: u32,
    /// Output width substituted when a start request omits one.
    pub default_width: u32,
    /// Output height substituted when a start request omits one.
    pub default_height: u32,
}

impl CaptureManager {
    /// The manager's invariant: ids are unique, so each id names at most one
    /// sampling loop.
    pub open spec fn wf(&self) -> bool {
        unique_ids(self.sessions@)
    }

    /// The frame stored for the given id, if the id is known and has
    /// produced one.
    pub open spec fn frame_for(&self, id: Seq<char>) -> Option<FrameData> {
        if has_id(self.sessions@, id) {
            session_for(self.sessions@, id).buffer.latest
        } else {
            None
        }
    }

    /// The frame counter of the given id's session, or zero for an unknown
    /// id.
    pub open spec fn count_for(&self, id: Seq<char>) -> u64 {
        if has_id(self.sessions@, id) {
            session_for(self.sessions@, id).buffer.count
        } else {
            0
        }
    }

    /// The rate a start request ends up with: the default where omitted,
    /// and never above the maximum.
    pub open spec fn effective_fps(&self, fps: Option<u32>) -> u32 {
        let v = match fps {
            Some(v) => v,
            None => self.default_fps,
        };
        if v > MAX_FPS {
            MAX_FPS
        } else {
            v
        }
    }

    /// The width a start request ends up with.
    pub open spec fn effective_width(&self, width: Option<u32>) -> u32 {
        match width {
            Some(v) => v,
            None => self.default_width,
        }
    }

    /// The height a start request ends up with.
    pub open spec fn effective_height(&self, height: Option<u32>) -> u32 {
        match height {
            Some(v) => v,
            None => self.default_height,
        }
    }
}

/// The session a start request constructs: fresh buffer, loop running.
pub open spec fn started_session(
    pre: CaptureManager,
    id: String,
    source_type: SourceType,
    native_id: u32,
    fps: Option<u32>,
    width: Option<u32>,
    height: Option<u32>,
) -> CaptureSession {
    CaptureSession {
        id,
        source_type,
        native_id,
        running: true,
        buffer: FrameBuffer { latest: None, count: 0 },
        fps: pre.effective_fps(fps),
        width: pre.effective_width(width),
        height: pre.effective_height(height),
    }
}

/// How a start request transforms the manager: a no-op for an id whose loop
/// already runs, a replacement for a stopped id, an insertion for a new one.
pub open spec fn start_capture_rel(
    pre: CaptureManager,
    post: CaptureManager,
    r: Result<(), String>,
    id: String,
    source_type: SourceType,
    native_id: u32,
    fps: Option<u32>,
    width: Option<u32>,
    height: Option<u32>,
) -> bool {
    &&& r is Ok
    &&& post.default_fps == pre.default_fps
    &&& post.default_width == pre.default_width
    &&& post.default_height == pre.default_height
    &&& if has_running(pre.sessions@, id@) {
        post == pre
    } else {
        post.sessions@ == if has_id(pre.sessions@, id@) {
            pre.sessions@.update(
                idx_of(pre.sessions@, id@),
                started_session(pre, id, source_type, native_id, fps, width, height),
            )
        } else {
            pre.sessions@.push(
                started_session(pre, id, source_type, native_id, fps, width, height),
            )
        }
    }
}

/// How a stop request transforms the manager: the id's session is removed;
/// stopping an unknown id changes nothing.
pub open spec fn stop_capture_rel(
    pre: CaptureManager,
    post: CaptureManager,
    r: Result<(), String>,
    id: Seq<char>,
) -> bool {
    &&& r is Ok
    &&& post.default_fps == pre.default_fps
    &&& post.default_width == pre.default_width
    &&& post.default_height == pre.default_height
    &&& post.sessions@ == if has_id(pre.sessions@, id) {
        pre.sessions@.remove(idx_of(pre.sessions@, id))
    } else {
        pre.sessions@
    }
}

/// The ids of the sessions whose loop is running, in storage order.
pub open spec fn running_ids(s: Seq<CaptureSession>) -> Seq<String>
    decreases s.len(),
{
    if s.len() == 0 {
        Seq::empty()
    } else {
        running_ids(s.drop_last()) + if s.last().running {
            seq![s.last().id]
        } else {
            Seq::empty()
        }
    }
}

impl CaptureManager {
    /// A manager with no sessions and the default sampling configuration.
    pub fn new() -> (m: CaptureManager)
        ensures
            m.wf(),
            m.sessions@.len() == 0,
            m.default_fps == 15,
            m.default_width == 1280,
            m.default_height == 720,
    {
        CaptureManager {
            sessions: Vec::new(),
            default_fps: 15,
            default_width: 1280,
            default_height: 720,
        }
    }

    /// The index of the session with the given id, if present.
    fn find_index(&self, key: &String) -> (r: Option<usize>)
        ensures
            match r {
                Some(i) => 0 <= i < self.sessions@.len() && self.sessions@[i as int].id@ == key@,
                None => !has_id(self.sessions@, key@),
            },
    {
        let mut i: usize = 0;
        while i < self.sessions.len()
            invariant
                i <= self.sessions@.len(),
                forall|j: int| 0 <= j < i ==> self.sessions@[j].id@ != key@,
            decreases self.sessions@.len() - i,
        {
            if self.sessions[i].id.eq(key) {
                return Some(i);
            }
            i = i + 1;
        }
        None
    }

    /// Start capture for a source. If a session for the id exists and is
    /// running, this is a success without effect, so no duplicate sampling
    /// loop can arise. Otherwise a new running session replaces any stopped
    /// one under that id, with defaults substituted for omitted parameters
    /// and the rate clamped to the maximum.
    pub fn start_capture(
        &mut self,
        source_id: String,
        source_type: SourceType,
        native_id: u32,
        fps: Option<u32>,
        width: Option<u32>,
        height: Option<u32>,
    ) -> (r: Result<(), String>)
        requires
            old(self).wf(),
        ensures
            final(self).wf(),
            start_capture_rel(
                *old(self),
                *final(self),
                r,
                source_id,
                source_type,
                native_id,
                fps,
                width,
                height,
            ),
    {
        let fps_given: u32 = match fps {
            Some(v) => v,
            None => self.default_fps,
        };
        let eff_fps: u32 = if fps_given > MAX_FPS {
            MAX_FPS
        } else {
            fps_given
        };
        let eff_width: u32 = match width {
            Some(v) => v,
            None => self.default_width,
        };
        let eff_height: u32 = match height {
            Some(v) => v,
            None => self.default_height,
        };

        let found = self.find_index(&source_id);
        match found {
            Some(i) => {
                proof {
                    lemma_unique_idx_of(self.sessions@, source_id@, i as int);
                }
                if self.sessions[i].is_running() {
                    return Ok(());
                }
                let mut session = match new_session_of(
                    source_id,
                    source_type,
                    native_id,
                    eff_fps,
                    eff_width,
                    eff_height,
                ) {
                    Ok(s) => s,
                    Err(e) => {
                        return Err(e);
                    },
                };
                let started = session.start();
                match started {
                    Ok(_) => {},
                    Err(e) => {
                        return Err(e);
                    },
                }
                let ghost pre = self.sessions@;
                let _ = self.sessions.remove(i);
                self.sessions.insert(i, session);
                proof {
                    assert(self.sessions@ =~= pre.update(
                        i as int,
                        started_session(
                            *old(self),
                            source_id,
                            source_type,
                            native_id,
                            fps,
                            width,
                            height,
                        ),
                    ));
                    lemma_update_same_id_preserves_unique(pre, i as int, self.sessions@[i as int]);
                }
                Ok(())
            },
            None => {
                let mut session = match new_session_of(
                    source_id,
                    source_type,
                    native_id,
                    eff_fps,
                    eff_width,
                    eff_height,
                ) {
                    Ok(s) => s,
                    Err(e) => {
                        return Err(e);
                    },
                };
                let started = session.start();
                match started {
                    Ok(_) => {},
                    Err(e) => {
                        return Err(e);
                    },
                }
                let ghost pre = self.sessions@;
                self.sessions.push(session);
                proof {
                    lemma_push_new_id_preserves_unique(pre, self.sessions@.last());
                }
                Ok(())
            },
        }
    }

    /// Remove and stop the session for the given id; stopping an unknown id
    /// is a no-op success. Afterwards the id is unknown to the manager.
    pub fn stop_capture(&mut self, source_id: &str) -> (r: Result<(), String>)
        requires
            old(self).wf(),
        ensures
            final(self).wf(),
            stop_capture_rel(*old(self), *final(self), r, source_id@),
            !has_id(final(self).sessions@, source_id@),
    {
        let key: String = source_id.to_owned();
        let found = self.find_index(&key);
        match found {
            Some(i) => {
                proof {
                    lemma_unique_idx_of(self.sessions@, source_id@, i as int);
                }
                let ghost pre = self.sessions@;
                let mut session = self.sessions.remove(i);
                let _ = session.stop();
                proof {
                    lemma_remove_preserves_unique(pre, i as int);
                    lemma_remove_unique_id(pre, i as int);
                }
                Ok(())
            },
            None => Ok(()),
        }
    }

    /// Detach and discard every session. New start requests operate on an
    /// empty collection afterwards.
    pub fn stop_all(&mut self) -> (r: Result<(), String>)
        ensures
            r is Ok,
            final(self).wf(),
            final(self).sessions@.len() == 0,
            final(self).default_fps == old(self).default_fps,
            final(self).default_width == old(self).default_width,
            final(self).default_height == old(self).default_height,
    {
        self.sessions.clear();
        Ok(())
    }

    /// The latest frame for the given id, or nothing if the id is unknown or
    /// has not yet produced a frame.
    pub fn get_frame(&self, source_id: &str) -> (r: Option<FramePayload>)
        requires
            self.wf(),
        ensures
            match self.frame_for(source_id@) {
                None => r is None,
                Some(f) => r matches Some(p) && p.source_id@ == source_id@ && p.frame_base64
                    == f.jpeg_base64 && p.timestamp == f.timestamp && p.width == f.width
                    && p.height == f.height,
            },
    {
        let key: String = source_id.to_owned();
        let found = self.find_index(&key);
        match found {
            Some(i) => {
                proof {
                    lemma_unique_idx_of(self.sessions@, source_id@, i as int);
                }
                match self.sessions[i].get_frame() {
                    Some(f) => Some(
                        FramePayload {
                            source_id: key,
                            frame_base64: f.jpeg_base64,
                            timestamp: f.timestamp,
                            width: f.width,
                            height: f.height,
                        },
                    ),
                    None => None,
                }
            },
            None => None,
        }
    }

    /// Whether the given id has a running session.
    pub fn is_capturing(&self, source_id: &str) -> (r: bool)
        requires
            self.wf(),
        ensures
            r == has_running(self.sessions@, source_id@),
    {
        let key: String = source_id.to_owned();
        let found = self.find_index(&key);
        match found {
            Some(i) => {
                proof {
                    lemma_unique_idx_of(self.sessions@, source_id@, i as int);
                }
                self.sessions[i].is_running()
            },
            None => false,
        }
    }

    /// The ids of all sessions whose loop is running; a stopped but not yet
    /// removed session is excluded.
    pub fn active_sources(&self) -> (r: Vec<String>)
        ensures
            r@ == running_ids(self.sessions@),
    {
        let mut out: Vec<String> = Vec::new();
        let mut i: usize = 0;
        while i < self.sessions.len()
            invariant
                i <= self.sessions@.len(),
                out@ == running_ids(self.sessions@.take(i as int)),
            decreases self.sessions@.len() - i,
        {
            proof {
                assert(self.sessions@.take(i + 1 as int).drop_last() =~= self.sessions@.take(
                    i as int,
                ));
                assert(self.sessions@.take(i + 1 as int).last() == self.sessions@[i as int]);
            }
            if self.sessions[i].is_running() {
                out.push(self.sessions[i].id.clone());
                proof {
                    assert(out@ =~= running_ids(self.sessions@.take(i + 1 as int)));
                }
            } else {
                proof {
                    assert(out@ =~= running_ids(self.sessions@.take(i + 1 as int)));
                }
            }
            i = i + 1;
        }
        proof {
            assert(self.sessions@.take(self.sessions@.len() as int) =~= self.sessions@);
        }
        out
    }

    /// The frame counter for the given id, or zero for an unknown id.
    pub fn frame_count(&self, source_id: &str) -> (r: u64)
        requires
            self.wf(),
        ensures
            r == self.count_for(source_id@),
    {
        let key: String = source_id.to_owned();
        let found = self.find_index(&key);
        match found {
            Some(i) => {
                proof {
                    lemma_unique_idx_of(self.sessions@, source_id@, i as int);
                }
                self.sessions[i].frame_count()
            },
            None => 0,
        }
    }

    /// One iteration of the sampling loop of the given id, driven from
    /// outside: hands the platform capture outcome to the session's tick.
    /// Returns the session's frame interval for pacing while the loop should
    /// keep running, and nothing once the id is gone or stopped, upon which
    /// the loop must exit and no further frame is stored.
    pub fn tick_session(&mut self, source_id: &str, capture: Option<Vec<u8>>, timestamp_ms: u64)
        -> (r: Option<u64>)
        requires
            old(self).wf(),
            old(self).count_for(source_id@) < u64::MAX,
            capture matches Some(bytes) ==> 4 * ((bytes@.len() + 2) / 3) <= usize::MAX,
        ensures
            final(self).wf(),
            final(self).default_fps == old(self).default_fps,
            final(self).default_width == old(self).default_width,
            final(self).default_height == old(self).default_height,
            !has_running(old(self).sessions@, source_id@) ==> r is None && *final(self) == *old(
                self,
            ),
            has_running(old(self).sessions@, source_id@) ==> {
                let s = session_for(old(self).sessions@, source_id@);
                &&& (s.fps >= 1 ==> r == Some(1000 as u64 / s.fps as u64))
                &&& (s.fps == 0 ==> r == Some(0u64))
                &&& capture is None ==> *final(self) == *old(self)
                &&& capture matches Some(bytes) ==> final(self).count_for(source_id@) == old(
                    self,
                ).count_for(source_id@) + 1 && (final(self).frame_for(source_id@) matches Some(f)
                    && f.jpeg_base64@ == crate::session::base64_of(bytes@) && f.timestamp
                    == timestamp_ms && f.width == s.width && f.height == s.height)
            },
    {
        let key: String = source_id.to_owned();
        let found = self.find_index(&key);
        match found {
            Some(i) => {
                proof {
                    lemma_unique_idx_of(self.sessions@, source_id@, i as int);
                }
                if !self.sessions[i].is_running() {
                    return None;
                }
                let interval: u64 = if self.sessions[i].fps >= 1 {
                    crate::session::frame_interval_ms(self.sessions[i].fps)
                } else {
                    0
                };
                match capture {
                    None => Some(interval),
                    Some(bytes) => {
                        let ghost pre = self.sessions@;
                        let mut session = self.sessions.remove(i);
                        session.tick(Some(bytes), timestamp_ms);
                        self.sessions.insert(i, session);
                        proof {
                            assert(self.sessions@ =~= pre.update(
                                i as int,
                                self.sessions@[i as int],
                            ));
                            lemma_update_same_id_preserves_unique(
                                pre,
                                i as int,
                                self.sessions@[i as int],
                            );
                            lemma_unique_idx_of(self.sessions@, source_id@, i as int);
                        }
                        Some(interval)
                    },
                }
            },
            None => None,
        }
    }
}

impl Default for CaptureManager {
    /// Same as a fresh manager.
    fn default() -> (m: Self)
        ensures
            m.wf(),
            m.sessions@.len() == 0,
            m.default_fps == 15,
            m.default_width == 1280,
            m.default_height == 720,
    {
        CaptureManager::new()
    }
}

/// A new session of the requested kind, not yet running.
fn new_session_of(
    id: String,
    source_type: SourceType,
    native_id: u32,
    fps: u32,
    width: u32,
    height: u32,
) -> (r: Result<CaptureSession, String>)
    ensures
        r == Ok::<CaptureSession, String>(
            crate::session::fresh_session(id, source_type, native_id, fps, width, height),
        ),
{
    match source_type {
        SourceType::Window => CaptureSession::new_window(id, native_id, fps, width, height),
        SourceType::Screen => CaptureSession::new_screen(id, native_id, fps, width, height),
    }
}

/// In a sequence with unique ids, any index holding the sought id is the
/// chosen one.
pub proof fn lemma_unique_idx_of(s: Seq<CaptureSession>, id: Seq<char>, i: int)
    requires
        unique_ids(s),
        0 <= i < s.len(),
        s[i].id@ == id,
    ensures
        has_id(s, id),
        idx_of(s, id) == i,
        session_for(s, id) == s[i],
{
    assert(has_id(s, id));
    let j = idx_of(s, id);
    assert(0 <= j < s.len() && s[j].id@ == id);
    if i < j {
        assert(s[i].id@ != s[j].id@);
    } else if j < i {
        assert(s[j].id@ != s[i].id@);
    }
}

/// Updating a slot with a session of the same id keeps ids unique.
pub proof fn lemma_update_same_id_preserves_unique(
    s: Seq<CaptureSession>,
    i: int,
    replacement: CaptureSession,
)
    requires
        unique_ids(s),
        0 <= i < s.len(),
        replacement.id@ == s[i].id@,
    ensures
        unique_ids(s.update(i, replacement)),
{
    let t = s.update(i, replacement);
    assert forall|p: int, q: int| 0 <= p < q < t.len() implies t[p].id@ != t[q].id@ by {
        assert(s[p].id@ != s[q].id@);
    }
}

/// Appending a session whose id is not yet present keeps ids unique.
pub proof fn lemma_push_new_id_preserves_unique(s: Seq<CaptureSession>, appended: CaptureSession)
    requires
        unique_ids(s),
        !has_id(s, appended.id@),
    ensures
        unique_ids(s.push(appended)),
{
    let t = s.push(appended);
    assert forall|p: int, q: int| 0 <= p < q < t.len() implies t[p].id@ != t[q].id@ by {
        if q < s.len() {
            assert(s[p].id@ != s[q].id@);
        } else {
            assert(t[q] == appended);
            assert(t[p] == s[p]);
            assert(s[p].id@ != appended.id@);
        }
    }
}

/// Removing a slot keeps ids unique.
pub proof fn lemma_remove_preserves_unique(s: Seq<CaptureSession>, i: int)
    requires
        unique_ids(s),
        0 <= i < s.len(),
    ensures
        unique_ids(s.remove(i)),
{
    let t = s.remove(i);
    assert forall|p: int, q: int| 0 <= p < q < t.len() implies t[p].id@ != t[q].id@ by {
        let sp = if p < i {
            p
        } else {
            p + 1
        };
        let sq = if q < i {
            q
        } else {
            q + 1
        };
        assert(t[p] == s[sp]);
        assert(t[q] == s[sq]);
        assert(s[sp].id@ != s[sq].id@);
    }
}

/// Removing the one slot that carries an id leaves the id unknown.
pub proof fn lemma_remove_unique_id(s: Seq<CaptureSession>, i: int)
    requires
        unique_ids(s),
        0 <= i < s.len(),
    ensures
        !has_id(s.remove(i), s[i].id@),
{
    let t = s.remove(i);
    assert forall|j: int| 0 <= j < t.len() implies t[j].id@ != s[i].id@ by {
        let sj = if j < i {
            j
        } else {
            j + 1
        };
        assert(t[j] == s[sj]);
        if sj < i {
            assert(s[sj].id@ != s[i].id@);
        } else {
            assert(s[i].id@ != s[sj].id@);
        }
    }
}

/// Law: issuing the same start request twice in a row gives the second call
/// no effect — the collection, and so the number of sampling loops, is
/// exactly what the first call left behind.
pub proof fn lemma_start_capture_twice(
    pre: CaptureManager,
    mid: CaptureManager,
    post: CaptureManager,
    r1: Result<(), String>,
    r2: Result<(), String>,
    id: String,
    source_type: SourceType,
    native_id: u32,
    fps: Option<u32>,
    width: Option<u32>,
    height: Option<u32>,
)
    requires
        pre.wf(),
        start_capture_rel(pre, mid, r1, id, source_type, native_id, fps, width, height),
        start_capture_rel(mid, post, r2, id, source_type, native_id, fps, width, height),
    ensures
        post == mid,
{
    if has_running(pre.sessions@, id@) {
        assert(mid == pre);
    } else if has_id(pre.sessions@, id@) {
        let i = idx_of(pre.sessions@, id@);
        assert(pre.sessions@[i].id@ == id@);
        lemma_update_same_id_preserves_unique(pre.sessions@, i, mid.sessions@[i]);
        lemma_unique_idx_of(mid.sessions@, id@, i);
        assert(has_running(mid.sessions@, id@));
    } else {
        let i = pre.sessions@.len() as int;
        lemma_push_new_id_preserves_unique(
            pre.sessions@,
            started_session(pre, id, source_type, native_id, fps, width, height),
        );
        lemma_unique_idx_of(mid.sessions@, id@, i);
        assert(has_running(mid.sessions@, id@));
    }
}

/// Law: once a capture is stopped, polling the same id yields no frame, its
/// counter reads zero, and it is not listed as capturing.
pub proof fn lemma_stop_then_get_frame(
    pre: CaptureManager,
    post: CaptureManager,
    r: Result<(), String>,
    id: Seq<char>,
)
    requires
        pre.wf(),
        stop_capture_rel(pre, post, r, id),
    ensures
        post.frame_for(id) is None,
        post.count_for(id) == 0,
        !has_running(post.sessions@, id),
{
    if has_id(pre.sessions@, id) {
        let i = idx_of(pre.sessions@, id);
        assert(0 <= i < pre.sessions@.len() && pre.sessions@[i].id@ == id);
        lemma_unique_idx_of(pre.sessions@, id, i);
        lemma_remove_unique_id(pre.sessions@, i);
    } else {
        assert(post.sessions@ == pre.sessions@);
    }
}

/// Capabilities of the capture subsystem.
#[derive(Debug, Clone, Copy, PartialEq, Eq, Structural)]
pub struct CaptureCapabilities {
    /// Whether live streaming is supported.
    pub streaming: bool,
    /// Whether window capture is supported.
    pub window_capture: bool,
    /// Whether screen capture is supported.
    pub screen_capture: bool,
    /// Maximum supported rate for streaming.
    pub max_fps: u32,
}

/// What the capture subsystem supports: streaming from windows and screens,
/// up to the clamped maximum rate.
pub fn get_capture_capabilities() -> (r: CaptureCapabilities)
    ensures
        r == (CaptureCapabilities {
            streaming: true,
            window_capture: true,
            screen_capture: true,
            max_fps: MAX_FPS,
        }),
{
    CaptureCapabilities { streaming: true, window_capture: true, screen_capture: true, max_fps: 30 }
}

} // verus!
