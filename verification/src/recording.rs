//! The recording session state machine: Idle, Recording and Paused, the
//! zoom annotation timeline, and the cleanup performed at stop.
//!
//! The encoder process and the clock live outside the library: the caller
//! spawns the encoder before committing a start, and hands the elapsed time
//! and pointer position into each operation that needs them. The state
//! machine decides every transition and what must be persisted.

use vstd::prelude::*;

use crate::tracker::MousePosition;
use crate::tracker::MouseTracker;

verus! {

/// Lifecycle state of the recording session. Idle is both the initial state
/// and the terminal state of every completed cycle.
#[derive(Debug, Clone, Copy, PartialEq, Eq, Structural)]
pub enum RecordingState {
    Idle,
    Recording,
    Paused,
}

/// One zoom annotation: an interval of the recording during which the view
/// is zoomed onto a focal point. Coordinates and scale are fixed-point, in
/// hundredths: positions run from 0 to 10000 (percent of the screen times
/// one hundred), and a scale of 200 means a factor of two.
///
/// A marker is open while `end_ms` is zero; at most one marker is open at a
/// time, and only markers whose end lies after their start are persisted.
#[derive(Debug, Clone, Copy, PartialEq, Eq, Structural)]
pub struct ZoomMarker {
    /// Elapsed time at which the zoom began, in milliseconds.
    pub start_ms: u64,
    /// Elapsed time at which the zoom ended; zero while the marker is open.
    pub end_ms: u64,
    /// Focal point x, in hundredths of a percent of the screen width.
    pub x_centi: u64,
    /// Focal point y, in hundredths of a percent of the screen height.
    pub y_centi: u64,
    /// Zoom factor, in hundredths.
    pub scale_centi: u64,
}

/// What a recording is started with.
#[derive(Debug)]
pub struct RecordingConfig {
    /// Device id of the screen to record, if any was chosen.
    pub screen_id: Option<String>,
    /// Device id of the microphone to record, if any was chosen.
    pub mic_id: Option<String>,
    /// Where the finished recording is written.
    pub output_path: String,
    /// Width of the recorded screen, in points.
    pub screen_width: u32,
    /// Height of the recorded screen, in points.
    pub screen_height: u32,
    /// Origin x of the recorded screen in the global coordinate space.
    pub screen_origin_x: i64,
    /// Origin y of the recorded screen in the global coordinate space.
    pub screen_origin_y: i64,
}

/// What a completed stop hands back for persistence: the output path, the
/// closed zoom markers for the zoom sidecar, and the cursor log for the
/// mouse sidecar.
#[derive(Debug)]
pub struct StopOutcome {
    /// The path the recording was written to.
    pub output_path: String,
    /// The markers worth persisting: exactly those whose end lies after
    /// their start.
    pub markers: Vec<ZoomMarker>,
    /// The cursor samples recorded during the session.
    pub samples: Vec<MousePosition>,
}

/// The marker timeline after force-closing an open marker at time `t`: if
/// the last marker is open it ends at `t`, otherwise nothing changes.
pub open spec fn close_open(ms: Seq<ZoomMarker>, t: u64) -> Seq<ZoomMarker> {
    if ms.len() > 0 && ms.last().end_ms == 0 {
        ms.update(ms.len() - 1, ZoomMarker { end_ms: t, ..ms.last() })
    } else {
        ms
    }
}

/// The markers that are persisted: those whose end lies after their start.
/// Zero-duration and never-closed markers are dropped.
pub open spec fn persisted(ms: Seq<ZoomMarker>) -> Seq<ZoomMarker>
    decreases ms.len(),
{
    if ms.len() == 0 {
        Seq::empty()
    } else {
        persisted(ms.drop_last()) + if ms.last().end_ms > ms.last().start_ms {
            seq![ms.last()]
        } else {
            Seq::empty()
        }
    }
}

/// A screen-space offset as a fraction of a screen dimension, in hundredths
/// of a percent, clamped to the screen: 0 at or below the origin, 10000 at
/// or beyond the far edge.
pub open spec fn spec_percent_centi(rel: int, dim: int) -> u64
    recommends
        dim >= 1,
{
    if rel <= 0 {
        0
    } else if rel >= dim {
        10000
    } else {
        ((rel * 10000) / dim) as u64
    }
}

/// Law: a focal-point coordinate is always normalized — whatever the
/// pointer reads and wherever the screen sits, the stored fraction stays
/// between zero and one hundred percent.
pub proof fn lemma_percent_centi_bounded(rel: int, dim: int)
    requires
        dim >= 1,
    ensures
        spec_percent_centi(rel, dim) <= 10000,
{
    if 0 < rel < dim {
        assert(rel * 10000 < dim * 10000 && 0 <= (rel * 10000) / dim < 10000)
            by (nonlinear_arith)
            requires
                0 < rel < dim,
        ;
    }
}

/// The recording session manager. Owns the lifecycle state, the zoom
/// timeline and the cursor tracker; the encoder process attached while a
/// session runs is represented by `encoder_running`.
pub struct RecordingManager {
    /// Current lifecycle state.
    pub state: RecordingState,
    /// Whether an encoder process is attached; true exactly while the state
    /// is Recording or Paused.
    pub encoder_running: bool,
    /// The cursor tracker; present exactly while the state is Recording or
    /// Paused.
    pub tracker: Option<MouseTracker>,
    /// Output path of the running session, if one runs.
    pub output_path: Option<String>,
    /// The zoom annotation timeline of the current (or last) session.
    pub zoom_markers: Vec<ZoomMarker>,
    /// Whether a zoom marker is currently open.
    pub is_zoomed_in: bool,
    /// Width of the recorded screen, in points; at least one.
    pub screen_width: u32,
    /// Height of the recorded screen, in points; at least one.
    pub screen_height: u32,
    /// Origin x of the recorded screen in the global coordinate space.
    pub screen_origin_x: i64,
    /// Origin y of the recorded screen in the global coordinate space.
    pub screen_origin_y: i64,
}

impl RecordingManager {
    /// The state machine's invariant: encoder and tracker are attached
    /// exactly while a session runs, a running session has an output path,
    /// the tracker runs while attached, the screen dimensions are positive,
    /// and an open zoom means the last marker is open.
    pub open spec fn wf(&self) -> bool {
        &&& (self.state is Idle <==> !self.encoder_running)
        &&& (self.state is Idle <==> self.tracker is None)
        &&& (self.tracker matches Some(t) ==> t.running)
        &&& (!(self.state is Idle) ==> self.output_path is Some)
        &&& (self.state is Idle ==> !self.is_zoomed_in)
        &&& (self.is_zoomed_in ==> self.zoom_markers@.len() > 0 && self.zoom_markers@.last().end_ms
            == 0)
        &&& self.screen_width >= 1
        &&& self.screen_height >= 1
    }
}

/// How starting transforms the manager: from Idle it attaches the encoder
/// and a fresh running tracker, resets the zoom timeline, adopts the
/// configuration with the screen dimensions forced positive, and enters
/// Recording; from any other state it fails without effect.
pub open spec fn start_recording_rel(
    pre: RecordingManager,
    post: RecordingManager,
    r: Result<String, String>,
    config: RecordingConfig,
) -> bool {
    if !(pre.state is Idle) {
        &&& r matches Err(e) && e@ == "Recording is already in progress"@
        &&& post == pre
    } else {
        &&& r matches Ok(p) && p@ == config.output_path@
        &&& post.state is Recording
        &&& post.encoder_running
        &&& post.tracker matches Some(t) && t.running && t.positions@.len() == 0
        &&& post.output_path matches Some(p2) && p2@ == config.output_path@
        &&& post.zoom_markers@.len() == 0
        &&& !post.is_zoomed_in
        &&& post.screen_width == if config.screen_width >= 1 {
            config.screen_width
        } else {
            1u32
        }
        &&& post.screen_height == if config.screen_height >= 1 {
            config.screen_height
        } else {
            1u32
        }
        &&& post.screen_origin_x == config.screen_origin_x
        &&& post.screen_origin_y == config.screen_origin_y
    }
}

/// How pausing transforms the manager: only Recording may pause, and the
/// pause is purely logical — nothing but the state changes.
pub open spec fn pause_recording_rel(
    pre: RecordingManager,
    post: RecordingManager,
    r: Result<(), String>,
) -> bool {
    if pre.state is Recording {
        &&& r is Ok
        &&& post == (RecordingManager { state: RecordingState::Paused, ..pre })
    } else {
        &&& r matches Err(e) && e@ == "Not currently recording"@
        &&& post == pre
    }
}

/// How resuming transforms the manager: only Paused may resume.
pub open spec fn resume_recording_rel(
    pre: RecordingManager,
    post: RecordingManager,
    r: Result<(), String>,
) -> bool {
    if pre.state is Paused {
        &&& r is Ok
        &&& post == (RecordingManager { state: RecordingState::Recording, ..pre })
    } else {
        &&& r matches Err(e) && e@ == "Not currently paused"@
        &&& post == pre
    }
}

/// How stopping transforms the manager: from Recording or Paused it
/// force-closes an open marker at the elapsed time, hands back the output
/// path, the persistable markers and the cursor log, detaches encoder and
/// tracker and returns to Idle; from Idle it fails without effect.
pub open spec fn stop_recording_rel(
    pre: RecordingManager,
    post: RecordingManager,
    r: Result<StopOutcome, String>,
    elapsed_ms: u64,
) -> bool {
    if pre.state is Idle {
        &&& r matches Err(e) && e@ == "No recording in progress"@
        &&& post == pre
    } else {
        let closed = if pre.is_zoomed_in {
            close_open(pre.zoom_markers@, elapsed_ms)
        } else {
            pre.zoom_markers@
        };
        &&& r matches Ok(o) && (pre.output_path matches Some(p) && o.output_path == p) && o.markers@
            == persisted(closed) && (pre.tracker matches Some(t) && o.samples@ == t.positions@)
        &&& post.state is Idle
        &&& !post.encoder_running
        &&& post.tracker is None
        &&& post.output_path is None
        &&& post.zoom_markers@ == closed
        &&& !post.is_zoomed_in
        &&& post.screen_width == pre.screen_width
        &&& post.screen_height == pre.screen_height
        &&& post.screen_origin_x == pre.screen_origin_x
        &&& post.screen_origin_y == pre.screen_origin_y
    }
}

/// How a zoom toggle transforms the manager: only while Recording; with no
/// marker open it opens one at the pointer's position and returns it, with
/// one open it closes it at the elapsed time and returns nothing.
pub open spec fn toggle_zoom_rel(
    pre: RecordingManager,
    post: RecordingManager,
    r: Result<Option<ZoomMarker>, String>,
    scale_centi: u64,
    elapsed_ms: u64,
    pointer_x: int,
    pointer_y: int,
) -> bool {
    if !(pre.state is Recording) {
        &&& r matches Err(e) && e@ == "Not currently recording"@
        &&& post == pre
    } else if pre.is_zoomed_in {
        &&& r == Ok::<Option<ZoomMarker>, String>(None)
        &&& post.zoom_markers@ == close_open(pre.zoom_markers@, elapsed_ms)
        &&& !post.is_zoomed_in
        &&& post == (RecordingManager {
            zoom_markers: post.zoom_markers,
            is_zoomed_in: false,
            ..pre
        })
    } else {
        let m = ZoomMarker {
            start_ms: elapsed_ms,
            end_ms: 0,
            x_centi: spec_percent_centi(
                pointer_x - pre.screen_origin_x,
                pre.screen_width as int,
            ),
            y_centi: spec_percent_centi(
                pointer_y - pre.screen_origin_y,
                pre.screen_height as int,
            ),
            scale_centi,
        };
        &&& r == Ok::<Option<ZoomMarker>, String>(Some(m))
        &&& post.zoom_markers@ == pre.zoom_markers@.push(m)
        &&& post.is_zoomed_in
        &&& post == (RecordingManager {
            zoom_markers: post.zoom_markers,
            is_zoomed_in: true,
            ..pre
        })
    }
}

/// A screen-space coordinate relative to an origin, as a clamped fraction
/// of a screen dimension in hundredths of a percent.
fn percent_centi(pointer: i64, origin: i64, dim: u32) -> (r: u64)
    requires
        dim >= 1,
    ensures
        r == spec_percent_centi(pointer - origin, dim as int),
{
    match pointer.checked_sub(origin) {
        Some(rel) => {
            if rel <= 0 {
                0
            } else if rel >= dim as i64 {
                10000
            } else {
                let num: u64 = (rel as u64) * 10000;
                let q: u64 = num / (dim as u64);
                proof {
                    assert((rel as int) * 10000 < (dim as int) * 10000 && (rel as int) * 10000 / (
                    dim as int) < 10000) by (nonlinear_arith)
                        requires
                            0 < rel < dim,
                    ;
                }
                q
            }
        },
        None => {
            if origin < 0 {
                10000
            } else {
                0
            }
        },
    }
}

impl RecordingManager {
    /// A manager at rest: Idle, nothing attached, empty zoom timeline and a
    /// default screen geometry.
    pub fn new() -> (m: RecordingManager)
        ensures
            m.wf(),
            m.state is Idle,
            !m.encoder_running,
            m.tracker is None,
            m.output_path is None,
            m.zoom_markers@.len() == 0,
            !m.is_zoomed_in,
            m.screen_width == 1920,
            m.screen_height == 1080,
            m.screen_origin_x == 0,
            m.screen_origin_y == 0,
    {
        RecordingManager {
            state: RecordingState::Idle,
            encoder_running: false,
            tracker: None,
            output_path: None,
            zoom_markers: Vec::new(),
            is_zoomed_in: false,
            screen_width: 1920,
            screen_height: 1080,
            screen_origin_x: 0,
            screen_origin_y: 0,
        }
    }

    /// Current lifecycle state. Pure read.
    pub fn state(&self) -> (r: RecordingState)
        ensures
            r == self.state,
    {
        self.state
    }

    /// Begin a recording session. Valid only from Idle; the caller attaches
    /// the encoder process it has already spawned for `config`.
    pub fn start_recording(&mut self, config: &RecordingConfig) -> (r: Result<String, String>)
        requires
            old(self).wf(),
        ensures
            final(self).wf(),
            start_recording_rel(*old(self), *final(self), r, *config),
    {
        match self.state {
            RecordingState::Idle => {},
            _ => {
                return Err("Recording is already in progress".to_owned());
            },
        }
        let mut tracker = MouseTracker::new();
        tracker.start();
        self.tracker = Some(tracker);
        self.encoder_running = true;
        self.output_path = Some(config.output_path.clone());
        self.zoom_markers = Vec::new();
        self.is_zoomed_in = false;
        self.screen_width = if config.screen_width >= 1 {
            config.screen_width
        } else {
            1
        };
        self.screen_height = if config.screen_height >= 1 {
            config.screen_height
        } else {
            1
        };
        self.screen_origin_x = config.screen_origin_x;
        self.screen_origin_y = config.screen_origin_y;
        self.state = RecordingState::Recording;
        Ok(config.output_path.clone())
    }

    /// Pause the session. Valid only from Recording; the pause is logical —
    /// the encoder keeps running and nothing but the state changes.
    pub fn pause_recording(&mut self) -> (r: Result<(), String>)
        requires
            old(self).wf(),
        ensures
            final(self).wf(),
            pause_recording_rel(*old(self), *final(self), r),
    {
        match self.state {
            RecordingState::Recording => {
                self.state = RecordingState::Paused;
                Ok(())
            },
            _ => Err("Not currently recording".to_owned()),
        }
    }

    /// Resume the session. Valid only from Paused.
    pub fn resume_recording(&mut self) -> (r: Result<(), String>)
        requires
            old(self).wf(),
        ensures
            final(self).wf(),
            resume_recording_rel(*old(self), *final(self), r),
    {
        match self.state {
            RecordingState::Paused => {
                self.state = RecordingState::Recording;
                Ok(())
            },
            _ => Err("Not currently paused".to_owned()),
        }
    }

    /// End the session at the given elapsed time. Valid from Recording or
    /// Paused. Any open zoom marker is force-closed, and the outcome carries
    /// everything the caller persists: the output path, the markers whose
    /// end lies after their start, and the cursor log.
    pub fn stop_recording(&mut self, elapsed_ms: u64) -> (r: Result<StopOutcome, String>)
        requires
            old(self).wf(),
        ensures
            final(self).wf(),
            stop_recording_rel(*old(self), *final(self), r, elapsed_ms),
    {
        match self.state {
            RecordingState::Idle => {
                return Err("No recording in progress".to_owned());
            },
            _ => {},
        }
        self.encoder_running = false;

        let samples: Vec<MousePosition> = match self.tracker.take() {
            Some(mut t) => {
                t.stop();
                t.positions
            },
            None => {
                proof {
                    assert(false);
                }
                Vec::new()
            },
        };

        if self.is_zoomed_in {
            let n = self.zoom_markers.len();
            if n > 0 {
                let ghost pre_markers = self.zoom_markers@;
                let mut last = match self.zoom_markers.pop() {
                    Some(m) => m,
                    None => {
                        proof {
                            assert(false);
                        }
                        ZoomMarker { start_ms: 0, end_ms: 0, x_centi: 0, y_centi: 0, scale_centi: 0 }
                    },
                };
                if last.end_ms == 0 {
                    last.end_ms = elapsed_ms;
                }
                self.zoom_markers.push(last);
                proof {
                    assert(self.zoom_markers@ =~= close_open(pre_markers, elapsed_ms));
                }
            }
            self.is_zoomed_in = false;
        }

        let markers = persisted_markers(&self.zoom_markers);

        let output_path: String = match self.output_path.take() {
            Some(p) => p,
            None => {
                proof {
                    assert(false);
                }
                String::new()
            },
        };

        self.state = RecordingState::Idle;
        Ok(StopOutcome { output_path, markers, samples })
    }

    /// Toggle the zoom annotation at the given elapsed time and pointer
    /// position. Valid only while Recording: the first call opens a marker
    /// at the pointer's position as a fraction of the recorded screen and
    /// returns it, the next closes it and returns nothing.
    pub fn toggle_zoom(
        &mut self,
        scale_centi: u64,
        elapsed_ms: u64,
        pointer_x: i64,
        pointer_y: i64,
    ) -> (r: Result<Option<ZoomMarker>, String>)
        requires
            old(self).wf(),
        ensures
            final(self).wf(),
            toggle_zoom_rel(
                *old(self),
                *final(self),
                r,
                scale_centi,
                elapsed_ms,
                pointer_x as int,
                pointer_y as int,
            ),
    {
        match self.state {
            RecordingState::Recording => {},
            _ => {
                return Err("Not currently recording".to_owned());
            },
        }
        if self.is_zoomed_in {
            let ghost pre_markers = self.zoom_markers@;
            let n = self.zoom_markers.len();
            if n > 0 {
                let mut last = match self.zoom_markers.pop() {
                    Some(m) => m,
                    None => {
                        proof {
                            assert(false);
                        }
                        ZoomMarker { start_ms: 0, end_ms: 0, x_centi: 0, y_centi: 0, scale_centi: 0 }
                    },
                };
                if last.end_ms == 0 {
                    last.end_ms = elapsed_ms;
                }
                self.zoom_markers.push(last);
                proof {
                    assert(self.zoom_markers@ =~= close_open(pre_markers, elapsed_ms));
                }
            }
            self.is_zoomed_in = false;
            Ok(None)
        } else {
            let marker = ZoomMarker {
                start_ms: elapsed_ms,
                end_ms: 0,
                x_centi: percent_centi(pointer_x, self.screen_origin_x, self.screen_width),
                y_centi: percent_centi(pointer_y, self.screen_origin_y, self.screen_height),
                scale_centi,
            };
            self.zoom_markers.push(marker);
            self.is_zoomed_in = true;
            Ok(Some(marker))
        }
    }

    /// Append one cursor sample observed by the sampling loop. Outside a
    /// session there is no tracker and the sample is dropped.
    pub fn record_cursor_sample(&mut self, x: i64, y: i64, timestamp_ms: u64)
        requires
            old(self).wf(),
        ensures
            final(self).wf(),
            old(self).state is Idle ==> *final(self) == *old(self),
            !(old(self).state is Idle) ==> (old(self).tracker matches Some(t0)
                && final(self).tracker matches Some(t1) && t1.running && t1.positions@
                == t0.positions@.push(MousePosition { x, y, timestamp_ms })) && *final(self) == (
            RecordingManager { tracker: final(self).tracker, ..*old(self) }),
    {
        match &mut self.tracker {
            Some(t) => {
                t.record_sample(x, y, timestamp_ms);
            },
            None => {},
        }
    }
}

/// The markers worth persisting, in order: exactly those whose end lies
/// after their start.
fn persisted_markers(ms: &Vec<ZoomMarker>) -> (r: Vec<ZoomMarker>)
    ensures
        r@ == persisted(ms@),
{
    let mut out: Vec<ZoomMarker> = Vec::new();
    let mut i: usize = 0;
    while i < ms.len()
        invariant
            i <= ms@.len(),
            out@ == persisted(ms@.take(i as int)),
        decreases ms@.len() - i,
    {
        proof {
            assert(ms@.take(i + 1 as int).drop_last() =~= ms@.take(i as int));
            assert(ms@.take(i + 1 as int).last() == ms@[i as int]);
        }
        if ms[i].end_ms > ms[i].start_ms {
            out.push(ms[i]);
            proof {
                assert(out@ =~= persisted(ms@.take(i + 1 as int)));
            }
        } else {
            proof {
                assert(out@ =~= persisted(ms@.take(i + 1 as int)));
            }
        }
        i = i + 1;
    }
    proof {
        assert(ms@.take(ms@.len() as int) =~= ms@);
    }
    out
}

/// Law: opening a zoom and closing it again leaves exactly one new marker,
/// and — started from a fresh timeline — exactly one persisted marker, whose
/// end lies strictly after its start.
pub proof fn lemma_toggle_zoom_round_trip(
    pre: RecordingManager,
    mid: RecordingManager,
    post: RecordingManager,
    r1: Result<Option<ZoomMarker>, String>,
    r2: Result<Option<ZoomMarker>, String>,
    scale1: u64,
    scale2: u64,
    t1: u64,
    t2: u64,
    px1: int,
    py1: int,
    px2: int,
    py2: int,
)
    requires
        pre.wf(),
        pre.state is Recording,
        !pre.is_zoomed_in,
        pre.zoom_markers@.len() == 0,
        t1 < t2,
        toggle_zoom_rel(pre, mid, r1, scale1, t1, px1, py1),
        toggle_zoom_rel(mid, post, r2, scale2, t2, px2, py2),
    ensures
        post.zoom_markers@.len() == 1,
        persisted(post.zoom_markers@) == post.zoom_markers@,
        post.zoom_markers@[0].start_ms == t1,
        post.zoom_markers@[0].end_ms == t2,
        post.zoom_markers@[0].end_ms > post.zoom_markers@[0].start_ms,
        !post.is_zoomed_in,
{
    let m = ZoomMarker {
        start_ms: t1,
        end_ms: 0,
        x_centi: spec_percent_centi(px1 - pre.screen_origin_x, pre.screen_width as int),
        y_centi: spec_percent_centi(py1 - pre.screen_origin_y, pre.screen_height as int),
        scale_centi: scale1,
    };
    assert(mid.zoom_markers@ =~= seq![m]);
    let closed = ZoomMarker { end_ms: t2, ..m };
    assert(post.zoom_markers@ =~= seq![closed]);
    assert(persisted(post.zoom_markers@) =~= seq![closed]) by {
        assert(post.zoom_markers@.drop_last() =~= Seq::<ZoomMarker>::empty());
        assert(persisted(Seq::<ZoomMarker>::empty()) =~= Seq::<ZoomMarker>::empty());
        assert(post.zoom_markers@.last() == closed);
    }
}

/// Law: opening a zoom and then stopping the recording persists exactly one
/// marker, whose end equals the elapsed time at stop.
pub proof fn lemma_toggle_then_stop(
    pre: RecordingManager,
    mid: RecordingManager,
    post: RecordingManager,
    r1: Result<Option<ZoomMarker>, String>,
    r2: Result<StopOutcome, String>,
    scale: u64,
    t1: u64,
    t2: u64,
    px: int,
    py: int,
)
    requires
        pre.wf(),
        pre.state is Recording,
        !pre.is_zoomed_in,
        pre.zoom_markers@.len() == 0,
        t1 < t2,
        toggle_zoom_rel(pre, mid, r1, scale, t1, px, py),
        stop_recording_rel(mid, post, r2, t2),
    ensures
        r2 matches Ok(o) && o.markers@.len() == 1 && o.markers@[0].start_ms == t1
            && o.markers@[0].end_ms == t2,
{
    let m = ZoomMarker {
        start_ms: t1,
        end_ms: 0,
        x_centi: spec_percent_centi(px - pre.screen_origin_x, pre.screen_width as int),
        y_centi: spec_percent_centi(py - pre.screen_origin_y, pre.screen_height as int),
        scale_centi: scale,
    };
    assert(mid.zoom_markers@ =~= seq![m]);
    let closed = ZoomMarker { end_ms: t2, ..m };
    assert(close_open(mid.zoom_markers@, t2) =~= seq![closed]);
    assert(persisted(seq![closed]) =~= seq![closed]) by {
        assert(seq![closed].drop_last() =~= Seq::<ZoomMarker>::empty());
        assert(persisted(Seq::<ZoomMarker>::empty()) =~= Seq::<ZoomMarker>::empty());
        assert(seq![closed].last() == closed);
    }
}

/// Law: pausing outside Recording — in particular from Idle — fails and
/// leaves the manager exactly as it was; and a second start without an
/// intervening stop fails and leaves the running session untouched.
pub proof fn lemma_wrong_state_is_harmless(
    pre: RecordingManager,
    post: RecordingManager,
    mid2: RecordingManager,
    post2: RecordingManager,
    r: Result<(), String>,
    r1: Result<String, String>,
    r2: Result<String, String>,
    config1: RecordingConfig,
    config2: RecordingConfig,
)
    requires
        pre.state is Idle,
        pause_recording_rel(pre, post, r),
        start_recording_rel(pre, mid2, r1, config1),
        start_recording_rel(mid2, post2, r2, config2),
    ensures
        r is Err,
        post == pre,
        post.state is Idle,
        r2 matches Err(e) && e@ == "Recording is already in progress"@,
        post2 == mid2,
{
}

} // verus!
