//! Live capture streaming and recording session lifecycle.
//!
//! The crate models the core of a screen-recording application: a single-slot
//! frame buffer for low-latency preview, polling capture sessions with their
//! keyed manager, a cursor tracker, the recording state machine with its zoom
//! annotation timeline, and the sidecar formats the recorder persists next to
//! a finished recording.

pub mod devices;
pub mod export;
pub mod frame;
pub mod manager;
pub mod recording;
pub mod segments;
pub mod session;
pub mod sidecar;
pub mod tracker;

pub use devices::AudioRecorder;
pub use devices::CameraRecorder;
pub use devices::ScreenRecorder;
pub use export::ExportManager;
pub use frame::FrameBuffer;
pub use frame::FrameData;
pub use frame::FramePayload;
pub use frame::SourceType;
pub use manager::CaptureCapabilities;
pub use manager::CaptureManager;
pub use recording::RecordingConfig;
pub use recording::RecordingManager;
pub use recording::RecordingState;
pub use recording::StopOutcome;
pub use recording::ZoomMarker;
pub use segments::Segment;
pub use session::CaptureSession;
pub use tracker::MousePosition;
pub use tracker::MouseTracker;
