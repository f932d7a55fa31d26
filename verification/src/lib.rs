pub mod build;
pub mod cli;
pub mod discover;
pub mod error;
pub mod ffmpeg;
pub mod log;
pub mod plan;
pub mod text;

pub use build::machine::{BuildMachine, Job, Outcome, Phase, Reaction};
pub use build::{BinaryOptions, BuildOptions, BuildResult, EncodeOptions};
pub use discover::{discover_entries, DiscoverResult, FileEntry, Orphan, OrphanKind, Pair};
pub use error::{ErrorKind, ErrorPayload, VideoGenError};
pub use log::{BuildEvent, LogMode, SegmentStatus};
pub use plan::{plan_segments, PlanOptions, Segment, SegmentKind, Unit};
