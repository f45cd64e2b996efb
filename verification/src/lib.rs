//! Planning and sequencing logic for a clip-based video editor and screen
//! recorder: a timeline compositing planner that turns a declarative list of
//! clips, tracks and effects into an ordered sequence of transcoding steps,
//! and a capture synchronization engine that computes the timing correction
//! needed to merge two independently started capture streams.

pub mod audio;
pub mod capture;
pub mod filters;
pub mod ingest;
pub mod media;
pub mod pip;
pub mod plan;
pub mod probe;
pub mod subtitle;
pub mod timeline;
pub mod text;
pub mod timecode;
