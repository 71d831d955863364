//! Verified core of a small media player: stream selection and timing
//! bookkeeping of the decoder, audio/video synchronisation decisions, the
//! streaming mel-frame planner of the subtitle recogniser, the share/chat
//! message protocol, and a few text and sorting routines.
pub mod arith;
pub mod error;
pub mod sorting;
pub mod subset_sum;
pub mod division;
pub mod timing;
pub mod clock;
pub mod media;
pub mod sync;
pub mod text;
pub mod protocol;
pub mod subtitle;
