//! A per-session duplex relay between a local audio producer and a cloud
//! realtime speech-recognition service.
//!
//! The library holds the verified core: the session registry that maps
//! session identifiers to their audio-ingest queues, the ingest relay that
//! forwards queued frames upstream in order, the dispatch step that decodes
//! inbound result frames, filters and deduplicates transcripts, and answers
//! keepalive probes. The surrounding runtime (socket I/O, task spawning,
//! event delivery) is an unverified shell around these functions.

pub mod connect;
pub mod decode;
pub mod dispatch;
pub mod error;
pub mod filter;
pub mod queue;
pub mod registry;
pub mod relay;
pub mod sink;

pub use dispatch::DispatchAction;
pub use dispatch::InboundFrame;
pub use dispatch::dispatch_step;
pub use dispatch::run_dispatch;
pub use error::SessionError;
pub use filter::TranscriptEvent;
pub use filter::TranscriptFilter;
pub use queue::FrameQueue;
pub use queue::INGEST_CAPACITY;
pub use registry::PushOutcome;
pub use registry::Registry;
pub use sink::OutboundFrame;
pub use sink::UpstreamSink;
