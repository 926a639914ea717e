//! Versioned-slot data structures for optimistic, retry-based reading:
//! a single-slot seqlock, a fixed-length vector of independently versioned
//! slots, and a power-of-two ring buffer with producer and consumer handles.

pub mod seqlock;
pub mod queue;
pub mod vector;

pub use seqlock::ReadError;
pub use seqlock::SeqLock;
pub use seqlock::Seqlock;
pub use queue::Consumer;
pub use queue::Producer;
pub use queue::Queue;
pub use queue::QueueRegion;
pub use queue::COUNT_LIMIT;
pub use queue::QueueError;
pub use queue::QueueHeader;
pub use queue::QueueType;
pub use vector::SeqlockVector;
pub use vector::VectorHeader;
pub use vector::VectorIterator;
