//! Verified state machines for classical synchronization problems.
//!
//! Each module holds the shared state of one problem together with the
//! decisions taken on it while its lock is held.  Blocking, sleeping and
//! spawning are left to the caller: a caller locks the state, asks whether
//! it may proceed, waits while it may not, and then performs the step.
pub mod barbershop;
pub mod barrier;
pub mod cigarette;
pub mod clinic;
pub mod bounded_buffer;
pub mod dining;
pub mod fifo_queue;
pub mod fifo_semaphore;
pub mod kv_cache;
pub mod peak;
pub mod random;
pub mod rw_lock;
pub mod sushi_bar;
pub mod water_daemon;
pub mod water_factory;
