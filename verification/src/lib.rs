//! Logic of a small LED-and-buzzer show device: a timed-action sequence
//! interpreter, a weighted random walk over a fixed state graph, a 16-bit
//! xorshift pseudorandom generator, a note-to-frequency table, and the
//! bit-level plan for a serial shift-register update.

pub mod interp;
pub mod notes;
pub mod rng;
pub mod shifter;
pub mod walk;

pub use interp::run;
pub use interp::Action;
pub use interp::Command;

pub use notes::frequency_for;
pub use notes::NOTES;

pub use rng::init_rand;
pub use rng::next_rand;
pub use rng::txs16;
pub use rng::update_rand;
pub use rng::xorshift16;

pub use shifter::update_ops;
pub use shifter::LineOp;
pub use shifter::Pin;

pub use walk::next_id;
pub use walk::Edge;
pub use walk::Node;
