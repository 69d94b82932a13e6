pub mod clock;
pub mod ids;
pub mod log;
pub mod message;
pub mod node;
pub mod quorum;
pub mod state;
