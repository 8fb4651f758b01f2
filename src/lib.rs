pub mod gig;
pub mod identity;
pub mod laws;
pub mod registry;

pub use gig::{DataKey, Gig, GigError, GigStatus, Submission};
pub use identity::{AuthContext, Identity};
pub use registry::GigContract;
