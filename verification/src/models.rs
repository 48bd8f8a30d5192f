//! The records of the service and the bodies of its requests.
pub mod twofactor;
pub mod user;
