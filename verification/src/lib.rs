//! A minimal password-management library: a keyed in-memory store of password
//! records partitioned by an owning identity, a strength validator, and a
//! deterministic pseudo-random password generator.
//!
//! The hosting layer supplies the caller identity and the current time as
//! explicit arguments to every operation; the library itself performs no I/O.

pub mod errors;
pub mod generate;
pub mod laws;
pub mod password;
pub mod principal;
pub mod store;
pub mod validate;

pub use errors::Error;
pub use errors::ValidationError;
pub use password::Password;
pub use password::PasswordPayload;
pub use password::PasswordView;
pub use principal::Principal;
pub use store::PasswordStore;
pub use validate::validate_password;
