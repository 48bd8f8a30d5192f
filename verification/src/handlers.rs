//! The two-factor requests of the service.
pub mod commit;
pub mod email;
pub mod flow;
pub mod gate;
pub mod laws;
pub mod outcomes;
pub mod replies;
pub mod totp;
pub mod twofactor;
pub mod webauthn;
pub mod yubikey;
