//! What two-factor authentication needs to know of an account.
use vstd::prelude::*;

verus! {

/// An account, as far as two-factor authentication reads it.
#[derive(Debug)]
pub struct User {
    pub id: String,
    pub email: String,
    pub name: Option<String>,
    /// The code that recovers the account when every second factor is lost.
    pub totp_recover: Option<String>,
}

/// The secret by which a signed-in user confirms a request.
#[derive(Debug)]
pub struct PasswordOrOtpData {
    pub master_password_hash: Option<String>,
    pub otp: Option<String>,
}

} // verus!
