//! Shared HTTP security headers for API responses.
use vstd::prelude::*;

verus! {

pub const HSTS: &'static str = "max-age=31536000; includeSubDomains";

pub const X_CONTENT_TYPE_OPTIONS: &'static str = "nosniff";

pub const X_FRAME_OPTIONS: &'static str = "DENY";

pub const REFERRER_POLICY: &'static str = "no-referrer";

/// A response header.
#[derive(Debug)]
pub struct Header {
    pub name: &'static str,
    pub value: &'static str,
}

/// The headers that every API response carries, in the place of any value it had for them.
pub fn layers() -> (r: (Header, Header, Header, Header))
    ensures
        r.0.name@ == "strict-transport-security"@ && r.0.value@ == HSTS@,
        r.1.name@ == "x-content-type-options"@ && r.1.value@ == X_CONTENT_TYPE_OPTIONS@,
        r.2.name@ == "x-frame-options"@ && r.2.value@ == X_FRAME_OPTIONS@,
        r.3.name@ == "referrer-policy"@ && r.3.value@ == REFERRER_POLICY@,
{
    (
        Header { name: "strict-transport-security", value: HSTS },
        Header { name: "x-content-type-options", value: X_CONTENT_TYPE_OPTIONS },
        Header { name: "x-frame-options", value: X_FRAME_OPTIONS },
        Header { name: "referrer-policy", value: REFERRER_POLICY },
    )
}

} // verus!
