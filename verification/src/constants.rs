//! The verbs and routes of the server's interface.

use vstd::prelude::*;

verus! {

pub const POST: &'static str = "POST";

pub const GET: &'static str = "GET";

pub const OPAQUE_REGISTRATION_START: &'static str = "/opaque/registration/start";

pub const OPAQUE_REGISTRATION_FINISH: &'static str = "/opaque/registration/finish";

pub const OPAQUE_LOGIN_START: &'static str = "/opaque/login/start";

pub const OPAQUE_LOGIN_FINISH: &'static str = "/opaque/login/finish";

pub const VAULT: &'static str = "/vault";

} // verus!
