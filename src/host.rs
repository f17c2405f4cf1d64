use vstd::prelude::*;

verus! {

/// Relies on `hostname::get`: the name the operating system reports for this
/// machine, converted lossily to UTF-8; `None` where the call fails.
#[verifier::external_body]
pub fn system_hostname() -> (r: Option<String>) {
    hostname::get().ok().map(|h| h.to_string_lossy().to_string())
}

} // verus!
