use vstd::prelude::*;

verus! {

/// Relies on std::time::SystemTime::now: the current time as whole seconds
/// since the Unix epoch (zero if the clock reads before the epoch). The
/// result depends on the machine's clock, so nothing is promised of it.
#[verifier::external_body]
pub(crate) fn current_unix_secs() -> u64 {
    match std::time::SystemTime::now().duration_since(std::time::UNIX_EPOCH) {
        Ok(d) => d.as_secs(),
        Err(_) => 0,
    }
}

} // verus!
