use vstd::prelude::*;

verus! {

/// What a microphone task shows while a program records, unless the configuration says
/// otherwise.
pub fn default_active() -> (r: String)
    ensures
        r@ == "active"@,
{
    "active".to_owned()
}

/// What a microphone task shows: `active` where `recording` programs record, nothing where
/// none does.
pub fn status_text(recording: usize, active: &str) -> (r: Option<String>)
    ensures
        r is Some <==> recording > 0,
        r matches Some(text) ==> text@ == active@,
{
    if recording > 0 {
        Some(active.to_owned())
    } else {
        None
    }
}

} // verus!
