use vstd::prelude::*;

verus! {

/// The kind of radio that an rfkill event speaks of when it speaks of Bluetooth.
pub const RFKILL_TYPE_BLUETOOTH: u8 = 2;

/// Whether the rfkill event `event` says that a Bluetooth radio is on: its kind, the fifth
/// byte, is Bluetooth, and neither the soft block, the seventh byte, nor the hard block, the
/// eighth, is set.
pub open spec fn enables(event: Seq<u8>) -> bool {
    event.len() >= 8 && event[4] == RFKILL_TYPE_BLUETOOTH && event[6] == 0 && event[7] == 0
}

/// Whether the rfkill event `event` says that a Bluetooth radio is on.
pub fn event_enables(event: &Vec<u8>) -> (r: bool)
    ensures
        r == enables(event@),
{
    event.len() >= 8 && event[4] == RFKILL_TYPE_BLUETOOTH && event[6] == 0 && event[7] == 0
}

/// What a Bluetooth task shows while a radio is on, unless the configuration says otherwise.
pub fn default_enabled() -> (r: String)
    ensures
        r@ == "enabled"@,
{
    "enabled".to_owned()
}

/// What a Bluetooth task shows: `enabled` where a radio is on, nothing where none is.
pub fn status_text(is_enabled: bool, enabled: &str) -> (r: Option<String>)
    ensures
        r is Some <==> is_enabled,
        r matches Some(text) ==> text@ == enabled@,
{
    if is_enabled {
        Some(enabled.to_owned())
    } else {
        None
    }
}

} // verus!
