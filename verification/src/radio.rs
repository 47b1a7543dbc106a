//! Whether an adapter can serve, and what to do when it refuses a beacon.

use vstd::prelude::*;
use vstd::string::*;

use crate::text::{comma_list, comma_separated, same, string_views};

verus! {

/// Why the radio cannot be used.
#[derive(Debug, PartialEq, Eq)]
pub enum OpenError {
    /// A condition that goes away on its own: the Bluetooth service is not up yet, or the user
    /// switched the adapter off.
    Retry(String),
    /// One that never will.
    Fatal(String),
}

impl OpenError {
    pub fn to_string(&self) -> (s: String)
        ensures
            s@ == (match *self {
                OpenError::Retry(e) => e@,
                OpenError::Fatal(e) => e@,
            }),
    {
        match self {
            OpenError::Retry(e) => e.clone(),
            OpenError::Fatal(e) => e.clone(),
        }
    }
}

/// The secondary channel that a beacon needs: it is longer than what legacy advertising
/// carries.
pub const CHANNEL: &'static str = "OneM";

/// What an adapter that is switched off is told.
pub open spec fn off_text(name: Seq<char>) -> Seq<char> {
    "adapter "@ + name + " is powered off (bluetoothctl power on, or the Bluetooth switch in the bar)"@
}

/// What an adapter without extended advertising is told.
pub open spec fn legacy_text(name: Seq<char>, channels: Seq<Seq<char>>) -> Seq<char> {
    "adapter "@ + name
        + " has no extended advertising (BLE 5): the theme beacon needs it. BlueZ reports secondary channels {"@
        + comma_list(channels) + "}"@
}

/// Whether an adapter can serve. One that is switched off is waited for, since the user has
/// decided; one without extended advertising is refused for good.
pub fn judge_adapter(name: &str, powered: bool, channels: &Vec<String>) -> (r: Result<
    (),
    OpenError,
>)
    ensures
        match r {
            Ok(_) => powered && string_views(channels@).contains(CHANNEL@),
            Err(OpenError::Retry(e)) => !powered && e@ == off_text(name@),
            Err(OpenError::Fatal(e)) => powered && !string_views(channels@).contains(CHANNEL@)
                && e@ == legacy_text(name@, string_views(channels@)),
        },
{
    let mut s = "adapter ".to_owned();
    s.append(name);
    if !powered {
        s.append(" is powered off (bluetoothctl power on, or the Bluetooth switch in the bar)");
        return Err(OpenError::Retry(s));
    }
    let ghost all = string_views(channels@);
    let mut i: usize = 0;
    while i < channels.len()
        invariant
            i <= channels@.len(),
            powered,
            all == string_views(channels@),
            forall|j: int| 0 <= j < i ==> #[trigger] all[j] != CHANNEL@,
        decreases channels@.len() - i,
    {
        assert(all[i as int] == channels@[i as int]@);
        if same(channels[i].as_str(), CHANNEL) {
            assert(all.contains(CHANNEL@));
            return Ok(());
        }
        i += 1;
    }
    s.append(
        " has no extended advertising (BLE 5): the theme beacon needs it. BlueZ reports secondary channels {",
    );
    s.append(comma_separated(channels).as_str());
    s.append("}");
    Err(OpenError::Fatal(s))
}

/// What to do when a beacon could not be registered.
#[derive(Debug, Clone, Copy, PartialEq, Eq, Structural)]
pub enum RegisterStep {
    /// Drop the beacon that is on the air, and try once more: the adapter may have no room for
    /// two.
    DropAndRetry,
    GiveUp,
}

/// What to do when a beacon could not be registered. A new beacon is registered before the old
/// one is dropped, so that a registration that fails leaves the old one on the air.
pub fn register_step(on_air: bool) -> (r: RegisterStep)
    ensures
        r == (if on_air {
            RegisterStep::DropAndRetry
        } else {
            RegisterStep::GiveUp
        }),
{
    if on_air {
        RegisterStep::DropAndRetry
    } else {
        RegisterStep::GiveUp
    }
}

/// A beacon that cannot be registered beside the one on the air is tried again in its place; one
/// that cannot be registered though nothing is on the air is given up.
pub proof fn lemma_register_again(on_air: bool, r: RegisterStep)
    requires
        call_ensures(register_step, (on_air,), r),
    ensures
        on_air <==> r == RegisterStep::DropAndRetry,
        !on_air <==> r == RegisterStep::GiveUp,
{
}

/// An adapter that is switched on and has the channel serves, whatever else it has; one that is
/// switched off is waited for, and one that lacks the channel is refused for good.
pub proof fn lemma_adapters(
    name: &str,
    powered: bool,
    channels: &Vec<String>,
    r: Result<(), OpenError>,
)
    requires
        call_ensures(judge_adapter, (name, powered, channels), r),
    ensures
        !powered <==> r is Err && r->Err_0 is Retry,
        r is Ok <==> powered && exists|i: int|
            0 <= i < channels@.len() && (#[trigger] channels@[i])@ == "OneM"@,
        r is Err && r->Err_0 is Fatal <==> powered && forall|i: int|
            0 <= i < channels@.len() ==> (#[trigger] channels@[i])@ != "OneM"@,
{
    let all = string_views(channels@);
    if all.contains("OneM"@) {
        let i = choose|i: int| 0 <= i < all.len() && all[i] == "OneM"@;
        assert(channels@[i]@ == "OneM"@);
    }
    assert forall|i: int| 0 <= i < channels@.len() && (#[trigger] channels@[i])@ == "OneM"@ implies
        all.contains("OneM"@) by {
        assert(all[i] == "OneM"@);
    }
}

} // verus!
