//! Finding a port to listen on.

use vstd::prelude::*;

verus! {

/// The first port that is tried.
pub const FIRST_PORT: u16 = 8000;

/// The port at which the search ends; it is not tried itself.
pub const END_PORT: u16 = 9000;

/// The address that is tried when the script names none.
pub open spec fn default_address() -> Seq<char> {
    "127.0.0.1"@
}

/// The text for a search that found no port.
pub open spec fn no_port_text() -> Seq<char> {
    "Failed to find an available port..."@
}

/// The address to try: the one that the script named, or the default.
pub fn bind_address(ip: Option<String>) -> (address: String)
    ensures
        address@ == (match ip {
            Some(named) => named@,
            None => default_address(),
        }),
{
    match ip {
        Some(named) => named,
        None => "127.0.0.1".to_owned(),
    }
}

/// The text that scripts are shown when no port was found.
pub fn no_port_message() -> (text: String)
    ensures
        text@ == no_port_text(),
{
    "Failed to find an available port...".to_owned()
}

/// Asks `is_available` about each port from 8000 upwards and answers the
/// first that it accepts, or nothing when it has refused every port below
/// 9000.
pub fn net_find_available_port<F: Fn(u16) -> bool>(is_available: F) -> (port: Option<u16>)
    requires
        forall|candidate: u16| #[trigger] is_available.requires((candidate,)),
    ensures
        match port {
            Some(found) => FIRST_PORT <= found < END_PORT && is_available.ensures((found,), true)
                && forall|lower: u16|
                FIRST_PORT <= lower < found ==> #[trigger] is_available.ensures((lower,), false),
            None => forall|lower: u16|
                FIRST_PORT <= lower < END_PORT ==> #[trigger] is_available.ensures(
                    (lower,),
                    false,
                ),
        },
{
    let mut candidate: u16 = FIRST_PORT;
    while candidate < END_PORT
        invariant
            FIRST_PORT <= candidate <= END_PORT,
            forall|c: u16| #[trigger] is_available.requires((c,)),
            forall|lower: u16|
                FIRST_PORT <= lower < candidate ==> #[trigger] is_available.ensures(
                    (lower,),
                    false,
                ),
        decreases END_PORT - candidate,
    {
        if is_available(candidate) {
            return Some(candidate);
        }
        candidate += 1;
    }
    None
}

} // verus!
