//! Payload-protocol registry and the checks on consumer registrations.

use vstd::prelude::*;

verus! {

/// Protocol version carried inside a frame body. It is distinct from the outer
/// framing byte.
pub const PROTOCOL_VERSION: u32 = 1;

/// Control-plane hello protocol.
pub const CONTROL_PAYLOAD_PROTOCOL: u32 = 0x00;

/// Admin request/reply protocol.
pub const ADMIN_PAYLOAD_PROTOCOL: u32 = 0xAD01;

/// Same-endpoint daemon-identity nonce probe protocol.
pub const BACKEND_HANDLE_PROBE_PAYLOAD_PROTOCOL: u32 = 0xB232;

/// Handoff offer and acknowledgment protocol.
pub const HANDOFF_PAYLOAD_PROTOCOL: u32 = 0xD0FF;

/// Session proxy data-plane protocol.
pub const SESSION_PAYLOAD_PROTOCOL: u32 = 0x5350;

/// Inclusive lower bound for centrally registered consumer protocols.
pub const CONSUMER_PAYLOAD_PROTOCOL_MIN: u32 = 0x7000;

/// Inclusive upper bound for centrally registered consumer protocols.
pub const CONSUMER_PAYLOAD_PROTOCOL_MAX: u32 = 0x7EFF;

/// Inclusive lower bound for private-use protocols.
pub const PRIVATE_USE_PAYLOAD_PROTOCOL_MIN: u32 = 0xF000;

/// Inclusive upper bound for private-use protocols.
pub const PRIVATE_USE_PAYLOAD_PROTOCOL_MAX: u32 = 0xFFFF;

/// Registered consumer value for zccache.
pub const ZCCACHE_PAYLOAD_PROTOCOL: u32 = 0x7A63;

/// Registered consumer value for clud.
pub const CLUD_PAYLOAD_PROTOCOL: u32 = 0x7C4C;

/// Registered consumer value for fbuild.
pub const FBUILD_PAYLOAD_PROTOCOL: u32 = 0x7EB1;

/// First-party protocols that consumer values must not overlap.
pub const FIRST_PARTY_PAYLOAD_PROTOCOLS: [u32; 4] = [
    CONTROL_PAYLOAD_PROTOCOL,
    ADMIN_PAYLOAD_PROTOCOL,
    BACKEND_HANDLE_PROBE_PAYLOAD_PROTOCOL,
    HANDOFF_PAYLOAD_PROTOCOL,
];

/// Whether `id` belongs to a first-party subsystem.
pub open spec fn first_party(id: u32) -> bool {
    ||| id == CONTROL_PAYLOAD_PROTOCOL
    ||| id == ADMIN_PAYLOAD_PROTOCOL
    ||| id == BACKEND_HANDLE_PROBE_PAYLOAD_PROTOCOL
    ||| id == HANDOFF_PAYLOAD_PROTOCOL
}

/// Whether `id` is in the registered-consumer range.
pub open spec fn registered_consumer(id: u32) -> bool {
    CONSUMER_PAYLOAD_PROTOCOL_MIN <= id <= CONSUMER_PAYLOAD_PROTOCOL_MAX
}

/// Whether `id` is in the private-use range.
pub open spec fn private_use(id: u32) -> bool {
    PRIVATE_USE_PAYLOAD_PROTOCOL_MIN <= id <= PRIVATE_USE_PAYLOAD_PROTOCOL_MAX
}

/// Decides [`first_party`].
pub fn is_first_party(id: u32) -> (b: bool)
    ensures
        b == first_party(id),
{
    let mut index: usize = 0;
    while index < 4
        invariant
            index <= 4,
            forall|j: int| 0 <= j < index ==> FIRST_PARTY_PAYLOAD_PROTOCOLS@[j] != id,
        decreases 4 - index,
    {
        if FIRST_PARTY_PAYLOAD_PROTOCOLS[index] == id {
            return true;
        }
        index = index + 1;
    }
    assert(FIRST_PARTY_PAYLOAD_PROTOCOLS@[0] == CONTROL_PAYLOAD_PROTOCOL);
    assert(FIRST_PARTY_PAYLOAD_PROTOCOLS@[1] == ADMIN_PAYLOAD_PROTOCOL);
    assert(FIRST_PARTY_PAYLOAD_PROTOCOLS@[2] == BACKEND_HANDLE_PROBE_PAYLOAD_PROTOCOL);
    assert(FIRST_PARTY_PAYLOAD_PROTOCOLS@[3] == HANDOFF_PAYLOAD_PROTOCOL);
    false
}

/// Decides [`registered_consumer`].
pub fn is_registered_consumer_id(id: u32) -> (b: bool)
    ensures
        b == registered_consumer(id),
{
    id >= CONSUMER_PAYLOAD_PROTOCOL_MIN && id <= CONSUMER_PAYLOAD_PROTOCOL_MAX
}

/// Decides [`private_use`].
pub fn is_private_use_id(id: u32) -> (b: bool)
    ensures
        b == private_use(id),
{
    id >= PRIVATE_USE_PAYLOAD_PROTOCOL_MIN && id <= PRIVATE_USE_PAYLOAD_PROTOCOL_MAX
}

/// Why a consumer may not register a payload protocol.
#[derive(Clone, Copy, Debug, PartialEq, Eq, Structural)]
pub enum RegistrationError {
    /// The value belongs to a first-party subsystem.
    FirstPartyCollision,
    /// The value is in neither the registered-consumer nor the private-use range.
    OutsideAllowedRanges,
}

/// Checks a consumer's payload protocol and hands it back.
pub fn register_payload_protocol(id: u32) -> (r: Result<u32, RegistrationError>)
    ensures
        r == (if first_party(id) {
            Err::<u32, RegistrationError>(RegistrationError::FirstPartyCollision)
        } else if registered_consumer(id) || private_use(id) {
            Ok(id)
        } else {
            Err(RegistrationError::OutsideAllowedRanges)
        }),
{
    if is_first_party(id) {
        return Err(RegistrationError::FirstPartyCollision);
    }
    if is_registered_consumer_id(id) || is_private_use_id(id) {
        return Ok(id);
    }
    Err(RegistrationError::OutsideAllowedRanges)
}

/// No value that a consumer can register belongs to a first-party subsystem,
/// and the two consumer ranges do not overlap.
pub proof fn law_consumer_ranges_are_disjoint(id: u32)
    ensures
        !(first_party(id) && registered_consumer(id)),
        !(first_party(id) && private_use(id)),
        !(registered_consumer(id) && private_use(id)),
{
}

/// First-party values are pairwise distinct.
pub proof fn law_first_party_ids_are_distinct(i: int, j: int)
    requires
        0 <= i < j < 4,
    ensures
        FIRST_PARTY_PAYLOAD_PROTOCOLS@[i] != FIRST_PARTY_PAYLOAD_PROTOCOLS@[j],
{
    assert(FIRST_PARTY_PAYLOAD_PROTOCOLS@[0] == CONTROL_PAYLOAD_PROTOCOL);
    assert(FIRST_PARTY_PAYLOAD_PROTOCOLS@[1] == ADMIN_PAYLOAD_PROTOCOL);
    assert(FIRST_PARTY_PAYLOAD_PROTOCOLS@[2] == BACKEND_HANDLE_PROBE_PAYLOAD_PROTOCOL);
    assert(FIRST_PARTY_PAYLOAD_PROTOCOLS@[3] == HANDOFF_PAYLOAD_PROTOCOL);
}

/// Which numbers are whose: 0x0000, 0xAD01, 0xB232 and 0xD0FF are reserved, 0x7000 to
/// 0x7EFF are registered centrally, and 0xF000 to 0xFFFF are for private use.
pub proof fn law_ranges(id: u32)
    ensures
        first_party(id) <==> (id == 0 || id == 0xAD01 || id == 0xB232 || id == 0xD0FF),
        registered_consumer(id) <==> 0x7000 <= id <= 0x7EFF,
        private_use(id) <==> 0xF000 <= id <= 0xFFFF,
{
}

} // verus!
