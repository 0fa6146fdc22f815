//! The decisions of the discovery loop and the device connector: which
//! transport to scan with, which advertised devices to consider, which
//! device names belong to the supported sensor family, how often to retry a
//! connection, and which GATT characteristic carries the readings.
//!
//! The radio itself — scanning, connecting, subscribing — is driven by the
//! application, which consults these functions at each decision point.

use vstd::prelude::*;

use vstd::slice::slice_index_get;
use vstd::string::StringSliceAdditionalSpecFns;

verus! {

/// The transport a discovery scan uses.
#[derive(Clone, Copy, PartialEq, Eq, Structural, Debug)]
pub enum DiscoveryTransport {
    Le,
    BrEdr,
    Auto,
}

/// The transport selected by the two command-line switches: low-energy only
/// wins over classic only; with neither, the adapter chooses.
pub open spec fn spec_select_transport(le_only: bool, br_edr_only: bool) -> DiscoveryTransport {
    if le_only {
        DiscoveryTransport::Le
    } else if br_edr_only {
        DiscoveryTransport::BrEdr
    } else {
        DiscoveryTransport::Auto
    }
}

/// Select the discovery transport from the two command-line switches.
pub fn select_transport(le_only: bool, br_edr_only: bool) -> (r: DiscoveryTransport)
    ensures
        r == spec_select_transport(le_only, br_edr_only),
{
    if le_only {
        DiscoveryTransport::Le
    } else if br_edr_only {
        DiscoveryTransport::BrEdr
    } else {
        DiscoveryTransport::Auto
    }
}

/// A discovered address qualifies when the allow-list is empty or carries
/// that address.
pub open spec fn spec_address_allowed(filter: Seq<String>, address: Seq<char>) -> bool {
    filter.len() == 0 || exists|j: int| 0 <= j < filter.len() && filter[j]@ == address
}

/// Whether a discovered device address passes the optional allow-list.
pub fn address_allowed(filter: &Vec<String>, address: &String) -> (r: bool)
    ensures
        r == spec_address_allowed(filter@, address@),
{
    if filter.len() == 0 {
        return true;
    }
    let mut j: usize = 0;
    while j < filter.len()
        invariant
            j <= filter@.len(),
            forall|a: int| 0 <= a < j ==> #[trigger] filter@[a]@ != address@,
        decreases filter@.len() - j,
    {
        if filter[j] == *address {
            return true;
        }
        j += 1;
    }
    false
}

/// The advertised-name prefix of the supported sensor family, as bytes:
/// `TP357`.
pub open spec fn spec_sensor_family(name: Seq<u8>) -> bool {
    name.len() >= 5 && name[0] == 84 && name[1] == 80 && name[2] == 51 && name[3] == 53 && name[4]
        == 55
}

/// Whether an advertised device name starts with the sensor family's
/// `TP357` prefix; only such devices are connected to.
pub fn sensor_family_matches(name: &str) -> (r: bool)
    ensures
        r == spec_sensor_family(name.spec_bytes()),
{
    let bytes = name.as_bytes();
    bytes.len() >= 5 && *slice_index_get(bytes, 0) == 84 && *slice_index_get(bytes, 1) == 80
        && *slice_index_get(bytes, 2) == 51 && *slice_index_get(bytes, 3) == 53 && *slice_index_get(
        bytes,
        4,
    ) == 55
}

/// How many connection attempts the connector makes for one device before
/// giving up on it for this discovery event.
pub const CONNECT_ATTEMPTS: u8 = 3;

/// Whether the connector should try connecting again after `failures`
/// failed attempts: it retries until the attempt budget of
/// `CONNECT_ATTEMPTS` is spent, then surfaces the last error.
pub fn should_retry(failures: u8) -> (r: bool)
    ensures
        r == (failures < CONNECT_ATTEMPTS),
{
    failures < CONNECT_ATTEMPTS
}

/// The 128-bit identifier of the GATT characteristic whose notifications
/// carry sensor readings.
pub const SENSOR_CHARACTERISTIC_UUID: u128 = 0x000102030405060708090a0b0c0d2b10;

/// Whether a characteristic's identifier is the one the notification
/// reader subscribes to; the connector returns the first match.
pub fn is_sensor_characteristic(uuid: u128) -> (r: bool)
    ensures
        r == (uuid == SENSOR_CHARACTERISTIC_UUID),
{
    uuid == SENSOR_CHARACTERISTIC_UUID
}

} // verus!
