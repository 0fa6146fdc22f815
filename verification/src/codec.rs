//! Payload codec: raw notification bytes from a TP357-family sensor into a
//! temperature/humidity reading.
//!
//! Temperatures are fixed-point throughout the crate: tenths of a degree
//! Celsius in a signed 16-bit value (232 stands for 23.2 °C).

use vstd::prelude::*;

verus! {

/// One reading from a temperature/humidity sensor, tagged with the address
/// of the device that produced it. `temperature` is in tenths of a degree
/// Celsius; `humidity` is a percentage.
#[derive(Debug, PartialEq, Eq)]
pub struct TPSensorData {
    pub address: String,
    pub temperature: i16,
    pub humidity: u8,
}

/// Mathematical image of a `TPSensorData`.
#[verifier::ext_equal]
pub struct ReadingView {
    pub address: Seq<char>,
    pub temperature: i16,
    pub humidity: u8,
}

impl View for TPSensorData {
    type V = ReadingView;

    open spec fn view(&self) -> ReadingView {
        ReadingView {
            address: self.address@,
            temperature: self.temperature,
            humidity: self.humidity,
        }
    }
}

impl Clone for TPSensorData {
    fn clone(&self) -> (r: Self)
        ensures
            r == *self,
    {
        TPSensorData {
            address: self.address.clone(),
            temperature: self.temperature,
            humidity: self.humidity,
        }
    }
}

/// The temperature encoded in a well-formed payload: a signed 16-bit
/// little-endian value at byte offsets 3 and 4, in tenths of a degree.
pub open spec fn payload_temperature(data: Seq<u8>) -> i16
    recommends
        data.len() >= 6,
{
    let word = data[3] + 256 * data[4];
    if word >= 32768 {
        (word - 65536) as i16
    } else {
        word as i16
    }
}

/// The humidity percentage encoded in a well-formed payload: the unsigned
/// byte at offset 5.
pub open spec fn payload_humidity(data: Seq<u8>) -> u8
    recommends
        data.len() >= 6,
{
    data[5]
}

/// Decode one notification payload. Payloads shorter than 6 bytes carry no
/// reading and are rejected; anything else yields the encoded temperature
/// (tenths of a degree Celsius) and humidity (percent), with no further
/// range validation.
pub fn decode_payload(data: &Vec<u8>) -> (r: Option<(i16, u8)>)
    ensures
        data@.len() < 6 ==> r is None,
        data@.len() >= 6 ==> r == Some((payload_temperature(data@), payload_humidity(data@))),
{
    if data.len() < 6 {
        return None;
    }
    let word: u32 = data[3] as u32 + data[4] as u32 * 256;
    let temp: i32 = if word >= 32768 {
        word as i32 - 65536
    } else {
        word as i32
    };
    assert(-32768 <= temp <= 32767);
    Some((temp as i16, data[5]))
}

/// Decode one notification payload and tag the resulting reading with the
/// address of the device it came from. Rejects exactly the payloads that
/// `decode_payload` rejects.
pub fn decode_reading(address: &String, data: &Vec<u8>) -> (r: Option<TPSensorData>)
    ensures
        data@.len() < 6 ==> r is None,
        data@.len() >= 6 ==> (r matches Some(s) && s@ == (ReadingView {
            address: address@,
            temperature: payload_temperature(data@),
            humidity: payload_humidity(data@),
        })),
{
    match decode_payload(data) {
        None => None,
        Some((temperature, humidity)) => Some(TPSensorData {
            address: address.clone(),
            temperature,
            humidity,
        }),
    }
}

} // verus!
