//! The room data model: a named room with an optional heating actuator, the
//! latest sensor reading, a liveness deadline for that reading, and a
//! bounded time-series history.
//!
//! Points in time are plain `u64` counts of seconds on a monotonic clock;
//! the surrounding application supplies them.

use vstd::prelude::*;

use crate::codec::{ReadingView, TPSensorData};

verus! {

/// Seconds a merged reading stays live before a sweep clears it.
pub const SENSOR_TTL_SECONDS: u64 = 300;

/// Seconds of history retained: entries older than this at merge time are
/// trimmed (24 hours).
pub const HISTORY_RETENTION_SECONDS: u64 = 86400;

/// Configured behaviour of a heating actuator: a manual power level in
/// `0..=6`, or an automatic mode with a target temperature (tenths of a
/// degree Celsius). The automatic mode is declared but has no implemented
/// behaviour; dispatching it is a defined error.
#[derive(Clone, Copy, PartialEq, Eq, Structural, Debug)]
pub enum HeatingState {
    Manual(u8),
    Auto(i16),
}

/// A remote heating actuator: the network endpoint its commands go to, and
/// its configured mode.
pub struct HeatingActor {
    pub address: String,
    pub state: HeatingState,
}

/// Mathematical image of a `HeatingActor`.
#[verifier::ext_equal]
pub struct ActorView {
    pub address: Seq<char>,
    pub state: HeatingState,
}

impl View for HeatingActor {
    type V = ActorView;

    open spec fn view(&self) -> ActorView {
        ActorView { address: self.address@, state: self.state }
    }
}

impl Clone for HeatingActor {
    fn clone(&self) -> (r: Self)
        ensures
            r == *self,
    {
        HeatingActor { address: self.address.clone(), state: self.state }
    }
}

/// One retained reading together with the time it was merged.
pub struct SensorHistoryItem {
    pub data: TPSensorData,
    pub timestamp: u64,
}

/// Mathematical image of a `SensorHistoryItem`.
#[verifier::ext_equal]
pub struct HistoryItemView {
    pub data: ReadingView,
    pub timestamp: u64,
}

impl View for SensorHistoryItem {
    type V = HistoryItemView;

    open spec fn view(&self) -> HistoryItemView {
        HistoryItemView { data: self.data@, timestamp: self.timestamp }
    }
}

/// One monitored location. `sensor_address` is the merge key (it may be
/// empty for a room with no sensor); `sensor` and `sensor_ttl` are the
/// current reading and its liveness deadline, both empty once the deadline
/// has passed; `sensor_history` is ordered oldest first.
pub struct Room {
    pub name: String,
    pub sensor_address: String,
    pub sensor_ttl: Option<u64>,
    pub sensor: Option<TPSensorData>,
    pub sensor_history: Vec<SensorHistoryItem>,
    pub actor: Option<HeatingActor>,
}

/// Mathematical image of a `Room`.
#[verifier::ext_equal]
pub struct RoomView {
    pub name: Seq<char>,
    pub sensor_address: Seq<char>,
    pub sensor_ttl: Option<u64>,
    pub sensor: Option<ReadingView>,
    pub sensor_history: Seq<HistoryItemView>,
    pub actor: Option<ActorView>,
}

impl View for Room {
    type V = RoomView;

    open spec fn view(&self) -> RoomView {
        RoomView {
            name: self.name@,
            sensor_address: self.sensor_address@,
            sensor_ttl: self.sensor_ttl,
            sensor: match self.sensor {
                Some(s) => Some(s@),
                None => None,
            },
            sensor_history: self.sensor_history@.map_values(|h: SensorHistoryItem| h@),
            actor: match self.actor {
                Some(a) => Some(a@),
                None => None,
            },
        }
    }
}

/// The images of a sequence of rooms.
pub open spec fn rooms_view(rooms: Seq<Room>) -> Seq<RoomView> {
    rooms.map_values(|r: Room| r@)
}

/// The images of a history vector.
pub open spec fn history_view(h: Seq<SensorHistoryItem>) -> Seq<HistoryItemView> {
    h.map_values(|x: SensorHistoryItem| x@)
}

/// A history is ordered oldest first.
pub open spec fn history_sorted(h: Seq<HistoryItemView>) -> bool {
    forall|i: int, j: int| 0 <= i <= j < h.len() ==> h[i].timestamp <= h[j].timestamp
}

/// No entry of the history lies in the future of `now`.
pub open spec fn history_bounded(h: Seq<HistoryItemView>, now: u64) -> bool {
    forall|i: int| 0 <= i < h.len() ==> h[i].timestamp <= now
}

/// A room's history is well formed at time `now` when it is ordered oldest
/// first and no entry lies in the future.
pub open spec fn room_wf(room: RoomView, now: u64) -> bool {
    history_sorted(room.sensor_history) && history_bounded(room.sensor_history, now)
}

/// Every room of the registry is well formed at time `now`.
pub open spec fn rooms_wf(rooms: Seq<RoomView>, now: u64) -> bool {
    forall|k: int| 0 <= k < rooms.len() ==> room_wf(#[trigger] rooms[k], now)
}

/// A well-formed registry stays well formed as time moves forward.
pub proof fn lemma_wf_monotone(rooms: Seq<RoomView>, now: u64, later: u64)
    requires
        rooms_wf(rooms, now),
        now <= later,
    ensures
        rooms_wf(rooms, later),
{
}

} // verus!
