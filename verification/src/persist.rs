//! The persisted form of the room list, and the startup room list.
//!
//! Rooms are saved as a document of `{name, sensor_address, sensor?,
//! history[], actor?}`; liveness deadlines are transient and are not saved.
//! History timestamps live on a monotonic clock, so for storage each is
//! converted to an approximate wall-clock value (`serialize`) and on reload
//! converted back relative to the new process's clocks (`deserialize`);
//! an entry from before the new clock's zero is clamped to its zero, so a
//! document saved by an earlier run always reconstructs, configuration
//! intact. A malformed document — one holding a wall-clock value from the
//! future — is rejected as a whole, and the caller falls back to the
//! built-in default rooms, as it does when nothing was stored. Reading and
//! writing the document itself is the application's job; this module
//! defines what the document holds.

use vstd::prelude::*;

use crate::codec::{ReadingView, TPSensorData};
use crate::rooms::{
    history_view, rooms_view, ActorView, HeatingActor, HeatingState, HistoryItemView, Room,
    RoomView, SensorHistoryItem,
};

verus! {

/// The approximate wall-clock value stored for a monotonic instant:
/// `system_now - (instant_now - instant)`, both clocks read at save time.
pub open spec fn spec_wall_of(instant: u64, instant_now: u64, system_now: u64) -> int {
    system_now - (instant_now - instant)
}

/// A monotonic instant can be stored only if it is not in the future of the
/// monotonic clock and its age does not reach back past the wall clock's
/// zero.
pub open spec fn instant_storable(instant: u64, instant_now: u64, system_now: u64) -> bool {
    instant <= instant_now && instant_now - instant <= system_now
}

/// Convert a monotonic instant to the approximate wall-clock value that is
/// stored for it.
pub fn serialize(instant: u64, instant_now: u64, system_now: u64) -> (r: u64)
    requires
        instant_storable(instant, instant_now, system_now),
    ensures
        r == spec_wall_of(instant, instant_now, system_now),
{
    system_now - (instant_now - instant)
}

/// The monotonic instant reconstructed from a stored wall-clock value:
/// `instant_now - (system_now - wall)`, both clocks read at load time.
/// A value from before the monotonic clock's zero — the normal case for
/// history saved by an earlier run — is clamped to 0; the retention trim
/// then ages it out naturally. Only a wall-clock value from the future is
/// malformed and rejects the stored list as a whole.
pub open spec fn spec_instant_of(wall: u64, instant_now: u64, system_now: u64) -> Option<u64> {
    if wall <= system_now {
        if system_now - wall <= instant_now {
            Some((instant_now - (system_now - wall)) as u64)
        } else {
            Some(0u64)
        }
    } else {
        None
    }
}

/// Convert a stored wall-clock value back to an approximate monotonic
/// instant.
pub fn deserialize(wall: u64, instant_now: u64, system_now: u64) -> (r: Option<u64>)
    ensures
        r == spec_instant_of(wall, instant_now, system_now),
{
    if wall <= system_now {
        let elapsed = system_now - wall;
        if elapsed <= instant_now {
            Some(instant_now - elapsed)
        } else {
            Some(0)
        }
    } else {
        None
    }
}

/// With both clocks fixed, reloading a stored instant gives back exactly the
/// instant that was stored.
pub proof fn lemma_clock_round_trip(instant: u64, instant_now: u64, system_now: u64)
    requires
        instant_storable(instant, instant_now, system_now),
    ensures
        spec_instant_of(
            spec_wall_of(instant, instant_now, system_now) as u64,
            instant_now,
            system_now,
        ) == Some(instant),
{
}

/// One history entry as stored: the reading and an approximate wall-clock
/// timestamp.
pub struct StoredHistoryItem {
    pub data: TPSensorData,
    pub timestamp: u64,
}

impl View for StoredHistoryItem {
    type V = HistoryItemView;

    open spec fn view(&self) -> HistoryItemView {
        HistoryItemView { data: self.data@, timestamp: self.timestamp }
    }
}

/// The images of a vector of stored history entries.
pub open spec fn stored_history_view(h: Seq<StoredHistoryItem>) -> Seq<HistoryItemView> {
    h.map_values(|x: StoredHistoryItem| x@)
}

/// One room as stored: its configuration and history, without the transient
/// liveness deadline.
pub struct StoredRoom {
    pub name: String,
    pub sensor_address: String,
    pub sensor: Option<TPSensorData>,
    pub sensor_history: Vec<StoredHistoryItem>,
    pub actor: Option<HeatingActor>,
}

/// Mathematical image of a `StoredRoom`.
#[verifier::ext_equal]
pub struct StoredRoomView {
    pub name: Seq<char>,
    pub sensor_address: Seq<char>,
    pub sensor: Option<ReadingView>,
    pub sensor_history: Seq<HistoryItemView>,
    pub actor: Option<ActorView>,
}

impl View for StoredRoom {
    type V = StoredRoomView;

    open spec fn view(&self) -> StoredRoomView {
        StoredRoomView {
            name: self.name@,
            sensor_address: self.sensor_address@,
            sensor: match self.sensor {
                Some(s) => Some(s@),
                None => None,
            },
            sensor_history: stored_history_view(self.sensor_history@),
            actor: match self.actor {
                Some(a) => Some(a@),
                None => None,
            },
        }
    }
}

/// The images of a sequence of stored rooms.
pub open spec fn stored_view(s: Seq<StoredRoom>) -> Seq<StoredRoomView> {
    s.map_values(|r: StoredRoom| r@)
}

/// Every history timestamp of every room can be stored.
pub open spec fn rooms_storable(rooms: Seq<RoomView>, instant_now: u64, system_now: u64) -> bool {
    forall|k: int, i: int|
        0 <= k < rooms.len() && 0 <= i < rooms[k].sensor_history.len() ==> instant_storable(
            #[trigger] rooms[k].sensor_history[i].timestamp,
            instant_now,
            system_now,
        )
}

/// One stored history entry: the reading kept, the timestamp moved to the
/// approximate wall clock.
pub open spec fn stored_entry(h: HistoryItemView, instant_now: u64, system_now: u64) -> HistoryItemView {
    HistoryItemView {
        data: h.data,
        timestamp: spec_wall_of(h.timestamp, instant_now, system_now) as u64,
    }
}

/// A history's stored form.
pub open spec fn spec_store_history(
    h: Seq<HistoryItemView>,
    instant_now: u64,
    system_now: u64,
) -> Seq<HistoryItemView> {
    h.map_values(|x: HistoryItemView| stored_entry(x, instant_now, system_now))
}

/// One room's stored form.
pub open spec fn spec_store_room(room: RoomView, instant_now: u64, system_now: u64) -> StoredRoomView {
    StoredRoomView {
        name: room.name,
        sensor_address: room.sensor_address,
        sensor: room.sensor,
        sensor_history: spec_store_history(room.sensor_history, instant_now, system_now),
        actor: room.actor,
    }
}

/// The stored form of the whole room list.
pub open spec fn spec_store_rooms(rooms: Seq<RoomView>, instant_now: u64, system_now: u64) -> Seq<
    StoredRoomView,
> {
    rooms.map_values(|r: RoomView| spec_store_room(r, instant_now, system_now))
}

/// Project the room list to its stored form, converting each history
/// timestamp to the approximate wall clock. The caller writes the result
/// out as the persisted document.
pub fn store_rooms(rooms: &Vec<Room>, instant_now: u64, system_now: u64) -> (r: Vec<StoredRoom>)
    requires
        rooms_storable(rooms_view(rooms@), instant_now, system_now),
    ensures
        stored_view(r@) == spec_store_rooms(rooms_view(rooms@), instant_now, system_now),
{
    let ghost rv = rooms_view(rooms@);
    let mut out: Vec<StoredRoom> = Vec::new();
    let mut k: usize = 0;
    while k < rooms.len()
        invariant
            k <= rooms@.len(),
            rv == rooms_view(rooms@),
            rooms_storable(rv, instant_now, system_now),
            stored_view(out@) == spec_store_rooms(rv.take(k as int), instant_now, system_now),
        decreases rooms@.len() - k,
    {
        let room = &rooms[k];
        let ghost roomv = rv[k as int];
        assert(roomv == rooms@[k as int]@);
        let mut history: Vec<StoredHistoryItem> = Vec::new();
        let mut i: usize = 0;
        while i < room.sensor_history.len()
            invariant
                i <= room.sensor_history@.len(),
                roomv == room@,
                rooms_storable(rv, instant_now, system_now),
                0 <= k < rv.len(),
                roomv == rv[k as int],
                stored_history_view(history@) == spec_store_history(
                    roomv.sensor_history.take(i as int),
                    instant_now,
                    system_now,
                ),
            decreases room.sensor_history@.len() - i,
        {
            let item = &room.sensor_history[i];
            proof {
                assert(stored_history_view(history@) == spec_store_history(
                    roomv.sensor_history.take(i as int),
                    instant_now,
                    system_now,
                ));
                assert(stored_history_view(history@).len() == history@.len());
                assert(roomv.sensor_history.take(i as int).len() == i);
                assert(spec_store_history(
                    roomv.sensor_history.take(i as int),
                    instant_now,
                    system_now,
                ).len() == i);
                assert(history@.len() == i);
                assert(item@ == roomv.sensor_history[i as int]);
                assert(roomv.sensor_history[i as int] == rv[k as int].sensor_history[i as int]);
                assert(item.timestamp == rv[k as int].sensor_history[i as int].timestamp);
                assert(instant_storable(
                    rv[k as int].sensor_history[i as int].timestamp,
                    instant_now,
                    system_now,
                ));
            }
            let timestamp = serialize(item.timestamp, instant_now, system_now);
            let ghost h0 = history@;
            history.push(StoredHistoryItem { data: item.data.clone(), timestamp });
            proof {
                let lhs = stored_history_view(history@);
                let rhs = spec_store_history(
                    roomv.sensor_history.take(i + 1),
                    instant_now,
                    system_now,
                );
                assert(lhs.len() == i + 1);
                assert(rhs.len() == i + 1);
                assert forall|j: int| 0 <= j < i + 1 implies lhs[j] == rhs[j] by {
                    assert(rhs[j] == stored_entry(
                        roomv.sensor_history.take(i + 1)[j],
                        instant_now,
                        system_now,
                    ));
                    assert(roomv.sensor_history.take(i + 1)[j] == roomv.sensor_history[j]);
                    if j < i {
                        assert(lhs[j] == h0[j]@);
                        assert(stored_history_view(h0)[j] == spec_store_history(
                            roomv.sensor_history.take(i as int),
                            instant_now,
                            system_now,
                        )[j]);
                        assert(roomv.sensor_history.take(i as int)[j] == roomv.sensor_history[j]);
                    } else {
                        assert(lhs[j] == HistoryItemView { data: item.data@, timestamp });
                    }
                }
                assert(lhs =~~= rhs);
            }
            i += 1;
        }
        let stored = StoredRoom {
            name: room.name.clone(),
            sensor_address: room.sensor_address.clone(),
            sensor: match &room.sensor {
                Some(s) => Some(s.clone()),
                None => None,
            },
            sensor_history: history,
            actor: match &room.actor {
                Some(a) => Some(a.clone()),
                None => None,
            },
        };
        let ghost out0 = out@;
        out.push(stored);
        proof {
            assert(stored_view(out0).len() == out0.len());
            assert(spec_store_rooms(rv.take(k as int), instant_now, system_now).len() == k);
            assert(out0.len() == k);
            assert(roomv.sensor_history.take(roomv.sensor_history.len() as int)
                =~~= roomv.sensor_history);
            assert(stored_view(out@)[k as int] =~~= spec_store_room(roomv, instant_now, system_now));
            assert forall|j: int| 0 <= j < k + 1 implies stored_view(out@)[j] == spec_store_rooms(
                rv.take(k + 1),
                instant_now,
                system_now,
            )[j] by {
                assert(rv.take(k + 1)[j] == rv[j]);
                if j < k {
                    assert(out@[j] == out0[j]);
                    assert(stored_view(out0)[j] == spec_store_rooms(
                        rv.take(k as int),
                        instant_now,
                        system_now,
                    )[j]);
                    assert(rv.take(k as int)[j] == rv[j]);
                }
            }
            assert(stored_view(out@) =~~= spec_store_rooms(rv.take(k + 1), instant_now, system_now));
        }
        k += 1;
    }
    proof {
        assert(rv.take(rv.len() as int) =~~= rv);
    }
    out
}

/// Every stored timestamp of every stored room can be reconstructed: none
/// lies in the wall clock's future.
pub open spec fn stored_loadable(s: Seq<StoredRoomView>, instant_now: u64, system_now: u64) -> bool {
    forall|k: int, i: int|
        0 <= k < s.len() && 0 <= i < s[k].sensor_history.len() ==> spec_instant_of(
            #[trigger] s[k].sensor_history[i].timestamp,
            instant_now,
            system_now,
        ) is Some
}

/// One reloaded history entry: the reading kept, the timestamp reconstructed
/// on the new process's clocks.
pub open spec fn loaded_entry(h: HistoryItemView, instant_now: u64, system_now: u64) -> HistoryItemView {
    HistoryItemView {
        data: h.data,
        timestamp: spec_instant_of(h.timestamp, instant_now, system_now)->0,
    }
}

/// A history as reloaded.
pub open spec fn spec_load_history(
    h: Seq<HistoryItemView>,
    instant_now: u64,
    system_now: u64,
) -> Seq<HistoryItemView> {
    h.map_values(|x: HistoryItemView| loaded_entry(x, instant_now, system_now))
}

/// One room reconstructed from its stored form: configuration and current
/// reading come back as stored, the liveness deadline starts out empty, and
/// each history timestamp is reconstructed on the new process's clocks.
pub open spec fn spec_load_room(s: StoredRoomView, instant_now: u64, system_now: u64) -> RoomView {
    RoomView {
        name: s.name,
        sensor_address: s.sensor_address,
        sensor_ttl: None,
        sensor: s.sensor,
        sensor_history: spec_load_history(s.sensor_history, instant_now, system_now),
        actor: s.actor,
    }
}

/// Every room of a stored document, reloaded.
pub open spec fn spec_load_all(s: Seq<StoredRoomView>, instant_now: u64, system_now: u64) -> Seq<
    RoomView,
> {
    s.map_values(|r: StoredRoomView| spec_load_room(r, instant_now, system_now))
}

/// The room list reconstructed from a stored document, or nothing when any
/// timestamp cannot be reconstructed.
pub open spec fn spec_load_rooms(s: Seq<StoredRoomView>, instant_now: u64, system_now: u64) -> Option<
    Seq<RoomView>,
> {
    if stored_loadable(s, instant_now, system_now) {
        Some(spec_load_all(s, instant_now, system_now))
    } else {
        None
    }
}

/// Reconstruct the room list from a stored document. `None` rejects a
/// malformed document — one with a future-dated timestamp — as a whole;
/// the caller then falls back to the default rooms.
pub fn load_rooms(stored: &Vec<StoredRoom>, instant_now: u64, system_now: u64) -> (r: Option<
    Vec<Room>,
>)
    ensures
        match r {
            Some(v) => spec_load_rooms(stored_view(stored@), instant_now, system_now)
                == Some(rooms_view(v@)),
            None => spec_load_rooms(stored_view(stored@), instant_now, system_now) is None,
        },
{
    let ghost sv = stored_view(stored@);
    let mut out: Vec<Room> = Vec::new();
    let mut k: usize = 0;
    while k < stored.len()
        invariant
            k <= stored@.len(),
            sv == stored_view(stored@),
            forall|a: int, i: int|
                0 <= a < k && 0 <= i < sv[a].sensor_history.len() ==> spec_instant_of(
                    #[trigger] sv[a].sensor_history[i].timestamp,
                    instant_now,
                    system_now,
                ) is Some,
            rooms_view(out@) == spec_load_all(sv.take(k as int), instant_now, system_now),
        decreases stored@.len() - k,
    {
        let s = &stored[k];
        let ghost roomv = sv[k as int];
        assert(roomv == stored@[k as int]@);
        let mut history: Vec<SensorHistoryItem> = Vec::new();
        let mut i: usize = 0;
        while i < s.sensor_history.len()
            invariant
                i <= s.sensor_history@.len(),
                roomv == s@,
                sv == stored_view(stored@),
                0 <= k < sv.len(),
                roomv == sv[k as int],
                forall|j: int|
                    0 <= j < i ==> spec_instant_of(
                        #[trigger] roomv.sensor_history[j].timestamp,
                        instant_now,
                        system_now,
                    ) is Some,
                history_view(history@) == spec_load_history(
                    roomv.sensor_history.take(i as int),
                    instant_now,
                    system_now,
                ),
            decreases s.sensor_history@.len() - i,
        {
            let item = &s.sensor_history[i];
            proof {
                assert(history_view(history@).len() == history@.len());
                assert(roomv.sensor_history.take(i as int).len() == i);
                assert(spec_load_history(
                    roomv.sensor_history.take(i as int),
                    instant_now,
                    system_now,
                ).len() == i);
                assert(history@.len() == i);
                assert(item@ == roomv.sensor_history[i as int]);
                assert(roomv.sensor_history[i as int] == sv[k as int].sensor_history[i as int]);
                assert(item.timestamp == sv[k as int].sensor_history[i as int].timestamp);
            }
            let ghost h0 = history@;
            match deserialize(item.timestamp, instant_now, system_now) {
                Some(timestamp) => {
                    history.push(SensorHistoryItem { data: item.data.clone(), timestamp });
                    proof {
                        let lhs = history_view(history@);
                        let rhs = spec_load_history(
                            roomv.sensor_history.take(i + 1),
                            instant_now,
                            system_now,
                        );
                        assert(lhs.len() == i + 1);
                        assert(rhs.len() == i + 1);
                        assert forall|j: int| 0 <= j < i + 1 implies lhs[j] == rhs[j] by {
                            assert(rhs[j] == loaded_entry(
                                roomv.sensor_history.take(i + 1)[j],
                                instant_now,
                                system_now,
                            ));
                            assert(roomv.sensor_history.take(i + 1)[j]
                                == roomv.sensor_history[j]);
                            if j < i {
                                assert(lhs[j] == h0[j]@);
                                assert(history_view(h0)[j] == spec_load_history(
                                    roomv.sensor_history.take(i as int),
                                    instant_now,
                                    system_now,
                                )[j]);
                                assert(roomv.sensor_history.take(i as int)[j]
                                    == roomv.sensor_history[j]);
                            } else {
                                assert(lhs[j] == HistoryItemView {
                                    data: item.data@,
                                    timestamp,
                                });
                            }
                        }
                        assert(lhs =~~= rhs);
                    }
                },
                None => {
                    proof {
                        assert(spec_instant_of(
                            sv[k as int].sensor_history[i as int].timestamp,
                            instant_now,
                            system_now,
                        ) is None);
                        assert(!stored_loadable(sv, instant_now, system_now));
                    }
                    return None;
                },
            }
            i += 1;
        }
        let room = Room {
            name: s.name.clone(),
            sensor_address: s.sensor_address.clone(),
            sensor_ttl: None,
            sensor: match &s.sensor {
                Some(d) => Some(d.clone()),
                None => None,
            },
            sensor_history: history,
            actor: match &s.actor {
                Some(a) => Some(a.clone()),
                None => None,
            },
        };
        let ghost out0 = out@;
        out.push(room);
        proof {
            assert(rooms_view(out0).len() == out0.len());
            assert(spec_load_all(sv.take(k as int), instant_now, system_now).len() == k);
            assert(out0.len() == k);
            assert(roomv.sensor_history.take(roomv.sensor_history.len() as int)
                =~~= roomv.sensor_history);
            assert(rooms_view(out@)[k as int] =~~= spec_load_room(roomv, instant_now, system_now));
            assert forall|j: int| 0 <= j < k + 1 implies rooms_view(out@)[j] == spec_load_all(
                sv.take(k + 1),
                instant_now,
                system_now,
            )[j] by {
                assert(sv.take(k + 1)[j] == sv[j]);
                if j < k {
                    assert(out@[j] == out0[j]);
                    assert(rooms_view(out0)[j] == spec_load_all(
                        sv.take(k as int),
                        instant_now,
                        system_now,
                    )[j]);
                    assert(sv.take(k as int)[j] == sv[j]);
                }
            }
            assert(rooms_view(out@) =~~= spec_load_all(sv.take(k + 1), instant_now, system_now));
        }
        k += 1;
    }
    proof {
        assert(sv.take(sv.len() as int) =~~= sv);
        assert(stored_loadable(sv, instant_now, system_now));
    }
    Some(out)
}

/// A room of the built-in startup list: named, keyed to its sensor, with no
/// reading, no deadline, no history, and at most an actuator.
pub open spec fn spec_default_room(
    name: Seq<char>,
    sensor_address: Seq<char>,
    actor: Option<ActorView>,
) -> RoomView {
    RoomView {
        name,
        sensor_address,
        sensor_ttl: None,
        sensor: None,
        sensor_history: Seq::empty(),
        actor,
    }
}

/// The built-in room list used when no stored document can be read.
pub open spec fn spec_default_rooms() -> Seq<RoomView> {
    seq![
        spec_default_room("Galerie"@, "10:76:36:76:66:1E"@, None),
        spec_default_room(
            "Schlafzimmer"@,
            "D1:D7:3F:67:8C:EF"@,
            Some(
                ActorView {
                    address: "http://shellypro3-ece334ed1928.local/relay/2"@,
                    state: HeatingState::Manual(3),
                },
            ),
        ),
        spec_default_room("Kinderzimmer"@, "D2:7C:11:BC:05:E3"@, None),
        spec_default_room("Küche/Diele"@, "C9:B5:08:81:6A:AC"@, None),
        spec_default_room("Wohnzimmer"@, "FA:74:A7:99:89:04"@, None),
        spec_default_room("Bäckerei"@, "10:76:36:C2:B7:87"@, None),
    ]
}

/// Build the built-in room list.
pub fn default_rooms() -> (r: Vec<Room>)
    ensures
        rooms_view(r@) == spec_default_rooms(),
{
    let mut out: Vec<Room> = Vec::new();
    out.push(Room {
        name: "Galerie".to_owned(),
        sensor_address: "10:76:36:76:66:1E".to_owned(),
        sensor_ttl: None,
        sensor: None,
        sensor_history: Vec::new(),
        actor: None,
    });
    out.push(Room {
        name: "Schlafzimmer".to_owned(),
        sensor_address: "D1:D7:3F:67:8C:EF".to_owned(),
        sensor_ttl: None,
        sensor: None,
        sensor_history: Vec::new(),
        actor: Some(HeatingActor {
            address: "http://shellypro3-ece334ed1928.local/relay/2".to_owned(),
            state: HeatingState::Manual(3),
        }),
    });
    out.push(Room {
        name: "Kinderzimmer".to_owned(),
        sensor_address: "D2:7C:11:BC:05:E3".to_owned(),
        sensor_ttl: None,
        sensor: None,
        sensor_history: Vec::new(),
        actor: None,
    });
    out.push(Room {
        name: "Küche/Diele".to_owned(),
        sensor_address: "C9:B5:08:81:6A:AC".to_owned(),
        sensor_ttl: None,
        sensor: None,
        sensor_history: Vec::new(),
        actor: None,
    });
    out.push(Room {
        name: "Wohnzimmer".to_owned(),
        sensor_address: "FA:74:A7:99:89:04".to_owned(),
        sensor_ttl: None,
        sensor: None,
        sensor_history: Vec::new(),
        actor: None,
    });
    out.push(Room {
        name: "Bäckerei".to_owned(),
        sensor_address: "10:76:36:C2:B7:87".to_owned(),
        sensor_ttl: None,
        sensor: None,
        sensor_history: Vec::new(),
        actor: None,
    });
    proof {
        assert(rooms_view(out@)[0] =~~= spec_default_rooms()[0]);
        assert(rooms_view(out@)[1] =~~= spec_default_rooms()[1]);
        assert(rooms_view(out@)[2] =~~= spec_default_rooms()[2]);
        assert(rooms_view(out@)[3] =~~= spec_default_rooms()[3]);
        assert(rooms_view(out@)[4] =~~= spec_default_rooms()[4]);
        assert(rooms_view(out@)[5] =~~= spec_default_rooms()[5]);
        assert(rooms_view(out@) =~~= spec_default_rooms());
    }
    out
}

/// The room list at startup: the stored document's rooms when one was read
/// and can be reconstructed, else the built-in default list. A missing or
/// rejected document falls back silently.
pub fn create_rooms(stored: Option<Vec<StoredRoom>>, instant_now: u64, system_now: u64) -> (r:
    Vec<Room>)
    ensures
        match stored {
            Some(s) => match spec_load_rooms(stored_view(s@), instant_now, system_now) {
                Some(rs) => rooms_view(r@) == rs,
                None => rooms_view(r@) == spec_default_rooms(),
            },
            None => rooms_view(r@) == spec_default_rooms(),
        },
{
    match stored {
        Some(s) => match load_rooms(&s, instant_now, system_now) {
            Some(rooms) => rooms,
            None => default_rooms(),
        },
        None => default_rooms(),
    }
}

/// Persist-then-reload round trip with both clocks fixed: every room comes
/// back, with its name, sensor address, actuator configuration and current
/// reading exactly preserved, its liveness deadline cleared, and its
/// history entries reconstructed with their original timestamps.
pub proof fn lemma_persist_round_trip(rooms: Seq<RoomView>, instant_now: u64, system_now: u64)
    requires
        rooms_storable(rooms, instant_now, system_now),
    ensures
        ({
            let reloaded = spec_load_rooms(
                spec_store_rooms(rooms, instant_now, system_now),
                instant_now,
                system_now,
            );
            &&& reloaded is Some
            &&& reloaded->0.len() == rooms.len()
            &&& forall|k: int|
                0 <= k < rooms.len() ==> {
                    let r = #[trigger] reloaded->0[k];
                    &&& r.name == rooms[k].name
                    &&& r.sensor_address == rooms[k].sensor_address
                    &&& r.actor == rooms[k].actor
                    &&& r.sensor == rooms[k].sensor
                    &&& r.sensor_ttl is None
                    &&& r.sensor_history == rooms[k].sensor_history
                }
        }),
{
    let stored = spec_store_rooms(rooms, instant_now, system_now);
    assert forall|k: int, i: int|
        0 <= k < stored.len() && 0 <= i < stored[k].sensor_history.len() implies spec_instant_of(
        #[trigger] stored[k].sensor_history[i].timestamp,
        instant_now,
        system_now,
    ) is Some by {
        assert(stored[k] == spec_store_room(rooms[k], instant_now, system_now));
        assert(stored[k].sensor_history[i] == stored_entry(
            rooms[k].sensor_history[i],
            instant_now,
            system_now,
        ));
        assert(instant_storable(rooms[k].sensor_history[i].timestamp, instant_now, system_now));
        lemma_clock_round_trip(rooms[k].sensor_history[i].timestamp, instant_now, system_now);
    }
    let reloaded = spec_load_rooms(stored, instant_now, system_now);
    assert(reloaded is Some);
    assert forall|k: int| 0 <= k < rooms.len() implies {
        let r = #[trigger] reloaded->0[k];
        &&& r.name == rooms[k].name
        &&& r.sensor_address == rooms[k].sensor_address
        &&& r.actor == rooms[k].actor
        &&& r.sensor == rooms[k].sensor
        &&& r.sensor_ttl is None
        &&& r.sensor_history == rooms[k].sensor_history
    } by {
        let r = reloaded->0[k];
        assert(r == spec_load_room(
            spec_store_room(rooms[k], instant_now, system_now),
            instant_now,
            system_now,
        ));
        assert forall|i: int| 0 <= i < r.sensor_history.len() implies #[trigger] r.sensor_history[i]
            == rooms[k].sensor_history[i] by {
            assert(r.sensor_history[i] == loaded_entry(
                stored_entry(rooms[k].sensor_history[i], instant_now, system_now),
                instant_now,
                system_now,
            ));
            assert(instant_storable(rooms[k].sensor_history[i].timestamp, instant_now, system_now));
            lemma_clock_round_trip(rooms[k].sensor_history[i].timestamp, instant_now, system_now);
        }
        assert(r.sensor_history =~~= rooms[k].sensor_history);
    }
}

/// Persist-then-reload across runs: a document saved on one pair of clocks
/// reloads on any later run whose wall clock has not gone backwards — same
/// length, with each room's name, sensor address, actuator configuration
/// and current reading exactly preserved, its liveness deadline cleared,
/// and every history reading kept; only the history timestamps are
/// approximate on the new clocks.
pub proof fn lemma_reload_preserves_configuration(
    rooms: Seq<RoomView>,
    save_instant_now: u64,
    save_system_now: u64,
    load_instant_now: u64,
    load_system_now: u64,
)
    requires
        rooms_storable(rooms, save_instant_now, save_system_now),
        save_system_now <= load_system_now,
    ensures
        ({
            let reloaded = spec_load_rooms(
                spec_store_rooms(rooms, save_instant_now, save_system_now),
                load_instant_now,
                load_system_now,
            );
            &&& reloaded is Some
            &&& reloaded->0.len() == rooms.len()
            &&& forall|k: int|
                0 <= k < rooms.len() ==> {
                    let r = #[trigger] reloaded->0[k];
                    &&& r.name == rooms[k].name
                    &&& r.sensor_address == rooms[k].sensor_address
                    &&& r.actor == rooms[k].actor
                    &&& r.sensor == rooms[k].sensor
                    &&& r.sensor_ttl is None
                    &&& r.sensor_history.len() == rooms[k].sensor_history.len()
                    &&& forall|i: int|
                        0 <= i < r.sensor_history.len() ==> (#[trigger] r.sensor_history[i]).data
                            == rooms[k].sensor_history[i].data
                }
        }),
{
    let stored = spec_store_rooms(rooms, save_instant_now, save_system_now);
    assert forall|k: int, i: int|
        0 <= k < stored.len() && 0 <= i < stored[k].sensor_history.len() implies spec_instant_of(
        #[trigger] stored[k].sensor_history[i].timestamp,
        load_instant_now,
        load_system_now,
    ) is Some by {
        assert(stored[k] == spec_store_room(rooms[k], save_instant_now, save_system_now));
        assert(stored[k].sensor_history[i] == stored_entry(
            rooms[k].sensor_history[i],
            save_instant_now,
            save_system_now,
        ));
        assert(instant_storable(
            rooms[k].sensor_history[i].timestamp,
            save_instant_now,
            save_system_now,
        ));
        assert(stored[k].sensor_history[i].timestamp <= save_system_now);
    }
    let reloaded = spec_load_rooms(stored, load_instant_now, load_system_now);
    assert(reloaded is Some);
    assert forall|k: int| 0 <= k < rooms.len() implies {
        let r = #[trigger] reloaded->0[k];
        &&& r.name == rooms[k].name
        &&& r.sensor_address == rooms[k].sensor_address
        &&& r.actor == rooms[k].actor
        &&& r.sensor == rooms[k].sensor
        &&& r.sensor_ttl is None
        &&& r.sensor_history.len() == rooms[k].sensor_history.len()
        &&& forall|i: int|
            0 <= i < r.sensor_history.len() ==> (#[trigger] r.sensor_history[i]).data
                == rooms[k].sensor_history[i].data
    } by {
        let r = reloaded->0[k];
        assert(r == spec_load_room(
            spec_store_room(rooms[k], save_instant_now, save_system_now),
            load_instant_now,
            load_system_now,
        ));
        assert forall|i: int| 0 <= i < r.sensor_history.len() implies (
        #[trigger] r.sensor_history[i]).data == rooms[k].sensor_history[i].data by {
            assert(r.sensor_history[i] == loaded_entry(
                stored_entry(rooms[k].sensor_history[i], save_instant_now, save_system_now),
                load_instant_now,
                load_system_now,
            ));
        }
    }
}

} // verus!
