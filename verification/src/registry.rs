//! Merging incoming readings into the room registry and sweeping stale
//! readings out of it.
//!
//! A reading is merged into the first room whose `sensor_address` equals the
//! reading's address; an unknown address creates a new ad-hoc room named
//! after it. A merge appends to the target room's history, trims entries
//! older than the retention window, and refreshes the liveness deadline.
//! After every merge all rooms are swept: a room whose deadline has passed
//! loses its current reading and deadline, history untouched.

use vstd::prelude::*;

use crate::codec::{ReadingView, TPSensorData};
use crate::rooms::{
    history_bounded, history_sorted, history_view, room_wf, rooms_view, rooms_wf,
    HistoryItemView, Room, RoomView, SensorHistoryItem, HISTORY_RETENTION_SECONDS,
    SENSOR_TTL_SECONDS,
};

verus! {

/// A history entry is stale at time `now` when it is older than the
/// retention window.
pub open spec fn entry_stale(timestamp: u64, now: u64) -> bool {
    timestamp + HISTORY_RETENTION_SECONDS < now
}

/// Drop the longest stale prefix of a history.
pub open spec fn spec_trim_history(h: Seq<HistoryItemView>, now: u64) -> Seq<HistoryItemView>
    decreases h.len(),
{
    if h.len() > 0 && entry_stale(h[0].timestamp, now) {
        spec_trim_history(h.drop_first(), now)
    } else {
        h
    }
}

/// The index of the merge target for `address`: the first room whose
/// `sensor_address` equals it, if any.
pub open spec fn spec_find_room(rooms: Seq<RoomView>, address: Seq<char>) -> Option<int>
    decreases rooms.len(),
{
    if rooms.len() == 0 {
        None
    } else if rooms[0].sensor_address == address {
        Some(0int)
    } else {
        match spec_find_room(rooms.drop_first(), address) {
            Some(i) => Some(i + 1),
            None => None,
        }
    }
}

/// `spec_find_room` returns the first match and nothing else.
pub proof fn lemma_spec_find_room(rooms: Seq<RoomView>, address: Seq<char>)
    ensures
        match spec_find_room(rooms, address) {
            Some(i) => 0 <= i < rooms.len() && rooms[i].sensor_address == address && forall|j: int|
                0 <= j < i ==> #[trigger] rooms[j].sensor_address != address,
            None => forall|j: int|
                0 <= j < rooms.len() ==> #[trigger] rooms[j].sensor_address != address,
        },
    decreases rooms.len(),
{
    if rooms.len() == 0 {
    } else if rooms[0].sensor_address == address {
        assert(spec_find_room(rooms, address) == Some(0int));
    } else {
        let rest = rooms.drop_first();
        lemma_spec_find_room(rest, address);
        match spec_find_room(rest, address) {
            Some(i) => {
                assert(spec_find_room(rooms, address) == Some(i + 1));
                assert(rest[i] == rooms[i + 1]);
                assert(rooms[i + 1].sensor_address == address);
                assert forall|j: int| 0 <= j < i + 1 implies #[trigger] rooms[j].sensor_address
                    != address by {
                    if j >= 1 {
                        assert(rest[j - 1] == rooms[j]);
                        assert(rest[j - 1].sensor_address != address);
                    }
                }
            },
            None => {
                assert(spec_find_room(rooms, address) is None);
                assert forall|j: int| 0 <= j < rooms.len() implies #[trigger] rooms[j].sensor_address
                    != address by {
                    if j >= 1 {
                        assert(rest[j - 1] == rooms[j]);
                        assert(rest[j - 1].sensor_address != address);
                    }
                }
            },
        }
    }
}

/// The merge target after a reading was merged into it at time `now`.
pub open spec fn merged_room(room: RoomView, reading: ReadingView, now: u64) -> RoomView {
    RoomView {
        sensor: Some(reading),
        sensor_ttl: Some((now + SENSOR_TTL_SECONDS) as u64),
        sensor_history: spec_trim_history(
            room.sensor_history.push(HistoryItemView { data: reading, timestamp: now }),
            now,
        ),
        ..room
    }
}

/// The ad-hoc room created for a reading whose address no room carries:
/// named after the address, with the reading live and an empty history.
pub open spec fn new_room(reading: ReadingView, now: u64) -> RoomView {
    RoomView {
        name: reading.address,
        sensor_address: reading.address,
        sensor_ttl: Some((now + SENSOR_TTL_SECONDS) as u64),
        sensor: Some(reading),
        sensor_history: Seq::empty(),
        actor: None,
    }
}

/// Merge one reading: update the first room carrying its address, or append
/// an ad-hoc room when none does.
pub open spec fn spec_merge(rooms: Seq<RoomView>, reading: ReadingView, now: u64) -> Seq<
    RoomView,
> {
    match spec_find_room(rooms, reading.address) {
        Some(i) => rooms.update(i, merged_room(rooms[i], reading, now)),
        None => rooms.push(new_room(reading, now)),
    }
}

/// One room after a sweep at time `now`: cleared of its reading and deadline
/// exactly when the deadline has passed.
pub open spec fn swept_room(room: RoomView, now: u64) -> RoomView {
    match room.sensor_ttl {
        Some(deadline) => if now > deadline {
            RoomView { sensor: None, sensor_ttl: None, ..room }
        } else {
            room
        },
        None => room,
    }
}

/// Sweep every room.
pub open spec fn spec_sweep(rooms: Seq<RoomView>, now: u64) -> Seq<RoomView> {
    rooms.map_values(|r: RoomView| swept_room(r, now))
}

/// Process one reading at time `now`: merge it, then sweep.
pub open spec fn spec_update_rooms(rooms: Seq<RoomView>, reading: ReadingView, now: u64) -> Seq<
    RoomView,
> {
    spec_sweep(spec_merge(rooms, reading, now), now)
}

/// The index of the first room whose `sensor_address` equals `address`, if
/// any room's does.
pub fn find_room_index(rooms: &Vec<Room>, address: &String) -> (r: Option<usize>)
    ensures
        match r {
            Some(k) => spec_find_room(rooms_view(rooms@), address@) == Some(k as int),
            None => spec_find_room(rooms_view(rooms@), address@) is None,
        },
{
    let ghost rv = rooms_view(rooms@);
    proof {
        lemma_spec_find_room(rv, address@);
    }
    let mut i: usize = 0;
    while i < rooms.len()
        invariant
            i <= rooms@.len(),
            rv == rooms_view(rooms@),
            forall|j: int| 0 <= j < i ==> #[trigger] rv[j].sensor_address != address@,
        decreases rooms@.len() - i,
    {
        if rooms[i].sensor_address == *address {
            proof {
                lemma_spec_find_room(rv, address@);
                assert(rv[i as int] == rooms@[i as int]@);
                assert(rv[i as int].sensor_address == address@);
                match spec_find_room(rv, address@) {
                    Some(k) => {
                        assert(rv[k].sensor_address == address@);
                        if k < i {
                            assert(rv[k].sensor_address != address@);
                            assert(false);
                        }
                        if i < k {
                            assert(rv[i as int].sensor_address != address@);
                            assert(false);
                        }
                        assert(k == i);
                    },
                    None => {
                        assert(rv[i as int].sensor_address != address@);
                        assert(false);
                    },
                }
            }
            return Some(i);
        }
        proof {
            assert(rv[i as int] == rooms@[i as int]@);
        }
        i += 1;
    }
    None
}

/// Process one reading, as the registry consumer does for each item drained
/// from the reading channel: merge it into its room (or create that room),
/// then sweep all rooms for expired liveness deadlines.
pub fn update_rooms(rooms: &mut Vec<Room>, sensor: TPSensorData, now: u64)
    requires
        now <= u64::MAX - SENSOR_TTL_SECONDS,
    ensures
        rooms_view(final(rooms)@) == spec_update_rooms(rooms_view(old(rooms)@), sensor@, now),
{
    let ghost rooms0 = rooms_view(rooms@);
    let ghost reading = sensor@;

    let found = find_room_index(rooms, &sensor.address);
    proof {
        lemma_spec_find_room(rooms0, reading.address);
    }
    match found {
        Some(i) => {
            assert(i < rooms@.len());
            let ghost target0 = rooms0[i as int];
            rooms[i].sensor = Some(sensor.clone());
            let timestamp = now;
            rooms[i].sensor_history.push(SensorHistoryItem { data: sensor, timestamp });
            let ghost pushed = target0.sensor_history.push(
                HistoryItemView { data: reading, timestamp: now },
            );
            proof {
                assert(forall|k: int|
                    0 <= k < rooms0.len() && k != i ==> rooms@[k] == #[trigger] old(rooms)@[k]);
                assert(forall|k: int|
                    0 <= k < rooms0.len() && k != i ==> rooms_view(rooms@)[k] == rooms0[k]);
                assert(history_view(rooms@[i as int].sensor_history@) =~= pushed);
                assert(rooms_view(rooms@)[i as int] =~= (RoomView {
                    sensor: Some(reading),
                    sensor_history: history_view(rooms@[i as int].sensor_history@),
                    ..target0
                }));
            }
            while rooms[i].sensor_history.len() > 0 && now >= HISTORY_RETENTION_SECONDS
                && rooms[i].sensor_history[0].timestamp < now - HISTORY_RETENTION_SECONDS
                invariant
                    i < rooms@.len(),
                    rooms@.len() == rooms0.len(),
                    forall|k: int|
                        0 <= k < rooms0.len() && k != i ==> rooms_view(rooms@)[k] == rooms0[k],
                    rooms_view(rooms@)[i as int] == (RoomView {
                        sensor: Some(reading),
                        sensor_history: history_view(rooms@[i as int].sensor_history@),
                        ..target0
                    }),
                    spec_trim_history(history_view(rooms@[i as int].sensor_history@), now)
                        == spec_trim_history(pushed, now),
                decreases rooms@[i as int].sensor_history@.len(),
            {
                let ghost prev = rooms@;
                let ghost before = history_view(rooms@[i as int].sensor_history@);
                assert(before[0].timestamp == rooms@[i as int].sensor_history@[0].timestamp);
                assert(entry_stale(before[0].timestamp, now));
                rooms[i].sensor_history.remove(0);
                proof {
                    assert(forall|k: int|
                        0 <= k < rooms0.len() && k != i ==> rooms@[k] == #[trigger] prev[k]);
                    assert(forall|k: int|
                        0 <= k < rooms0.len() && k != i ==> rooms_view(rooms@)[k] == rooms_view(
                            prev,
                        )[k]);
                    assert(history_view(rooms@[i as int].sensor_history@) =~= before.drop_first());
                    assert(rooms_view(rooms@)[i as int] =~= (RoomView {
                        sensor: Some(reading),
                        sensor_history: history_view(rooms@[i as int].sensor_history@),
                        ..target0
                    }));
                    assert(spec_trim_history(before, now) == spec_trim_history(
                        before.drop_first(),
                        now,
                    ));
                }
            }
            proof {
                let h = history_view(rooms@[i as int].sensor_history@);
                assert(h.len() == rooms@[i as int].sensor_history@.len());
                if h.len() > 0 {
                    assert(h[0].timestamp == rooms@[i as int].sensor_history@[0].timestamp);
                }
                assert(spec_trim_history(h, now) == h);
            }
            let ghost prev2 = rooms@;
            rooms[i].sensor_ttl = Some(now + SENSOR_TTL_SECONDS);
            proof {
                assert(forall|k: int|
                    0 <= k < rooms0.len() && k != i ==> rooms@[k] == #[trigger] prev2[k]);
                assert(forall|k: int|
                    0 <= k < rooms0.len() && k != i ==> rooms_view(rooms@)[k] == rooms_view(
                        prev2,
                    )[k]);
                assert(rooms_view(rooms@)[i as int] =~= merged_room(target0, reading, now));
                assert(rooms_view(rooms@) =~= spec_merge(rooms0, reading, now));
            }
        },
        None => {
            let name = sensor.address.clone();
            let sensor_address = sensor.address.clone();
            rooms.push(Room {
                name,
                sensor_address,
                sensor_ttl: Some(now + SENSOR_TTL_SECONDS),
                sensor: Some(sensor),
                sensor_history: Vec::new(),
                actor: None,
            });
            proof {
                assert(history_view(Seq::<SensorHistoryItem>::empty()) =~= Seq::<
                    HistoryItemView,
                >::empty());
                assert(rooms_view(rooms@)[rooms0.len() as int] =~= new_room(reading, now));
                assert(rooms_view(rooms@) =~= spec_merge(rooms0, reading, now));
            }
        },
    }

    let ghost merged = rooms_view(rooms@);
    assert(merged == spec_merge(rooms0, reading, now));

    let mut k: usize = 0;
    while k < rooms.len()
        invariant
            rooms@.len() == merged.len(),
            k <= merged.len(),
            forall|j: int| 0 <= j < k ==> rooms_view(rooms@)[j] == swept_room(merged[j], now),
            forall|j: int| k <= j < merged.len() ==> rooms_view(rooms@)[j] == merged[j],
        decreases merged.len() - k,
    {
        let ghost prev = rooms@;
        assert(rooms_view(prev)[k as int] == merged[k as int]);
        let expired = match rooms[k].sensor_ttl {
            Some(deadline) => now > deadline,
            None => false,
        };
        if expired {
            rooms[k].sensor = None;
            rooms[k].sensor_ttl = None;
            proof {
                assert(forall|j: int|
                    0 <= j < prev.len() && j != k ==> rooms@[j] == #[trigger] prev[j]);
                assert(forall|j: int|
                    0 <= j < prev.len() && j != k ==> rooms_view(rooms@)[j] == rooms_view(
                        prev,
                    )[j]);
                assert(rooms_view(rooms@)[k as int] =~= swept_room(merged[k as int], now));
            }
        } else {
            proof {
                assert(rooms_view(rooms@)[k as int] =~= swept_room(merged[k as int], now));
            }
        }
        proof {
            assert forall|j: int| 0 <= j < k + 1 implies rooms_view(rooms@)[j] == swept_room(
                merged[j],
                now,
            ) by {
                if j < k {
                    assert(rooms_view(rooms@)[j] == rooms_view(prev)[j]);
                    assert(rooms_view(prev)[j] == swept_room(merged[j], now));
                }
            }
        }
        k += 1;
    }
    proof {
        assert(rooms_view(rooms@) =~= spec_sweep(merged, now));
    }
}

/// No entry of the history is older than the retention window at time `now`.
pub open spec fn history_fresh(h: Seq<HistoryItemView>, now: u64) -> bool {
    forall|i: int| 0 <= i < h.len() ==> !entry_stale(#[trigger] h[i].timestamp, now)
}

/// Trimming a well-formed history keeps it well formed and leaves no entry
/// older than the retention window.
pub proof fn lemma_trim_history_props(h: Seq<HistoryItemView>, now: u64)
    requires
        history_sorted(h),
        history_bounded(h, now),
    ensures
        history_sorted(spec_trim_history(h, now)),
        history_bounded(spec_trim_history(h, now), now),
        history_fresh(spec_trim_history(h, now), now),
    decreases h.len(),
{
    if h.len() > 0 && entry_stale(h[0].timestamp, now) {
        let rest = h.drop_first();
        assert(forall|i: int| 0 <= i < rest.len() ==> rest[i] == #[trigger] h[i + 1]);
        assert(history_sorted(rest));
        assert(history_bounded(rest, now));
        lemma_trim_history_props(rest, now);
    } else {
        assert(spec_trim_history(h, now) == h);
        if h.len() > 0 {
            assert forall|i: int| 0 <= i < h.len() implies !entry_stale(
                #[trigger] h[i].timestamp,
                now,
            ) by {
                assert(h[0].timestamp <= h[i].timestamp);
            }
        }
    }
}

/// The registry invariant is preserved: processing any reading at time `now`
/// keeps every room's history ordered, in the past, and of bounded age where
/// it was just trimmed.
pub proof fn lemma_update_rooms_preserves_wf(rooms: Seq<RoomView>, reading: ReadingView, now: u64)
    requires
        rooms_wf(rooms, now),
    ensures
        rooms_wf(spec_update_rooms(rooms, reading, now), now),
{
    lemma_spec_find_room(rooms, reading.address);
    let merged = spec_merge(rooms, reading, now);
    let out = spec_update_rooms(rooms, reading, now);
    assert forall|k: int| 0 <= k < merged.len() implies room_wf(#[trigger] merged[k], now) by {
        match spec_find_room(rooms, reading.address) {
            Some(i) => {
                assert(room_wf(rooms[k], now));
                if k == i {
                    let pushed = rooms[i].sensor_history.push(
                        HistoryItemView { data: reading, timestamp: now },
                    );
                    assert(history_sorted(pushed));
                    assert(history_bounded(pushed, now));
                    lemma_trim_history_props(pushed, now);
                }
            },
            None => {
                if k < rooms.len() {
                    assert(room_wf(rooms[k], now));
                } else {
                    assert(merged[k].sensor_history.len() == 0);
                }
            },
        }
    }
    assert forall|k: int| 0 <= k < out.len() implies room_wf(#[trigger] out[k], now) by {
        assert(out[k] == swept_room(merged[k], now));
        assert(out[k].sensor_history == merged[k].sensor_history);
        assert(room_wf(merged[k], now));
    }
}

/// Bounded history retention: after a reading is merged into a well-formed
/// registry at time `now`, no history entry retained for the merge target is
/// older than the retention window before `now`; a reading for an unknown
/// address starts its new room with an empty history.
pub proof fn lemma_merge_bounds_history(rooms: Seq<RoomView>, reading: ReadingView, now: u64)
    requires
        rooms_wf(rooms, now),
    ensures
        match spec_find_room(rooms, reading.address) {
            Some(i) => history_fresh(
                spec_update_rooms(rooms, reading, now)[i].sensor_history,
                now,
            ),
            None => spec_update_rooms(rooms, reading, now)[rooms.len() as int].sensor_history.len()
                == 0,
        },
{
    lemma_spec_find_room(rooms, reading.address);
    let merged = spec_merge(rooms, reading, now);
    let out = spec_update_rooms(rooms, reading, now);
    match spec_find_room(rooms, reading.address) {
        Some(i) => {
            assert(room_wf(rooms[i], now));
            let pushed = rooms[i].sensor_history.push(
                HistoryItemView { data: reading, timestamp: now },
            );
            assert(history_sorted(pushed));
            assert(history_bounded(pushed, now));
            lemma_trim_history_props(pushed, now);
            assert(merged[i].sensor_history == spec_trim_history(pushed, now));
            assert(out[i] == swept_room(merged[i], now));
            assert(out[i].sensor_history == merged[i].sensor_history);
        },
        None => {
            assert(merged[rooms.len() as int].sensor_history.len() == 0);
            assert(out[rooms.len() as int] == swept_room(merged[rooms.len() as int], now));
        },
    }
}

/// Liveness of the current reading: a room whose last merge was at time `t`
/// keeps its reading through any sweep at `now <= t + 300` and loses exactly
/// the reading and the deadline at any sweep with `now > t + 300`; its
/// history is untouched either way.
pub proof fn lemma_liveness_transition(room: RoomView, t: u64, now: u64)
    requires
        t <= u64::MAX - SENSOR_TTL_SECONDS,
        room.sensor_ttl == Some((t + SENSOR_TTL_SECONDS) as u64),
    ensures
        now <= t + SENSOR_TTL_SECONDS ==> swept_room(room, now) == room,
        now > t + SENSOR_TTL_SECONDS ==> swept_room(room, now) == (RoomView {
            sensor: None,
            sensor_ttl: None,
            ..room
        }),
{
}

/// A merge refreshes exactly its target: after a reading is processed at
/// time `now`, the merge target (or the room just created for an unknown
/// address) holds that reading, with its liveness deadline set to
/// `now + 300`; the same cycle's sweep never clears it.
pub proof fn lemma_merge_refreshes_target(rooms: Seq<RoomView>, reading: ReadingView, now: u64)
    requires
        now <= u64::MAX - SENSOR_TTL_SECONDS,
    ensures
        ({
            let out = spec_update_rooms(rooms, reading, now);
            match spec_find_room(rooms, reading.address) {
                Some(i) => out[i].sensor == Some(reading) && out[i].sensor_ttl == Some(
                    (now + SENSOR_TTL_SECONDS) as u64,
                ),
                None => out[rooms.len() as int].sensor == Some(reading) && out[rooms.len() as int].sensor_ttl
                    == Some((now + SENSOR_TTL_SECONDS) as u64),
            }
        }),
{
    lemma_spec_find_room(rooms, reading.address);
    let merged = spec_merge(rooms, reading, now);
    match spec_find_room(rooms, reading.address) {
        Some(i) => {
            assert(merged[i].sensor_ttl == Some((now + SENSOR_TTL_SECONDS) as u64));
            assert(spec_update_rooms(rooms, reading, now)[i] == swept_room(merged[i], now));
        },
        None => {
            assert(merged[rooms.len() as int].sensor_ttl == Some((now + SENSOR_TTL_SECONDS) as u64));
            assert(spec_update_rooms(rooms, reading, now)[rooms.len() as int] == swept_room(
                merged[rooms.len() as int],
                now,
            ));
        },
    }
}

/// Room creation: a reading whose address no room carries adds exactly one
/// room, and a second reading with the same address merges into an existing
/// room, leaving the count unchanged.
pub proof fn lemma_unseen_address_adds_one_room(
    rooms: Seq<RoomView>,
    r1: ReadingView,
    n1: u64,
    r2: ReadingView,
    n2: u64,
)
    requires
        spec_find_room(rooms, r1.address) is None,
        r2.address == r1.address,
    ensures
        spec_update_rooms(rooms, r1, n1).len() == rooms.len() + 1,
        spec_update_rooms(spec_update_rooms(rooms, r1, n1), r2, n2).len() == rooms.len() + 1,
{
    let mid = spec_update_rooms(rooms, r1, n1);
    assert(spec_merge(rooms, r1, n1).len() == rooms.len() + 1);
    assert(mid.len() == rooms.len() + 1);
    assert(mid[rooms.len() as int] == swept_room(spec_merge(rooms, r1, n1)[rooms.len() as int], n1));
    assert(mid[rooms.len() as int].sensor_address == r1.address);
    lemma_spec_find_room(mid, r2.address);
    match spec_find_room(mid, r2.address) {
        Some(i) => {
            assert(spec_merge(mid, r2, n2).len() == mid.len());
        },
        None => {
            assert(mid[rooms.len() as int].sensor_address != r2.address);
            assert(false);
        },
    }
}

} // verus!
