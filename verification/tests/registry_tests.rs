use heatmon::codec::TPSensorData;
use heatmon::registry::update_rooms;
use heatmon::rooms::Room;

fn reading(address: &str, temperature: i16, humidity: u8) -> TPSensorData {
    TPSensorData { address: address.to_string(), temperature, humidity }
}

fn bare_room(name: &str, address: &str) -> Room {
    Room {
        name: name.to_string(),
        sensor_address: address.to_string(),
        sensor_ttl: None,
        sensor: None,
        sensor_history: Vec::new(),
        actor: None,
    }
}

#[test]
fn unseen_address_creates_exactly_one_room() {
    let mut rooms: Vec<Room> = vec![bare_room("Galerie", "AA:BB")];
    update_rooms(&mut rooms, reading("CC:DD", 200, 50), 1_000);
    assert_eq!(rooms.len(), 2);
    assert_eq!(rooms[1].name, "CC:DD");
    assert_eq!(rooms[1].sensor_address, "CC:DD");
    assert_eq!(rooms[1].sensor, Some(reading("CC:DD", 200, 50)));
    assert_eq!(rooms[1].sensor_ttl, Some(1_300));
    assert!(rooms[1].sensor_history.is_empty());
    assert!(rooms[1].actor.is_none());
}

#[test]
fn second_reading_updates_the_same_room() {
    let mut rooms: Vec<Room> = Vec::new();
    update_rooms(&mut rooms, reading("CC:DD", 200, 50), 1_000);
    assert_eq!(rooms.len(), 1);
    update_rooms(&mut rooms, reading("CC:DD", 210, 51), 1_010);
    assert_eq!(rooms.len(), 1);
    assert_eq!(rooms[0].sensor, Some(reading("CC:DD", 210, 51)));
    assert_eq!(rooms[0].sensor_ttl, Some(1_310));
    assert_eq!(rooms[0].sensor_history.len(), 1);
    assert_eq!(rooms[0].sensor_history[0].timestamp, 1_010);
}

#[test]
fn merge_targets_the_first_matching_room() {
    let mut rooms: Vec<Room> = vec![
        bare_room("first", "AA:BB"),
        bare_room("second", "AA:BB"),
    ];
    update_rooms(&mut rooms, reading("AA:BB", 195, 40), 2_000);
    assert_eq!(rooms.len(), 2);
    assert!(rooms[0].sensor.is_some());
    assert!(rooms[1].sensor.is_none());
}

#[test]
fn reading_expires_only_after_the_deadline() {
    let mut rooms: Vec<Room> = Vec::new();
    update_rooms(&mut rooms, reading("AA:BB", 220, 45), 1_000);
    update_rooms(&mut rooms, reading("AA:BB", 220, 45), 1_100);
    assert_eq!(rooms[0].sensor_ttl, Some(1_400));
    assert_eq!(rooms[0].sensor_history.len(), 1);

    // A sweep exactly at the deadline keeps the reading.
    update_rooms(&mut rooms, reading("CC:DD", 100, 30), 1_400);
    assert!(rooms[0].sensor.is_some());
    assert_eq!(rooms[0].sensor_ttl, Some(1_400));

    // The first sweep past the deadline clears reading and deadline but
    // keeps the history.
    update_rooms(&mut rooms, reading("CC:DD", 100, 30), 1_401);
    assert!(rooms[0].sensor.is_none());
    assert!(rooms[0].sensor_ttl.is_none());
    assert_eq!(rooms[0].sensor_history.len(), 1);
}

#[test]
fn history_is_trimmed_to_the_retention_window() {
    let mut rooms: Vec<Room> = Vec::new();
    update_rooms(&mut rooms, reading("AA:BB", 210, 40), 100);
    update_rooms(&mut rooms, reading("AA:BB", 211, 41), 200);
    update_rooms(&mut rooms, reading("AA:BB", 212, 42), 86_600);
    let history = &rooms[0].sensor_history;
    // The entry merged at 100 is older than 86_600 - 86_400 and is gone;
    // the entries from 200 and 86_600 remain.
    assert_eq!(history.len(), 2);
    assert_eq!(history[0].timestamp, 200);
    assert_eq!(history[1].timestamp, 86_600);
    for item in history {
        assert!(item.timestamp + 86_400 >= 86_600);
    }
}

#[test]
fn sweep_leaves_unexpired_rooms_alone() {
    let mut rooms: Vec<Room> = Vec::new();
    update_rooms(&mut rooms, reading("AA:BB", 210, 40), 1_000);
    update_rooms(&mut rooms, reading("CC:DD", 211, 41), 1_100);
    // Both deadlines (1_300 and 1_400) are in the future at 1_200.
    update_rooms(&mut rooms, reading("AA:BB", 212, 42), 1_200);
    assert!(rooms[0].sensor.is_some());
    assert!(rooms[1].sensor.is_some());
    assert_eq!(rooms[0].sensor_ttl, Some(1_500));
    assert_eq!(rooms[1].sensor_ttl, Some(1_400));
}
