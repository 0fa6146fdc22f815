use heatmon::codec::TPSensorData;
use heatmon::persist::{
    create_rooms, default_rooms, deserialize, load_rooms, serialize, store_rooms,
    StoredHistoryItem, StoredRoom,
};
use heatmon::rooms::{HeatingActor, HeatingState, Room, SensorHistoryItem};

fn reading(address: &str, temperature: i16, humidity: u8) -> TPSensorData {
    TPSensorData { address: address.to_string(), temperature, humidity }
}

#[test]
fn clock_conversion_round_trips() {
    // Monotonic instant 100 at monotonic-now 150 and wall-now 1_000 is
    // stored as wall 950 and reconstructed exactly.
    assert_eq!(serialize(100, 150, 1_000), 950);
    assert_eq!(deserialize(950, 150, 1_000), Some(100));
    // A wall value from before the monotonic clock's zero — history from an
    // earlier run — is clamped to that zero.
    assert_eq!(deserialize(100, 150, 1_000), Some(0));
    assert_eq!(deserialize(0, 150, 1_000), Some(0));
    // Only a wall value from the future is rejected.
    assert_eq!(deserialize(1_001, 150, 1_000), None);
}

#[test]
fn store_then_load_preserves_configuration() {
    let rooms = vec![Room {
        name: "Schlafzimmer".to_string(),
        sensor_address: "D1:D7:3F:67:8C:EF".to_string(),
        sensor_ttl: Some(1_300),
        sensor: Some(reading("D1:D7:3F:67:8C:EF", 232, 44)),
        sensor_history: vec![
            SensorHistoryItem { data: reading("D1:D7:3F:67:8C:EF", 230, 43), timestamp: 900 },
            SensorHistoryItem { data: reading("D1:D7:3F:67:8C:EF", 232, 44), timestamp: 1_000 },
        ],
        actor: Some(HeatingActor {
            address: "http://shellypro3-ece334ed1928.local/relay/2".to_string(),
            state: HeatingState::Manual(3),
        }),
    }];

    let stored = store_rooms(&rooms, 2_000, 50_000);
    assert_eq!(stored.len(), 1);
    // Wall-clock form: 50_000 - (2_000 - t).
    assert_eq!(stored[0].sensor_history[0].timestamp, 48_900);
    assert_eq!(stored[0].sensor_history[1].timestamp, 49_000);

    let reloaded = load_rooms(&stored, 2_000, 50_000).unwrap();
    assert_eq!(reloaded.len(), 1);
    let room = &reloaded[0];
    assert_eq!(room.name, "Schlafzimmer");
    assert_eq!(room.sensor_address, "D1:D7:3F:67:8C:EF");
    assert_eq!(room.sensor, Some(reading("D1:D7:3F:67:8C:EF", 232, 44)));
    assert_eq!(room.sensor_ttl, None);
    assert_eq!(room.sensor_history.len(), 2);
    assert_eq!(room.sensor_history[0].timestamp, 900);
    assert_eq!(room.sensor_history[1].timestamp, 1_000);
    let actor = room.actor.as_ref().unwrap();
    assert_eq!(actor.address, "http://shellypro3-ece334ed1928.local/relay/2");
    assert_eq!(actor.state, HeatingState::Manual(3));
}

#[test]
fn reload_on_a_later_run_preserves_configuration() {
    let rooms = vec![Room {
        name: "Werkstatt".to_string(),
        sensor_address: "AA:BB:CC:DD:EE:FF".to_string(),
        sensor_ttl: Some(1_300),
        sensor: Some(reading("AA:BB:CC:DD:EE:FF", 198, 55)),
        sensor_history: vec![SensorHistoryItem {
            data: reading("AA:BB:CC:DD:EE:FF", 197, 54),
            timestamp: 1_000,
        }],
        actor: Some(HeatingActor {
            address: "http://heater.local/relay/0".to_string(),
            state: HeatingState::Manual(5),
        }),
    }];

    // Saved late in one run (monotonic 2_000, wall 50_000), reloaded early
    // in the next (monotonic 5, wall 60_000): the wall age of the entry
    // exceeds the new monotonic clock, so its timestamp clamps to 0, and
    // everything else comes back exactly.
    let stored = store_rooms(&rooms, 2_000, 50_000);
    let reloaded = load_rooms(&stored, 5, 60_000).unwrap();
    assert_eq!(reloaded.len(), 1);
    let room = &reloaded[0];
    assert_eq!(room.name, "Werkstatt");
    assert_eq!(room.sensor_address, "AA:BB:CC:DD:EE:FF");
    assert_eq!(room.sensor, Some(reading("AA:BB:CC:DD:EE:FF", 198, 55)));
    assert_eq!(room.sensor_ttl, None);
    assert_eq!(room.sensor_history.len(), 1);
    assert_eq!(room.sensor_history[0].data, reading("AA:BB:CC:DD:EE:FF", 197, 54));
    assert_eq!(room.sensor_history[0].timestamp, 0);
    let actor = room.actor.as_ref().unwrap();
    assert_eq!(actor.address, "http://heater.local/relay/0");
    assert_eq!(actor.state, HeatingState::Manual(5));

    // The same document through startup keeps the configured room rather
    // than falling back to the defaults.
    let rooms_at_startup = create_rooms(Some(stored), 5, 60_000);
    assert_eq!(rooms_at_startup.len(), 1);
    assert_eq!(rooms_at_startup[0].name, "Werkstatt");
}

#[test]
fn unreconstructable_document_is_rejected_whole() {
    let stored = vec![StoredRoom {
        name: "x".to_string(),
        sensor_address: "y".to_string(),
        sensor: None,
        sensor_history: vec![StoredHistoryItem {
            data: reading("y", 1, 1),
            // In the future of wall-now 50_000: nothing can be
            // reconstructed.
            timestamp: 50_001,
        }],
        actor: None,
    }];
    assert!(load_rooms(&stored, 2_000, 50_000).is_none());
    // Startup falls back to the built-in list.
    let rooms = create_rooms(Some(stored), 2_000, 50_000);
    assert_eq!(rooms.len(), 6);
    assert_eq!(rooms[0].name, "Galerie");
}

#[test]
fn startup_without_a_document_uses_the_defaults() {
    let rooms = create_rooms(None, 2_000, 50_000);
    let defaults = default_rooms();
    assert_eq!(rooms.len(), 6);
    assert_eq!(defaults.len(), 6);
    let names: Vec<&str> = rooms.iter().map(|r| r.name.as_str()).collect();
    assert_eq!(
        names,
        vec!["Galerie", "Schlafzimmer", "Kinderzimmer", "Küche/Diele", "Wohnzimmer", "Bäckerei"]
    );
    assert_eq!(rooms[1].sensor_address, "D1:D7:3F:67:8C:EF");
    let actor = rooms[1].actor.as_ref().unwrap();
    assert_eq!(actor.state, HeatingState::Manual(3));
    for room in &rooms {
        assert!(room.sensor.is_none());
        assert!(room.sensor_ttl.is_none());
        assert!(room.sensor_history.is_empty());
    }
    assert!(rooms[0].actor.is_none());
}

#[test]
fn startup_with_a_good_document_uses_it() {
    let stored = vec![StoredRoom {
        name: "Galerie".to_string(),
        sensor_address: "10:76:36:76:66:1E".to_string(),
        sensor: None,
        sensor_history: Vec::new(),
        actor: None,
    }];
    let rooms = create_rooms(Some(stored), 2_000, 50_000);
    assert_eq!(rooms.len(), 1);
    assert_eq!(rooms[0].name, "Galerie");
}
