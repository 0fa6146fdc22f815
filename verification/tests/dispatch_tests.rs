use heatmon::dispatch::{manual_timer_seconds, update_actors, DispatchError};
use heatmon::rooms::{HeatingActor, HeatingState, Room};

fn room_with_actor(name: &str, state: Option<HeatingState>) -> Room {
    Room {
        name: name.to_string(),
        sensor_address: String::new(),
        sensor_ttl: None,
        sensor: None,
        sensor_history: Vec::new(),
        actor: state.map(|state| HeatingActor {
            address: format!("http://{name}.local/relay/0"),
            state,
        }),
    }
}

#[test]
fn manual_levels_encode_as_on_durations() {
    assert_eq!(manual_timer_seconds(0), 0);
    assert_eq!(manual_timer_seconds(1), 600);
    assert_eq!(manual_timer_seconds(3), 1_800);
    assert_eq!(manual_timer_seconds(6), 3_600);
}

#[test]
fn rooms_without_actuators_plan_nothing() {
    let rooms = vec![
        room_with_actor("a", None),
        room_with_actor("b", None),
    ];
    assert!(update_actors(&rooms).is_empty());
}

#[test]
fn manual_actuators_plan_requests_in_room_order() {
    let rooms = vec![
        room_with_actor("a", Some(HeatingState::Manual(0))),
        room_with_actor("b", None),
        room_with_actor("c", Some(HeatingState::Manual(3))),
        room_with_actor("d", Some(HeatingState::Manual(6))),
    ];
    let plan = update_actors(&rooms);
    assert_eq!(plan.len(), 3);
    let first = plan[0].as_ref().unwrap();
    assert_eq!(first.address, "http://a.local/relay/0");
    assert_eq!(first.timer_seconds, 0);
    let second = plan[1].as_ref().unwrap();
    assert_eq!(second.address, "http://c.local/relay/0");
    assert_eq!(second.timer_seconds, 1_800);
    let third = plan[2].as_ref().unwrap();
    assert_eq!(third.address, "http://d.local/relay/0");
    assert_eq!(third.timer_seconds, 3_600);
}

#[test]
fn auto_actuator_yields_the_not_implemented_error() {
    let rooms = vec![
        room_with_actor("a", Some(HeatingState::Auto(215))),
        room_with_actor("b", Some(HeatingState::Manual(2))),
    ];
    let plan = update_actors(&rooms);
    assert_eq!(plan.len(), 2);
    assert_eq!(plan[0].as_ref().unwrap_err(), &DispatchError::AutoNotImplemented);
    assert_eq!(plan[1].as_ref().unwrap().timer_seconds, 1_200);
}
