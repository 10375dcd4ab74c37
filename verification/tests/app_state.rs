use personal_server::app_state::{AppState, Sensor, SensorData};

fn int_sensor(name: &str, value: i32) -> Sensor {
    Sensor::Int(SensorData {
        name: name.to_string(),
        description: "d".to_string(),
        value,
        limit: 100,
        warning: false,
    })
}

fn value_of(s: &Sensor) -> String {
    match s {
        Sensor::Int(d) => format!("int {} {}", d.name, d.value),
        Sensor::Float(d) => format!("float {} {}", d.name, f64::from_bits(d.value)),
        Sensor::Bool(d) => format!("bool {} {}", d.name, d.value),
    }
}

#[test]
fn new_state() {
    let st = AppState::new("ok".to_string());
    assert_eq!(st.status, "ok");
    assert_eq!(st.health, 0);
    assert!(st.sensors.is_empty());
}

#[test]
fn set_health_sets_and_reports() {
    let mut st = AppState::new("ok".to_string());
    let r = st.set_health(42);
    assert_eq!(st.health, 42);
    assert_eq!(r.value, 42);
    assert_eq!(r.message, "Health value successfully set to: 42");
    let r = st.set_health(u64::MAX);
    assert_eq!(r.message, format!("Health value successfully set to: {}", u64::MAX));
    let r = st.set_health(0);
    assert_eq!(r.message, "Health value successfully set to: 0");
    assert_eq!(st.status, "ok");
}

#[test]
fn add_sensor_replaces_a_sensor_of_the_same_name() {
    let mut st = AppState::new("ok".to_string());
    st.add_sensor("temp".to_string(), int_sensor("t", 1));
    st.add_sensor("door".to_string(), Sensor::Bool(SensorData {
        name: "door".to_string(),
        description: "front".to_string(),
        value: true,
        limit: false,
        warning: true,
    }));
    st.add_sensor("temp".to_string(), int_sensor("t", 2));
    st.add_sensor("speed".to_string(), Sensor::Float(SensorData {
        name: "speed".to_string(),
        description: "m/s".to_string(),
        value: 1.5f64.to_bits(),
        limit: 3.0f64.to_bits(),
        warning: false,
    }));
    let shown: Vec<String> =
        st.sensors.iter().map(|(k, s)| format!("{} => {}", k, value_of(s))).collect();
    assert_eq!(
        shown,
        vec![
            "temp => int t 2".to_string(),
            "door => bool door true".to_string(),
            "speed => float speed 1.5".to_string(),
        ]
    );
}
