use tagdriver::dbus::{BusType, DBusPropertyAdress, DBusProxyAdress, NMDeviceState};
use tagdriver::state::{
    ApplicationState, ApplicationStateError, NetworkState, StateValue, StateValueType,
};

fn volume_property() -> DBusPropertyAdress {
    DBusPropertyAdress::new(
        DBusProxyAdress::new(
            BusType::Session,
            "org.mpris.MediaPlayer2.playerctld".to_string(),
            "/org/mpris/MediaPlayer2".to_string(),
        ),
        "org.mpris.MediaPlayer2.Player".to_string(),
        "Volume".to_string(),
    )
}

fn sample_state() -> ApplicationState {
    let mut st = ApplicationState::new();
    st.insert("player:volume".to_string(), StateValue::dbus(volume_property()));
    st.insert("workspace:active".to_string(), StateValue::new(Some(StateValueType::U64(1))));
    st.insert("wifi:state".to_string(), StateValue::new(None));
    st
}

#[test]
fn missing_key_reads_as_nothing() {
    let st = sample_state();
    assert_eq!(st.get("nope"), None);
    assert!(!st.contains_key("nope"));
    assert_eq!(st.get("wifi:state"), None);
    assert!(st.contains_key("wifi:state"));
    assert_eq!(st.get("workspace:active"), Some(StateValueType::U64(1)));
}

#[test]
fn update_of_missing_key_fails_and_changes_nothing() {
    let mut st = sample_state();
    let r = st.update("nope", Some(StateValueType::U64(3)));
    assert_eq!(r, Err(ApplicationStateError::DoesNotExistError("nope".to_string())));
    assert!(!st.contains_key("nope"));
}

#[test]
fn update_reports_whether_value_changed() {
    let mut st = sample_state();
    assert_eq!(st.update("workspace:active", Some(StateValueType::U64(1))), Ok(false));
    assert_eq!(st.update("workspace:active", Some(StateValueType::U64(2))), Ok(true));
    assert_eq!(st.get("workspace:active"), Some(StateValueType::U64(2)));
    assert_eq!(st.update("workspace:active", Some(StateValueType::I64(2))), Ok(true));
    assert_eq!(st.update("workspace:active", None), Ok(true));
    assert_eq!(st.get("workspace:active"), None);
}

#[test]
fn update_multiple_is_all_or_nothing() {
    let mut st = sample_state();
    let r = st.update_multiple(vec![
        ("workspace:active".to_string(), Some(StateValueType::U64(5))),
        ("missing".to_string(), None),
    ]);
    assert_eq!(r, Err(ApplicationStateError::DoesNotExistError("missing".to_string())));
    assert_eq!(st.get("workspace:active"), Some(StateValueType::U64(1)));

    let r = st.update_multiple(vec![
        ("workspace:active".to_string(), Some(StateValueType::U64(1))),
        (
            "wifi:state".to_string(),
            Some(StateValueType::Network(NetworkState::Connected)),
        ),
    ]);
    assert_eq!(r, Ok(true));
    assert_eq!(st.get("wifi:state"), Some(StateValueType::Network(NetworkState::Connected)));

    let r = st.update_multiple(vec![("workspace:active".to_string(), Some(StateValueType::U64(1)))]);
    assert_eq!(r, Ok(false));
}

#[test]
fn bus_properties_are_found_by_address() {
    let mut st = sample_state();
    assert_eq!(st.get_value_dbus(&volume_property()), Ok(None));
    let old = st.update_dbus(&volume_property(), StateValueType::F64Bits(0.5f64.to_bits()));
    assert_eq!(old, Ok(None));
    assert_eq!(
        st.get("player:volume"),
        Some(StateValueType::F64Bits(0.5f64.to_bits()))
    );
    assert_eq!(
        st.get_value_dbus(&volume_property()),
        Ok(Some(StateValueType::F64Bits(0.5f64.to_bits())))
    );

    let mut other = volume_property();
    other.property = "Rate".to_string();
    assert_eq!(
        st.get_value_dbus(&other),
        Err(ApplicationStateError::DoesNotExistError("Rate".to_string()))
    );
    assert_eq!(
        st.update_dbus(&other, StateValueType::U64(1)),
        Err(ApplicationStateError::DoesNotExistError("Rate".to_string()))
    );
}

#[test]
fn insert_replaces_existing_entry() {
    let mut st = sample_state();
    st.insert("workspace:active".to_string(), StateValue::new(Some(StateValueType::U64(9))));
    assert_eq!(st.get("workspace:active"), Some(StateValueType::U64(9)));
}

#[test]
fn device_state_codes() {
    assert_eq!(NMDeviceState::from_int(100), NMDeviceState::Activated);
    assert_eq!(NMDeviceState::from_int(0), NMDeviceState::Unknown);
    assert_eq!(NMDeviceState::from_int(5), NMDeviceState::Unknown);
    assert_eq!(NMDeviceState::from_int(120), NMDeviceState::Failed);
    assert_eq!(NMDeviceState::from_int(70).network_state(), NetworkState::Connecting);
    assert_eq!(NMDeviceState::from_int(20).network_state(), NetworkState::Disabled);
    assert_eq!(NMDeviceState::from_int(110).network_state(), NetworkState::Disconnected);
    assert_eq!(NMDeviceState::Activated.network_state(), NetworkState::Connected);
}

#[test]
fn property_addresses_compare_by_contents() {
    let a = volume_property();
    let mut b = volume_property();
    assert!(a.same_as(&b));
    b.proxy.bus = BusType::System;
    assert!(!a.same_as(&b));
}
