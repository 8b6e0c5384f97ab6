use device_registry::records::StoreDevice;
use device_registry::registry::{Registry, RegistryError};

fn add(reg: &mut Registry, name: &str) {
    let r = reg.add_device(
        "10.0.0.5".to_string(),
        "abc".to_string(),
        "yeelink.light.lamp1".to_string(),
        name.to_string(),
    );
    assert!(r.is_ok());
}

#[test]
fn store_device_new_keeps_fields() {
    let d = StoreDevice::new(
        "lamp1".to_string(),
        "10.0.0.5".to_string(),
        "abc".to_string(),
        "yeelink.light.lamp1".to_string(),
        Vec::new(),
    );
    assert_eq!(d.name, "lamp1");
    assert_eq!(d.ip, "10.0.0.5");
    assert_eq!(d.token, "abc");
    assert_eq!(d.device_type, "yeelink.light.lamp1");
    assert!(d.actions.is_empty());
}

#[test]
fn add_device_offline_yields_found_false_and_persists() {
    let mut reg = Registry::new();
    let view = reg
        .add_device(
            "10.0.0.5".to_string(),
            "abc".to_string(),
            "yeelink.light.lamp1".to_string(),
            "lamp1".to_string(),
        )
        .unwrap();
    // No device is reachable here, so the connection attempt fails without
    // failing the registration.
    assert_eq!(view.name, "lamp1");
    assert_eq!(view.ip, "10.0.0.5");
    assert_eq!(view.token, "abc");
    assert_eq!(view.device_type, "yeelink.light.lamp1");
    assert!(!view.found);
    assert!(view.methods.is_empty());
    assert!(view.actions.is_empty());

    let stored = reg.get_stored(&"lamp1".to_string()).unwrap();
    assert_eq!(stored.name, "lamp1");
    assert_eq!(stored.ip, "10.0.0.5");
    assert_eq!(stored.token, "abc");
    assert_eq!(stored.device_type, "yeelink.light.lamp1");
    assert!(stored.actions.is_empty());
}

#[test]
fn add_duplicate_name_fails_and_leaves_state() {
    let mut reg = Registry::new();
    add(&mut reg, "lamp1");
    let before = reg.get_state_devices();
    let r = reg.add_device(
        "10.0.0.9".to_string(),
        "zzz".to_string(),
        "other.type".to_string(),
        "lamp1".to_string(),
    );
    assert!(matches!(r, Err(RegistryError::DuplicateName)));
    let after = reg.get_state_devices();
    assert_eq!(after.len(), before.len());
    let stored = reg.get_stored(&"lamp1".to_string()).unwrap();
    assert_eq!(stored.ip, "10.0.0.5");
    assert_eq!(stored.token, "abc");
}

#[test]
fn add_sequence_lists_exactly_those_names() {
    let mut reg = Registry::new();
    add(&mut reg, "lamp1");
    add(&mut reg, "lamp2");
    add(&mut reg, "fan1");
    let views = reg.get_state_devices();
    let names: Vec<&str> = views.iter().map(|v| v.name.as_str()).collect();
    assert_eq!(names, vec!["lamp1", "lamp2", "fan1"]);
    for n in ["lamp1", "lamp2", "fan1"] {
        let stored = reg.get_stored(&n.to_string()).unwrap();
        assert_eq!(stored.name, n);
        assert_eq!(stored.ip, "10.0.0.5");
        assert_eq!(stored.token, "abc");
        assert_eq!(stored.device_type, "yeelink.light.lamp1");
    }
}

#[test]
fn remove_unknown_name_is_not_found() {
    let mut reg = Registry::new();
    add(&mut reg, "lamp1");
    let r = reg.remove_device(&"nosuch".to_string());
    assert!(matches!(r, Err(RegistryError::NotFound)));
    assert_eq!(reg.get_state_devices().len(), 1);
}

#[test]
fn remove_known_name_removes_everywhere() {
    let mut reg = Registry::new();
    add(&mut reg, "lamp1");
    add(&mut reg, "lamp2");
    let r = reg.remove_device(&"lamp1".to_string());
    assert!(r.is_ok());
    let names: Vec<String> = reg.get_state_devices().into_iter().map(|v| v.name).collect();
    assert_eq!(names, vec!["lamp2".to_string()]);
    assert!(reg.get_stored(&"lamp1".to_string()).is_none());
    assert!(reg.get_stored(&"lamp2".to_string()).is_some());
}

#[test]
fn load_devices_skips_invalid_and_duplicate_entries() {
    let mut reg = Registry::new();
    let rec1 = StoreDevice::new(
        "lamp1".to_string(),
        "10.0.0.5".to_string(),
        "abc".to_string(),
        "t".to_string(),
        Vec::new(),
    );
    let rec2 = StoreDevice::new(
        "lamp2".to_string(),
        "10.0.0.6".to_string(),
        "def".to_string(),
        "t".to_string(),
        Vec::new(),
    );
    let dup = StoreDevice::new(
        "lamp1".to_string(),
        "10.0.0.7".to_string(),
        "ghi".to_string(),
        "t".to_string(),
        Vec::new(),
    );
    reg.load_devices(vec![Some(rec1), None, Some(rec2), Some(dup)]);
    let names: Vec<String> = reg.get_state_devices().into_iter().map(|v| v.name).collect();
    assert_eq!(names, vec!["lamp1".to_string(), "lamp2".to_string()]);
    let stored = reg.get_stored(&"lamp1".to_string()).unwrap();
    assert_eq!(stored.ip, "10.0.0.5");
}

#[test]
fn get_stored_unknown_is_none() {
    let reg = Registry::new();
    assert!(reg.get_stored(&"lamp1".to_string()).is_none());
}
