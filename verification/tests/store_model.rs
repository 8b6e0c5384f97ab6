use device_registry::records::StoreDevice;
use device_registry::store::DeviceStore;

fn rec(name: &str, ip: &str) -> StoreDevice {
    StoreDevice::new(
        name.to_string(),
        ip.to_string(),
        "tok".to_string(),
        "t".to_string(),
        Vec::new(),
    )
}

#[test]
fn empty_store_has_nothing() {
    let s = DeviceStore::empty();
    assert_eq!(s.len(), 0);
    assert!(!s.has(&"lamp1".to_string()));
    assert!(s.get(&"lamp1".to_string()).is_none());
}

#[test]
fn set_appends_fresh_key_and_overwrites_in_place() {
    let mut s = DeviceStore::empty();
    s.set("lamp1".to_string(), rec("lamp1", "10.0.0.5"));
    s.set("lamp2".to_string(), rec("lamp2", "10.0.0.6"));
    assert_eq!(s.len(), 2);
    assert_eq!(s.get(&"lamp1".to_string()).unwrap().ip, "10.0.0.5");

    s.set("lamp1".to_string(), rec("lamp1", "10.0.0.7"));
    assert_eq!(s.len(), 2);
    assert_eq!(s.get(&"lamp1".to_string()).unwrap().ip, "10.0.0.7");
    assert_eq!(s.get(&"lamp2".to_string()).unwrap().ip, "10.0.0.6");
}

#[test]
fn delete_reports_presence_and_removes() {
    let mut s = DeviceStore::empty();
    s.set("lamp1".to_string(), rec("lamp1", "10.0.0.5"));
    assert!(!s.delete(&"nosuch".to_string()));
    assert_eq!(s.len(), 1);
    assert!(s.delete(&"lamp1".to_string()));
    assert_eq!(s.len(), 0);
    assert!(!s.has(&"lamp1".to_string()));
    assert!(!s.delete(&"lamp1".to_string()));
}
