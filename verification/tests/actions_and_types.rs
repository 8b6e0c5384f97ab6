use device_registry::records::{Action, Argument};
use device_registry::registry::{wrap_invocation, Registry, RegistryError};

fn add_lamp(reg: &mut Registry) {
    let r = reg.add_device(
        "10.0.0.5".to_string(),
        "abc".to_string(),
        "yeelink.light.lamp1".to_string(),
        "lamp1".to_string(),
    );
    assert!(r.is_ok());
}

fn on_action() -> Action {
    Action {
        name: "on".to_string(),
        method: "set_power".to_string(),
        arguments: vec![Argument { name: "power".to_string(), value: "on".to_string() }],
    }
}

fn toggle_action() -> Action {
    Action { name: "toggle".to_string(), method: "toggle".to_string(), arguments: Vec::new() }
}

fn action_names(reg: &Registry) -> Vec<String> {
    let views = reg.get_state_devices();
    views[0].actions.iter().map(|a| a.name.clone()).collect()
}

#[test]
fn add_then_remove_action_round_trips() {
    let mut reg = Registry::new();
    add_lamp(&mut reg);
    assert!(reg.add_action(&"lamp1".to_string(), toggle_action()).is_ok());
    let before = action_names(&reg);

    assert!(reg.add_action(&"lamp1".to_string(), on_action()).is_ok());
    assert_eq!(action_names(&reg), vec!["toggle".to_string(), "on".to_string()]);
    // The store sees the appended action too.
    let stored = reg.get_stored(&"lamp1".to_string()).unwrap();
    assert_eq!(stored.actions.len(), 2);

    assert!(reg.remove_action(&"lamp1".to_string(), &"on".to_string()).is_ok());
    assert_eq!(action_names(&reg), before);
    let stored = reg.get_stored(&"lamp1".to_string()).unwrap();
    assert_eq!(stored.actions.len(), 1);
    assert_eq!(stored.actions[0].name, "toggle");
}

#[test]
fn add_action_duplicate_name_fails_and_leaves_list() {
    let mut reg = Registry::new();
    add_lamp(&mut reg);
    assert!(reg.add_action(&"lamp1".to_string(), on_action()).is_ok());
    let before = action_names(&reg);
    let mut other = on_action();
    other.method = "set_bright".to_string();
    let r = reg.add_action(&"lamp1".to_string(), other);
    assert!(matches!(r, Err(RegistryError::DuplicateActionName)));
    assert_eq!(action_names(&reg), before);
    let stored = reg.get_stored(&"lamp1".to_string()).unwrap();
    assert_eq!(stored.actions.len(), 1);
    assert_eq!(stored.actions[0].method, "set_power");
}

#[test]
fn add_action_unknown_device_is_not_found() {
    let mut reg = Registry::new();
    let r = reg.add_action(&"lamp1".to_string(), on_action());
    assert!(matches!(r, Err(RegistryError::NotFound)));
}

#[test]
fn remove_action_unknown_action_is_action_not_found() {
    let mut reg = Registry::new();
    add_lamp(&mut reg);
    let r = reg.remove_action(&"lamp1".to_string(), &"nosuch".to_string());
    assert!(matches!(r, Err(RegistryError::ActionNotFound)));
    let r = reg.remove_action(&"nosuch".to_string(), &"on".to_string());
    assert!(matches!(r, Err(RegistryError::NotFound)));
}

#[test]
fn reload_preserves_actions_and_updates_only_liveness() {
    let mut reg = Registry::new();
    add_lamp(&mut reg);
    assert!(reg.add_action(&"lamp1".to_string(), on_action()).is_ok());
    let before = action_names(&reg);
    let view = reg.reload_device(&"lamp1".to_string()).unwrap();
    assert_eq!(view.name, "lamp1");
    assert!(!view.found);
    assert!(view.methods.is_empty());
    assert_eq!(
        view.actions.iter().map(|a| a.name.clone()).collect::<Vec<_>>(),
        before,
    );
    assert_eq!(action_names(&reg), before);
    let r = reg.reload_device(&"nosuch".to_string());
    assert!(matches!(r, Err(RegistryError::NotFound)));
}

#[test]
fn run_action_before_any_connect_is_not_connected() {
    let mut reg = Registry::new();
    add_lamp(&mut reg);
    let r = reg.run_action(&"lamp1".to_string(), &on_action());
    assert!(matches!(r, Err(RegistryError::NotConnected)));
}

#[test]
fn run_action_unknown_device_is_not_found() {
    let reg = Registry::new();
    let r = reg.run_action(&"lamp1".to_string(), &on_action());
    assert!(matches!(r, Err(RegistryError::NotFound)));
}

#[test]
fn device_types_come_back_sorted() {
    let mut reg = Registry::new();
    assert!(reg.get_device_types().is_empty());
    reg.apply_device_types(Some(vec![
        "Yeelight".to_string(),
        "AirHumidifierMiot".to_string(),
        "FanMiot".to_string(),
    ]));
    let types = reg.get_device_types();
    assert_eq!(
        types,
        vec![
            "AirHumidifierMiot".to_string(),
            "FanMiot".to_string(),
            "Yeelight".to_string(),
        ],
    );
}

#[test]
fn failed_catalog_refresh_keeps_previous_cache() {
    let mut reg = Registry::new();
    reg.apply_device_types(Some(vec!["Yeelight".to_string()]));
    // The driver library cannot reach its catalog here, so the query fails
    // and the cache must stay as it was.
    reg.update_device_types();
    let types = reg.get_device_types();
    assert_eq!(types, vec!["Yeelight".to_string()]);
}

#[test]
fn invocation_outcome_hands_raw_result_through_unchanged() {
    let r = wrap_invocation(Ok("['ok']".to_string()));
    assert!(matches!(r, Ok(s) if s == "['ok']"));
    let r = wrap_invocation(Err("timeout".to_string()));
    assert!(matches!(
        r,
        Err(RegistryError::DriverInvocationError(m)) if m == "timeout"
    ));
}

#[test]
fn argument_values_keep_order() {
    let action = Action {
        name: "rgb".to_string(),
        method: "set_rgb".to_string(),
        arguments: vec![
            Argument { name: "r".to_string(), value: "32".to_string() },
            Argument { name: "g".to_string(), value: "64".to_string() },
            Argument { name: "b".to_string(), value: "128".to_string() },
        ],
    };
    assert_eq!(
        action.argument_values(),
        vec!["32".to_string(), "64".to_string(), "128".to_string()],
    );
    assert!(on_action().argument_values() == vec!["on".to_string()]);
}

#[test]
fn default_registry_is_empty() {
    let reg = Registry::default();
    assert!(reg.get_state_devices().is_empty());
    assert!(reg.get_device_types().is_empty());
    assert!(reg.get_stored(&"lamp1".to_string()).is_none());
}

#[test]
fn failed_catalog_query_leaves_empty_cache_empty() {
    let mut reg = Registry::new();
    reg.apply_device_types(None);
    assert!(reg.get_device_types().is_empty());
}
