use audio_flow::{contains_id, Route, RoutingTable};

fn route(input: &str, output: &str, gain_db: f32, enabled: bool) -> Route<f32> {
    Route {
        input_device_id: input.to_string(),
        output_device_id: output.to_string(),
        gain_db,
        enabled,
    }
}

fn pairs(table: &RoutingTable<f32>) -> Vec<(String, String, f32, bool)> {
    table
        .routes()
        .iter()
        .map(|r| (r.input_device_id.clone(), r.output_device_id.clone(), r.gain_db, r.enabled))
        .collect()
}

#[test]
fn duplicate_routes_coexist() {
    let mut table = RoutingTable::new();
    table.add(route("a", "x", 0.0, true));
    table.add(route("a", "x", -6.0, false));
    assert_eq!(table.routes().len(), 2);
}

#[test]
fn remove_deletes_every_matching_pair() {
    let mut table = RoutingTable::new();
    table.add(route("a", "x", 0.0, true));
    table.add(route("a", "y", 0.0, true));
    table.add(route("a", "x", 3.0, false));
    table.add(route("b", "x", 0.0, true));
    table.remove("a", "x");
    assert_eq!(
        pairs(&table),
        vec![
            ("a".to_string(), "y".to_string(), 0.0, true),
            ("b".to_string(), "x".to_string(), 0.0, true),
        ]
    );
    table.remove("zz", "x");
    assert_eq!(table.routes().len(), 2);
}

#[test]
fn set_gain_updates_every_route_of_the_input() {
    let mut table = RoutingTable::new();
    table.add(route("a", "x", 0.0, true));
    table.add(route("b", "x", 1.0, true));
    table.add(route("a", "y", 2.0, false));
    table.set_gain("a", -12.0);
    assert_eq!(
        pairs(&table),
        vec![
            ("a".to_string(), "x".to_string(), -12.0, true),
            ("b".to_string(), "x".to_string(), 1.0, true),
            ("a".to_string(), "y".to_string(), -12.0, false),
        ]
    );
    assert_eq!(table.device_gain("a"), Some(-12.0));
    assert_eq!(table.device_gain("b"), None);
}

#[test]
fn device_gains_keep_one_entry_per_device() {
    let mut table: RoutingTable<f32> = RoutingTable::new();
    table.set_gain("a", 1.0);
    table.set_gain("b", 2.0);
    table.set_gain("a", 3.0);
    assert_eq!(table.device_gain("a"), Some(3.0));
    assert_eq!(table.device_gain("b"), Some(2.0));
    assert_eq!(table.gain_entries().len(), 2);
}

#[test]
fn enabled_devices_are_distinct() {
    let mut table = RoutingTable::new();
    table.add(route("a", "x", 0.0, true));
    table.add(route("b", "x", 0.0, true));
    table.add(route("a", "y", 0.0, true));
    table.add(route("c", "z", 0.0, false));
    assert_eq!(table.enabled_devices(true), vec!["a".to_string(), "b".to_string()]);
    assert_eq!(table.enabled_devices(false), vec!["x".to_string(), "y".to_string()]);
}

#[test]
fn routes_for_output_keeps_enabled_ones() {
    let mut table = RoutingTable::new();
    table.add(route("a", "x", 0.0, true));
    table.add(route("b", "x", 0.0, false));
    table.add(route("c", "y", 0.0, true));
    table.add(route("d", "x", 4.0, true));
    let snapshot = table.routes_for_output("x");
    let inputs: Vec<&str> = snapshot.iter().map(|r| r.input_device_id.as_str()).collect();
    assert_eq!(inputs, vec!["a", "d"]);
    assert!(table.routes_for_output("none").is_empty());
}

#[test]
fn contains_id_finds_listed_ids() {
    let ids = vec!["a".to_string(), "bc".to_string()];
    assert!(contains_id(&ids, &"bc".to_string()));
    assert!(!contains_id(&ids, &"b".to_string()));
}
