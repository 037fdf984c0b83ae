use pricing_engine::input::{calculate_input_costs, lookup_cost, resolve_input_cost};
use pricing_engine::node::index_nodes_by_path;
use pricing_engine::{Input, NodeKind, PricingError, PricingNode, Scalar, Value};

fn label(path: &str, value: &str, cost: i32) -> PricingNode {
    PricingNode {
        path: path.to_string(),
        kind: NodeKind::Label,
        cost: Value::from_int(cost),
        value: Some(Scalar::Text(value.to_string())),
    }
}

fn numeric(path: &str, cost: i32) -> PricingNode {
    PricingNode {
        path: path.to_string(),
        kind: NodeKind::Numeric,
        cost: Value::from_int(cost),
        value: None,
    }
}

fn text_input(path: &str, value: &str) -> Input {
    Input { path: path.to_string(), value: Scalar::Text(value.to_string()) }
}

fn number_input(path: &str, micros: i64) -> Input {
    Input { path: path.to_string(), value: Scalar::Number(Value::from_micros(micros)) }
}

fn catalog() -> Vec<PricingNode> {
    vec![
        label("/material", "tpa", 100),
        label("/material", "pla", 20),
        label("/material", "resin", 0),
        label("/material/resin/color", "red", 30),
        label("/material/resin/color", "blue", 30),
        label("/material/pla/color", "blue", 300),
        numeric("/volume", 10),
        numeric("/time_taken", 100),
    ]
}

#[test]
fn index_lists_each_path_once_in_catalog_order() {
    let index = index_nodes_by_path(&catalog());
    assert_eq!(
        index.paths,
        vec![
            "/material".to_string(),
            "/material/resin/color".to_string(),
            "/material/pla/color".to_string(),
            "/volume".to_string(),
            "/time_taken".to_string(),
        ]
    );
    assert_eq!(index.labels.len(), 6);
    assert_eq!(index.numerics.len(), 2);
}

#[test]
fn index_of_empty_catalog_is_empty() {
    let index = index_nodes_by_path(&Vec::new());
    assert!(index.paths.is_empty());
    assert!(index.labels.is_empty());
    assert!(index.numerics.is_empty());
    assert_eq!(index.find_label("/a", "b"), None);
    assert_eq!(index.find_numeric("/a"), None);
}

#[test]
fn label_lookup_goes_by_path_and_value() {
    let index = index_nodes_by_path(&catalog());
    assert_eq!(index.find_label("/material", "pla"), Some(Value::from_int(20)));
    assert_eq!(index.find_label("/material", "resin"), Some(Value::zero()));
    assert_eq!(index.find_label("/material/pla/color", "blue"), Some(Value::from_int(300)));
    assert_eq!(index.find_label("/material/pla/color", "red"), None);
    assert_eq!(index.find_label("/volume", "pla"), None);
}

#[test]
fn last_node_wins_on_a_repeated_key() {
    let mut nodes = catalog();
    nodes.push(label("/material", "pla", 25));
    nodes.push(numeric("/volume", 12));
    let index = index_nodes_by_path(&nodes);
    assert_eq!(index.find_label("/material", "pla"), Some(Value::from_int(25)));
    assert_eq!(index.find_numeric("/volume"), Some(Value::from_int(12)));
    assert_eq!(index.find_numeric("/time_taken"), Some(Value::from_int(100)));
    assert_eq!(index.paths.len(), 5);
}

#[test]
fn label_values_are_keyed_by_their_text() {
    let nodes = vec![
        PricingNode {
            path: "/sides".to_string(),
            kind: NodeKind::Label,
            cost: Value::from_int(7),
            value: Some(Scalar::Number(Value::from_int(2))),
        },
        PricingNode {
            path: "/glossy".to_string(),
            kind: NodeKind::Label,
            cost: Value::from_int(9),
            value: Some(Scalar::Bool(true)),
        },
        PricingNode {
            path: "/ghost".to_string(),
            kind: NodeKind::Label,
            cost: Value::from_int(1),
            value: None,
        },
        PricingNode {
            path: "/none".to_string(),
            kind: NodeKind::Label,
            cost: Value::from_int(3),
            value: Some(Scalar::Null),
        },
    ];
    let index = index_nodes_by_path(&nodes);
    assert_eq!(index.find_label("/sides", "2"), Some(Value::from_int(7)));
    assert_eq!(index.find_label("/glossy", "true"), Some(Value::from_int(9)));
    assert_eq!(index.find_label("/glossy", "false"), None);
    assert_eq!(index.find_label("/none", "null"), Some(Value::from_int(3)));
    assert_eq!(index.labels.len(), 3);
    assert_eq!(index.paths.len(), 4);
    assert_eq!(index.values_at("/sides"), vec!["2".to_string()]);
}

#[test]
fn values_at_lists_the_label_values_of_a_path() {
    let index = index_nodes_by_path(&catalog());
    assert_eq!(
        index.values_at("/material"),
        vec!["tpa".to_string(), "pla".to_string(), "resin".to_string()]
    );
    assert!(index.values_at("/volume").is_empty());
}

#[test]
fn numeric_input_costs_quantity_times_unit_cost() {
    let index = index_nodes_by_path(&catalog());
    assert_eq!(
        resolve_input_cost(&number_input("/volume", 2_000_000), &index),
        Ok(Value::from_int(20))
    );
    assert_eq!(
        resolve_input_cost(&number_input("/time_taken", 1_500_000), &index),
        Ok(Value::from_int(150))
    );
    assert_eq!(
        resolve_input_cost(&number_input("/volume", -250_000), &index),
        Ok(Value::from_micros(-2_500_000))
    );
}

#[test]
fn label_input_costs_its_flat_cost() {
    let index = index_nodes_by_path(&catalog());
    assert_eq!(
        resolve_input_cost(&text_input("/material/resin/color", "blue"), &index),
        Ok(Value::from_int(30))
    );
    assert_eq!(resolve_input_cost(&text_input("/material", "resin"), &index), Ok(Value::zero()));
}

#[test]
fn label_node_goes_before_a_numeric_node_at_the_same_path() {
    let nodes = vec![
        numeric("/sides", 5),
        PricingNode {
            path: "/sides".to_string(),
            kind: NodeKind::Label,
            cost: Value::from_int(7),
            value: Some(Scalar::Number(Value::from_int(2))),
        },
    ];
    let index = index_nodes_by_path(&nodes);
    // The value 2 has a label node: its flat cost, not 2 * 5.
    assert_eq!(
        resolve_input_cost(&number_input("/sides", 2_000_000), &index),
        Ok(Value::from_int(7))
    );
    // The value 3 has none: 3 * 5.
    assert_eq!(
        resolve_input_cost(&number_input("/sides", 3_000_000), &index),
        Ok(Value::from_int(15))
    );
}

#[test]
fn input_costs_keep_the_order_of_the_inputs() {
    let index = index_nodes_by_path(&catalog());
    let inputs = vec![
        number_input("/volume", 2_000_000),
        number_input("/time_taken", 1_000_000),
        text_input("/material/resin/color", "blue"),
    ];
    let table = calculate_input_costs(&inputs, &index).unwrap();
    assert_eq!(table.len(), 3);
    assert_eq!(table[0].path, "/volume");
    assert_eq!(table[0].cost, Value::from_int(20));
    assert_eq!(table[1].path, "/time_taken");
    assert_eq!(table[1].cost, Value::from_int(100));
    assert_eq!(table[2].path, "/material/resin/color");
    assert_eq!(table[2].cost, Value::from_int(30));
    assert_eq!(lookup_cost(&table, "/time_taken"), Some(Value::from_int(100)));
    assert_eq!(lookup_cost(&table, "/missing"), None);
}

#[test]
fn no_inputs_give_an_empty_table() {
    let index = index_nodes_by_path(&catalog());
    assert_eq!(calculate_input_costs(&Vec::new(), &index), Ok(Vec::new()));
}

#[test]
fn duplicate_input_path_is_rejected() {
    let index = index_nodes_by_path(&catalog());
    let inputs = vec![
        number_input("/volume", 2_000_000),
        text_input("/material", "pla"),
        number_input("/volume", 3_000_000),
    ];
    assert_eq!(
        calculate_input_costs(&inputs, &index),
        Err(PricingError::DuplicateInputPath { path: "/volume".to_string() })
    );
}

#[test]
fn earlier_failure_goes_before_a_later_duplicate() {
    let index = index_nodes_by_path(&catalog());
    let inputs = vec![
        number_input("/volume", 2_000_000),
        text_input("/volume/extra", "x"),
        number_input("/volume", 3_000_000),
    ];
    match calculate_input_costs(&inputs, &index) {
        Err(PricingError::UnknownPath { path, .. }) => assert_eq!(path, "/volume/extra"),
        other => panic!("expected an unknown path, got {:?}", other),
    }
}

#[test]
fn unknown_path_lists_the_known_paths() {
    let index = index_nodes_by_path(&catalog());
    assert_eq!(
        resolve_input_cost(&text_input("/finish", "matte"), &index),
        Err(PricingError::UnknownPath {
            path: "/finish".to_string(),
            known_paths: vec![
                "/material".to_string(),
                "/material/resin/color".to_string(),
                "/material/pla/color".to_string(),
                "/volume".to_string(),
                "/time_taken".to_string(),
            ],
        })
    );
}

#[test]
fn invalid_value_lists_the_valid_values() {
    let index = index_nodes_by_path(&catalog());
    assert_eq!(
        resolve_input_cost(&text_input("/material", "wood"), &index),
        Err(PricingError::InvalidValueForPath {
            path: "/material".to_string(),
            value: "wood".to_string(),
            valid_values: vec!["tpa".to_string(), "pla".to_string(), "resin".to_string()],
        })
    );
}

#[test]
fn numeric_node_refuses_an_input_that_is_no_number() {
    let index = index_nodes_by_path(&catalog());
    assert_eq!(
        resolve_input_cost(&text_input("/volume", "much"), &index),
        Err(PricingError::NonNumericInputForNumericNode {
            path: "/volume".to_string(),
            value: "much".to_string(),
        })
    );
    let flag = Input { path: "/volume".to_string(), value: Scalar::Bool(true) };
    assert_eq!(
        resolve_input_cost(&flag, &index),
        Err(PricingError::NonNumericInputForNumericNode {
            path: "/volume".to_string(),
            value: "true".to_string(),
        })
    );
}

#[test]
fn input_cost_out_of_range_is_reported() {
    let index = index_nodes_by_path(&catalog());
    assert_eq!(
        resolve_input_cost(&number_input("/time_taken", i64::MAX), &index),
        Err(PricingError::NumericOverflow { context: "/time_taken".to_string() })
    );
}

#[test]
fn scalar_text_is_canonical() {
    assert_eq!(Scalar::Null.to_text(), "null");
    assert_eq!(Scalar::Bool(true).to_text(), "true");
    assert_eq!(Scalar::Bool(false).to_text(), "false");
    assert_eq!(Scalar::Number(Value::from_micros(2_500_000)).to_text(), "2.5");
    assert_eq!(Scalar::Text("pla".to_string()).to_text(), "pla");
    assert_eq!(Scalar::Other("[1,2]".to_string()).to_text(), "[1,2]");
}
