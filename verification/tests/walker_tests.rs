use orbiter::config::ConfigValue;
use orbiter::usage::UsageMap;
use orbiter::usage::UsageValue;
use orbiter::walker::visit_config;

fn leaf_trio() -> Vec<(String, ConfigValue)> {
    vec![
        ("string_value".to_string(), ConfigValue::Text("b".to_string())),
        ("bool_value".to_string(), ConfigValue::Bool(true)),
        ("numeric_value".to_string(), ConfigValue::Number("4".to_string())),
    ]
}

#[test]
fn test_visit_config() {
    let mut fields = leaf_trio();
    fields.push(("nested_obj".to_string(), ConfigValue::Object(leaf_trio())));
    fields.push((
        "nested_arr".to_string(),
        ConfigValue::Array(vec![
            ConfigValue::Object(leaf_trio()),
            ConfigValue::Object(leaf_trio()),
        ]),
    ));
    let source = ConfigValue::Object(fields);

    let mut usage = UsageMap::new();
    visit_config(&mut usage, "root", &source);

    let expected: Vec<(&str, UsageValue)> = vec![
        ("configuration.root.string_value", UsageValue::SetToken),
        ("configuration.root.bool_value", UsageValue::Bool(true)),
        ("configuration.root.numeric_value", UsageValue::Number("4".to_string())),
        ("configuration.root.nested_obj.string_value", UsageValue::SetToken),
        ("configuration.root.nested_obj.bool_value", UsageValue::Bool(true)),
        ("configuration.root.nested_obj.numeric_value", UsageValue::Number("4".to_string())),
        ("configuration.root.nested_arr.string_value", UsageValue::SetToken),
        ("configuration.root.nested_arr.bool_value", UsageValue::Bool(true)),
        ("configuration.root.nested_arr.numeric_value", UsageValue::Number("4".to_string())),
        ("configuration.root.nested_arr.len", UsageValue::Number("2".to_string())),
    ];
    assert_eq!(usage.len(), expected.len());
    for (key, value) in expected {
        assert_eq!(usage.lookup(key), Some(&value), "{}", key);
    }
}

#[test]
fn null_and_string_leaves() {
    let mut usage = UsageMap::new();
    visit_config(&mut usage, "root", &ConfigValue::Null);
    assert_eq!(usage.len(), 0);

    visit_config(&mut usage, "root", &ConfigValue::Text("secret".to_string()));
    assert_eq!(usage.len(), 1);
    assert_eq!(usage.lookup("configuration.root"), Some(&UsageValue::SetToken));
    assert_eq!(usage.lookup("configuration.root.len"), None);
}

#[test]
fn array_of_scalars_keeps_only_shape() {
    let mut usage = UsageMap::new();
    let arr = ConfigValue::Array(vec![
        ConfigValue::Text("alpha".to_string()),
        ConfigValue::Text("beta".to_string()),
        ConfigValue::Text("gamma".to_string()),
    ]);
    visit_config(&mut usage, "names", &arr);
    assert_eq!(usage.len(), 2);
    assert_eq!(usage.lookup("configuration.names"), Some(&UsageValue::SetToken));
    assert_eq!(
        usage.lookup("configuration.names.len"),
        Some(&UsageValue::Number("3".to_string()))
    );
}

#[test]
fn empty_array_and_empty_object() {
    let mut usage = UsageMap::new();
    visit_config(&mut usage, "root", &ConfigValue::Array(vec![]));
    assert_eq!(usage.len(), 1);
    assert_eq!(
        usage.lookup("configuration.root.len"),
        Some(&UsageValue::Number("0".to_string()))
    );

    let mut usage2 = UsageMap::new();
    visit_config(&mut usage2, "root", &ConfigValue::Object(vec![]));
    assert_eq!(usage2.len(), 0);
}

#[test]
fn later_array_element_wins() {
    let mut usage = UsageMap::new();
    let arr = ConfigValue::Array(vec![
        ConfigValue::Object(vec![("mode".to_string(), ConfigValue::Bool(false))]),
        ConfigValue::Object(vec![("mode".to_string(), ConfigValue::Bool(true))]),
    ]);
    visit_config(&mut usage, "root", &arr);
    assert_eq!(usage.lookup("configuration.root.mode"), Some(&UsageValue::Bool(true)));
    assert_eq!(
        usage.lookup("configuration.root.len"),
        Some(&UsageValue::Number("2".to_string()))
    );
}

#[test]
fn numbers_are_preserved_verbatim() {
    let mut usage = UsageMap::new();
    let obj = ConfigValue::Object(vec![
        ("ratio".to_string(), ConfigValue::Number("4.5".to_string())),
        ("negative".to_string(), ConfigValue::Number("-17".to_string())),
    ]);
    visit_config(&mut usage, "limits", &obj);
    assert_eq!(
        usage.lookup("configuration.limits.ratio"),
        Some(&UsageValue::Number("4.5".to_string()))
    );
    assert_eq!(
        usage.lookup("configuration.limits.negative"),
        Some(&UsageValue::Number("-17".to_string()))
    );
}

#[test]
fn insert_overwrites_same_key() {
    let mut usage = UsageMap::new();
    usage.insert("k".to_string(), UsageValue::Bool(false));
    usage.insert("k".to_string(), UsageValue::SetToken);
    assert_eq!(usage.len(), 1);
    assert_eq!(usage.lookup("k"), Some(&UsageValue::SetToken));
}
