use orbiter::args::ArgRecord;
use orbiter::args::record_args;
use orbiter::args::string_vecs_equal;
use orbiter::config::ConfigValue;
use orbiter::factory::OrbiterAbstractRouterServiceFactory;
use orbiter::factory::reporting_enabled;
use orbiter::ident::SessionCell;
use orbiter::ident::resolve_machine_id;
use orbiter::jsonfmt::dec_string;
use orbiter::jsonfmt::json_string_of;
use orbiter::platform::Platform;
use orbiter::platform::os_label;
use orbiter::report::Report;
use orbiter::report::compose_report;
use orbiter::report::is_first_party;
use orbiter::report::record_plugins;
use orbiter::report::report_json;
use orbiter::usage::UsageMap;
use orbiter::usage::UsageValue;

fn arg(id: &str, defaults: Vec<&str>, values: Option<Vec<&str>>) -> ArgRecord {
    ArgRecord {
        id: id.to_string(),
        defaults: defaults.into_iter().map(|s| s.to_string()).collect(),
        values: values.map(|vs| vs.into_iter().map(|s| s.to_string()).collect()),
    }
}

#[test]
fn arg_set_versus_default() {
    let mut usage = UsageMap::new();
    let args = vec![
        arg("config-path", vec![], Some(vec!["/etc/x.yaml"])),
        arg("log-level", vec!["info"], Some(vec!["info"])),
        arg("hot-reload", vec!["false"], Some(vec!["debug"])),
        arg("supergraph-path", vec![], None),
    ];
    record_args(&mut usage, &args);
    assert_eq!(usage.lookup("args.config-path"), Some(&UsageValue::SetToken));
    assert_eq!(usage.lookup("args.log-level"), None);
    assert_eq!(usage.lookup("args.hot-reload"), Some(&UsageValue::SetToken));
    assert_eq!(usage.lookup("args.supergraph-path"), None);
    assert_eq!(usage.len(), 2);
}

#[test]
fn switch_with_empty_default_records_true() {
    let mut usage = UsageMap::new();
    let args = vec![arg("version", vec![], Some(vec![]))];
    record_args(&mut usage, &args);
    assert_eq!(usage.lookup("args.version"), Some(&UsageValue::Bool(true)));
}

#[test]
fn string_vec_equality() {
    let a: Vec<String> = vec!["x".to_string(), "y".to_string()];
    let b: Vec<String> = vec!["x".to_string(), "y".to_string()];
    let c: Vec<String> = vec!["x".to_string()];
    let d: Vec<String> = vec!["x".to_string(), "z".to_string()];
    assert!(string_vecs_equal(&a, &b));
    assert!(!string_vecs_equal(&a, &c));
    assert!(!string_vecs_equal(&a, &d));
}

#[test]
fn opt_out_is_exactly_the_literal_true() {
    assert!(!reporting_enabled(Some("true")));
    assert!(reporting_enabled(Some("TRUE")));
    assert!(reporting_enabled(Some("1")));
    assert!(reporting_enabled(Some("")));
    assert!(reporting_enabled(Some("false")));
    assert!(reporting_enabled(None));
}

#[test]
fn factory_hands_back_its_delegate() {
    let mut f = OrbiterAbstractRouterServiceFactory::new(41u64);
    let d = f.delegate_mut();
    *d += 1;
    assert_eq!(*f.delegate_mut(), 42u64);
}

#[test]
fn session_id_is_stable_within_a_process() {
    let mut cell = SessionCell::new();
    let first = cell.session_id();
    let second = cell.session_id();
    assert_eq!(first, second);
    assert_eq!(first.len(), 36);
}

#[test]
fn machine_id_self_heals_from_garbage() {
    let (id, wrote) = resolve_machine_id(Some("not-a-uuid"));
    assert!(wrote);
    let (again, wrote_again) = resolve_machine_id(Some(id.as_str()));
    assert!(!wrote_again);
    assert_eq!(again, id);
}

#[test]
fn machine_id_generated_when_file_missing() {
    let (id, wrote) = resolve_machine_id(None);
    assert!(wrote);
    assert_eq!(id.len(), 36);
}

#[test]
fn machine_id_reused_when_readable() {
    let existing = "57c2a779-2ae3-476b-a712-122b9f0f19b6";
    let (id, wrote) = resolve_machine_id(Some(existing));
    assert!(!wrote);
    assert_eq!(id, existing);
}

#[test]
fn third_party_plugins_are_excluded() {
    let entry = ConfigValue::Object(vec![(
        "endpoint".to_string(),
        ConfigValue::Text("http://example.invalid".to_string()),
    )]);
    let other = ConfigValue::Object(vec![(
        "endpoint".to_string(),
        ConfigValue::Text("http://example.invalid".to_string()),
    )]);
    let plugins = vec![
        ("apollo.telemetry".to_string(), entry),
        ("my_plugin".to_string(), other),
    ];
    let mut usage = UsageMap::new();
    record_plugins(&mut usage, &plugins);
    assert_eq!(usage.len(), 1);
    assert_eq!(
        usage.lookup("configuration.apollo.telemetry.endpoint"),
        Some(&UsageValue::SetToken)
    );
    assert_eq!(usage.lookup("configuration.my_plugin.endpoint"), None);
}

#[test]
fn first_party_is_a_name_prefix() {
    assert!(is_first_party("apollo.telemetry"));
    assert!(is_first_party("apollo.headers"));
    assert!(!is_first_party("apollo"));
    assert!(!is_first_party("telemetry"));
    assert!(!is_first_party(""));
}

#[test]
fn decimal_rendering_is_exact() {
    assert_eq!(dec_string(0), "0");
    assert_eq!(dec_string(7), "7");
    assert_eq!(dec_string(42), "42");
    assert_eq!(dec_string(1234), "1234");
}

#[test]
fn json_strings_are_escaped() {
    assert_eq!(json_string_of("plain"), "\"plain\"");
    assert_eq!(json_string_of("a\"b"), "\"a\\\"b\"");
    assert_eq!(json_string_of("a\\b"), "\"a\\\\b\"");
    assert_eq!(json_string_of("a\nb"), "\"a\\u000ab\"");
}

#[test]
fn report_serialises_to_the_wire_schema() {
    let plugins = vec![(
        "apollo.headers".to_string(),
        ConfigValue::Object(vec![("all".to_string(), ConfigValue::Text("x".to_string()))]),
    )];
    let args = vec![arg("config-path", vec![], Some(vec!["/etc/x.yaml"]))];
    let report: Report = compose_report(
        "57c2a779-2ae3-476b-a712-122b9f0f19b6".to_string(),
        "fbe09da3-ebdb-4863-8086-feb97464b8d7".to_string(),
        "1.4.0".to_string(),
        Platform { os: "linux".to_string(), continuous_integration: None },
        &plugins,
        &args,
    );
    let json = report_json(&report);
    let expected = "{\"machine_id\":\"57c2a779-2ae3-476b-a712-122b9f0f19b6\",\"session_id\":\"fbe09da3-ebdb-4863-8086-feb97464b8d7\",\"version\":\"1.4.0\",\"platform\":{\"os\":\"linux\",\"continuous_integration\":null},\"usage\":{\"configuration.apollo.headers.all\":\"set\",\"args.config-path\":\"set\"}}";
    assert_eq!(json, expected);
}

#[test]
fn report_serialises_ci_vendor() {
    let report: Report = compose_report(
        "m".to_string(),
        "s".to_string(),
        "0.0.0".to_string(),
        Platform { os: "linux".to_string(), continuous_integration: Some("CircleCI".to_string()) },
        &vec![],
        &vec![],
    );
    let json = report_json(&report);
    let expected = "{\"machine_id\":\"m\",\"session_id\":\"s\",\"version\":\"0.0.0\",\"platform\":{\"os\":\"linux\",\"continuous_integration\":\"CircleCI\"},\"usage\":{}}";
    assert_eq!(json, expected);
}

#[test]
fn os_label_prefers_wsl() {
    assert_eq!(os_label(true, "linux"), "wsl");
    assert_eq!(os_label(false, "linux"), "linux");
    assert_eq!(os_label(false, "macos"), "macos");
}
