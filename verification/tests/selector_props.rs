use kong_init::entity::LegacyPluginAppliedType;
use kong_init::selector::{parse_legacy_target, parse_plugin_target, TargetSelector};

#[test]
fn global_literal_selects_global() {
    assert_eq!(parse_plugin_target("global"), Ok(TargetSelector::Global));
}

#[test]
fn service_selector_carries_its_names() {
    assert_eq!(
        parse_plugin_target("s[a,b]"),
        Ok(TargetSelector::ServiceNames(vec![
            "a".to_string(),
            "b".to_string()
        ]))
    );
    assert_eq!(
        parse_plugin_target("s[svc-a]"),
        Ok(TargetSelector::ServiceNames(vec!["svc-a".to_string()]))
    );
}

#[test]
fn route_selector_carries_its_names() {
    assert_eq!(
        parse_plugin_target("r[x]"),
        Ok(TargetSelector::RouteNames(vec!["x".to_string()]))
    );
    assert_eq!(
        parse_plugin_target("r[r-1,r-2,r-3]"),
        Ok(TargetSelector::RouteNames(vec![
            "r-1".to_string(),
            "r-2".to_string(),
            "r-3".to_string()
        ]))
    );
}

#[test]
fn any_other_literal_is_a_format_error() {
    assert!(parse_plugin_target("everything").is_err());
    assert!(parse_plugin_target("s[]").is_err());
    assert!(parse_plugin_target("s[a,,b]").is_err());
    assert!(parse_plugin_target("s[a!]").is_err());
    assert!(parse_plugin_target("x[a]").is_err());
    assert!(parse_plugin_target("s[a").is_err());
    assert!(parse_plugin_target("").is_err());
}

#[test]
fn legacy_all_and_none_have_no_name_list() {
    let (t, names) = parse_legacy_target("all");
    assert_eq!(t, LegacyPluginAppliedType::ALL);
    assert!(names.is_none());
    let (t, names) = parse_legacy_target("none");
    assert_eq!(t, LegacyPluginAppliedType::NONE);
    assert!(names.is_none());
}

#[test]
fn legacy_other_literal_splits_on_commas() {
    let (t, names) = parse_legacy_target("api-a,api-b");
    assert_eq!(t, LegacyPluginAppliedType::SOME);
    assert_eq!(
        names,
        Some(vec!["api-a".to_string(), "api-b".to_string()])
    );
    let (t, names) = parse_legacy_target("solo");
    assert_eq!(t, LegacyPluginAppliedType::SOME);
    assert_eq!(names, Some(vec!["solo".to_string()]));
}
