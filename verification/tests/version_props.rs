use kong_init::version::{
    community_equivalent, detect_mode, on_connect_failure, select_mode, CompatibilityMode,
    ConnectivityDecision, VersionError,
};

#[test]
fn below_low_threshold_selects_legacy() {
    assert_eq!(select_mode(0, 12, 3, false), Ok(CompatibilityMode::LegacyApis));
    assert_eq!(select_mode(0, 0, 1, false), Ok(CompatibilityMode::LegacyApis));
    // a pre-release of the threshold itself orders below it
    assert_eq!(select_mode(0, 13, 0, true), Ok(CompatibilityMode::LegacyApis));
}

#[test]
fn between_thresholds_selects_service_route() {
    assert_eq!(select_mode(0, 13, 0, false), Ok(CompatibilityMode::ServiceRoute));
    assert_eq!(select_mode(0, 13, 1, false), Ok(CompatibilityMode::ServiceRoute));
    assert_eq!(select_mode(0, 14, 9, false), Ok(CompatibilityMode::ServiceRoute));
    assert_eq!(select_mode(0, 15, 0, true), Ok(CompatibilityMode::ServiceRoute));
}

#[test]
fn at_or_above_high_threshold_is_fatal() {
    assert_eq!(select_mode(0, 15, 0, false), Err(VersionError::Unsupported));
    assert_eq!(select_mode(1, 0, 0, false), Err(VersionError::Unsupported));
    assert_eq!(select_mode(2, 3, 4, true), Err(VersionError::Unsupported));
}

#[test]
fn enterprise_prefixes_map_to_fixed_community_versions() {
    assert_eq!(
        community_equivalent("0.30-enterprise-edition"),
        "0.12.1".to_string()
    );
    assert_eq!(
        community_equivalent("0.31-enterprise-edition"),
        "0.12.3".to_string()
    );
    assert_eq!(
        community_equivalent("0.32-enterprise-edition"),
        "0.13.1".to_string()
    );
    assert_eq!(
        community_equivalent("0.33-enterprise-edition"),
        "0.13.1".to_string()
    );
}

#[test]
fn unrecognized_enterprise_prefix_maps_to_fallback() {
    assert_eq!(
        community_equivalent("0.34-enterprise-edition"),
        "0.13.1".to_string()
    );
    assert_eq!(
        community_equivalent("9.99-enterprise-edition"),
        "0.13.1".to_string()
    );
}

#[test]
fn community_version_passes_through_unmapped() {
    assert_eq!(community_equivalent("0.13.1"), "0.13.1".to_string());
    assert_eq!(community_equivalent("0.12.3"), "0.12.3".to_string());
}

#[test]
fn detect_mode_selects_by_version_band() {
    assert_eq!(detect_mode("0.12.1"), Ok(CompatibilityMode::LegacyApis));
    assert_eq!(detect_mode("0.12.3"), Ok(CompatibilityMode::LegacyApis));
    assert_eq!(detect_mode("0.13.0-rc1"), Ok(CompatibilityMode::LegacyApis));
    assert_eq!(detect_mode("0.13.1"), Ok(CompatibilityMode::ServiceRoute));
    assert_eq!(detect_mode("0.14.1"), Ok(CompatibilityMode::ServiceRoute));
    assert_eq!(detect_mode("0.15.0"), Err(VersionError::Unsupported));
    assert_eq!(detect_mode("1.0.0"), Err(VersionError::Unsupported));
}

#[test]
fn detect_mode_maps_enterprise_versions_first() {
    assert_eq!(
        detect_mode("0.30-enterprise-edition"),
        Ok(CompatibilityMode::LegacyApis)
    );
    assert_eq!(
        detect_mode("0.32-enterprise-edition"),
        Ok(CompatibilityMode::ServiceRoute)
    );
    assert_eq!(
        detect_mode("0.33-enterprise-edition"),
        Ok(CompatibilityMode::ServiceRoute)
    );
}

#[test]
fn malformed_version_is_fatal() {
    assert_eq!(detect_mode("not-a-version"), Err(VersionError::Unparseable));
    assert_eq!(detect_mode("0.13"), Err(VersionError::Unparseable));
    assert_eq!(detect_mode(""), Err(VersionError::Unparseable));
}

#[test]
fn connectivity_failure_retries_only_under_wait_mode() {
    assert_eq!(
        on_connect_failure(true),
        ConnectivityDecision::RetryAfterMillis(5000)
    );
    assert_eq!(on_connect_failure(false), ConnectivityDecision::Abort);
}
