use kong_init::dialect::{classify_dialect, mixed_dialect_message, Dialect};
use kong_init::engine::{
    classify_create_status, classify_delete_status, consumer_upsert_step, error_consumer_id,
    next_phase, plan_legacy_applications, plan_plugin_applications, plugin_config_entries,
    prepare_route, resolve_target, route_created, service_created, ConsumerUpsertStep,
    CreateOutcome, DeleteOutcome, EngineError, ExecutionContext, LegacyApplication, Phase,
    PluginApplication,
};
use kong_init::entity::{
    AddRouteResp, AddServiceResp, ConfFileStyle, ConsumerDO, CredentialsInfo, KongConf, KongInfo,
    LegacyKongConf, LegacyPluginInfo, ListApiResp, PluginInfo, PluginItem, PluginList, PluginTarget,
    RouteInfo, RouteItem, RouteList, ServiceItem, ServiceList,
};
use kong_init::index::NameIndex;
use kong_init::selector::{parse_legacy_target, parse_plugin_target, TargetSelector};
use kong_init::version::CompatibilityMode;

#[test]
fn name_index_registers_and_resolves() {
    let mut idx = NameIndex::new();
    assert_eq!(idx.lookup(&"svc-a".to_string()), None);
    idx.register("svc-a".to_string(), "id-1".to_string());
    assert_eq!(idx.lookup(&"svc-a".to_string()), Some("id-1".to_string()));
    idx.register("svc-a".to_string(), "id-2".to_string());
    assert_eq!(idx.lookup(&"svc-a".to_string()), Some("id-2".to_string()));
    assert_eq!(idx.lookup(&"other".to_string()), None);
}

#[test]
fn suggested_definition_flows_name_to_scoped_plugin() {
    // A suggested-mode definition with one service, one route attached to
    // it by name, and one plugin scoped to that service.
    let mut ctx = ExecutionContext::new();
    ctx.set_mode(CompatibilityMode::ServiceRoute);
    assert!(ctx.support_api);
    assert!(ctx.support_service_route);

    // The gateway assigns sid-123 to svc-a; the context records it.
    let created = service_created(
        &mut ctx.service_name_id_mapping,
        &"svc-a".to_string(),
        Some("sid-123".to_string()),
    );
    assert!(created.is_ok());
    assert_eq!(
        ctx.service_name_id_mapping.lookup(&"svc-a".to_string()),
        Some("sid-123".to_string())
    );

    // The route names svc-a; its creation payload embeds that service id.
    let route = RouteInfo { name: "route-a".to_string(), apply_to: "svc-a".to_string() };
    let sid = prepare_route(&ctx.service_name_id_mapping, &route);
    assert_eq!(sid.unwrap(), "sid-123".to_string());
    let recorded = route_created(
        &mut ctx.route_name_id_mapping,
        &"route-a".to_string(),
        Some("rid-9".to_string()),
    );
    assert!(recorded.is_ok());

    // The plugin targets s[svc-a]: applied exactly once, scoped to sid-123.
    let sel = parse_plugin_target("s[svc-a]").unwrap();
    let target =
        resolve_target(&sel, &ctx.service_name_id_mapping, &ctx.route_name_id_mapping).unwrap();
    assert_eq!(target, PluginTarget::SERVICES(vec!["sid-123".to_string()]));
    let apps = plan_plugin_applications(&target);
    assert_eq!(apps, vec![PluginApplication::ToService("sid-123".to_string())]);
}

#[test]
fn legacy_all_target_is_applied_once_globally() {
    // A legacy-mode plugin with target_api "all" goes once to the
    // unscoped plugins collection, never per individual API.
    let (applied, names) = parse_legacy_target("all");
    let apps = plan_legacy_applications(&applied, &names);
    assert_eq!(apps, vec![LegacyApplication::AllApis]);
}

#[test]
fn legacy_none_target_is_skipped() {
    let (applied, names) = parse_legacy_target("none");
    let apps = plan_legacy_applications(&applied, &names);
    assert!(apps.is_empty());
}

#[test]
fn legacy_named_targets_apply_once_per_api() {
    let (applied, names) = parse_legacy_target("api-a,api-b");
    let apps = plan_legacy_applications(&applied, &names);
    assert_eq!(
        apps,
        vec![
            LegacyApplication::OneApi("api-a".to_string()),
            LegacyApplication::OneApi("api-b".to_string())
        ]
    );
}

#[test]
fn mixed_dialect_text_is_rejected_before_parsing() {
    let text = "apis:\n  - name: a\nservices:\n  - name: s\n";
    assert_eq!(classify_dialect(text), Dialect::Illegal);
    assert_eq!(
        mixed_dialect_message(),
        "yaml file cannot contains both 'apis' and 'services/routes' at the same time".to_string()
    );
}

#[test]
fn single_dialect_texts_classify_cleanly() {
    assert_eq!(classify_dialect("apis:\n  - name: a\n"), Dialect::Legacy);
    assert_eq!(
        classify_dialect("services:\n  - name: s\n"),
        Dialect::Suggested
    );
    assert_eq!(classify_dialect("consumers:\n"), Dialect::Suggested);
}

#[test]
fn unresolved_route_reference_aborts_fatally() {
    // The route names a service absent from the index: reconciliation
    // must stop at that route, before any plugin application.
    let ctx = ExecutionContext::new();
    let route = RouteInfo { name: "route-a".to_string(), apply_to: "ghost".to_string() };
    let r = prepare_route(&ctx.service_name_id_mapping, &route);
    match r {
        Err(EngineError::UnknownServiceName { name }) => {
            assert_eq!(name, "ghost".to_string());
        }
        _ => panic!("expected an unknown-service failure"),
    }
}

#[test]
fn missing_service_id_is_fatal() {
    let mut idx = NameIndex::new();
    let r = service_created(&mut idx, &"svc-a".to_string(), None);
    match r {
        Err(EngineError::ServiceNotCreated { name }) => {
            assert_eq!(name, "svc-a".to_string());
            assert_eq!(
                EngineError::ServiceNotCreated { name }.message(),
                "failed to create service svc-a".to_string()
            );
        }
        _ => panic!("expected a service-creation failure"),
    }
    assert_eq!(idx.lookup(&"svc-a".to_string()), None);
}

#[test]
fn unresolved_plugin_target_name_is_fatal() {
    let mut services = NameIndex::new();
    services.register("svc-a".to_string(), "sid-1".to_string());
    let routes = NameIndex::new();
    let sel = parse_plugin_target("s[svc-a,ghost]").unwrap();
    let r = resolve_target(&sel, &services, &routes);
    match r {
        Err(EngineError::UnknownServiceName { name }) => {
            assert_eq!(name, "ghost".to_string());
        }
        _ => panic!("expected an unknown-service failure"),
    }
}

#[test]
fn global_target_resolves_without_names() {
    let services = NameIndex::new();
    let routes = NameIndex::new();
    let target = resolve_target(&TargetSelector::Global, &services, &routes).unwrap();
    assert_eq!(target, PluginTarget::GLOBAL);
    assert_eq!(plan_plugin_applications(&target), vec![PluginApplication::Global]);
}

#[test]
fn route_targets_resolve_through_the_route_index() {
    let services = NameIndex::new();
    let mut routes = NameIndex::new();
    routes.register("route-a".to_string(), "rid-1".to_string());
    routes.register("route-b".to_string(), "rid-2".to_string());
    let sel = parse_plugin_target("r[route-a,route-b]").unwrap();
    let target = resolve_target(&sel, &services, &routes).unwrap();
    assert_eq!(
        target,
        PluginTarget::Routes(vec!["rid-1".to_string(), "rid-2".to_string()])
    );
    let apps = plan_plugin_applications(&target);
    assert_eq!(
        apps,
        vec![
            PluginApplication::ToRoute("rid-1".to_string()),
            PluginApplication::ToRoute("rid-2".to_string())
        ]
    );
}

#[test]
fn suggested_phase_order_wipes_then_creates_in_dependency_order() {
    let mode = CompatibilityMode::ServiceRoute;
    let mut phases = vec![Phase::VersionCheck];
    loop {
        let p = *phases.last().unwrap();
        if p == Phase::Done {
            break;
        }
        phases.push(next_phase(p, mode));
    }
    assert_eq!(
        phases,
        vec![
            Phase::VersionCheck,
            Phase::ParseDefinition,
            Phase::WipePlugins,
            Phase::WipeRoutes,
            Phase::WipeServices,
            Phase::LoadConsumers,
            Phase::LoadCredentials,
            Phase::LoadServices,
            Phase::LoadRoutes,
            Phase::ApplyPlugins,
            Phase::Done
        ]
    );
}

#[test]
fn legacy_phase_order_skips_service_route_steps() {
    let mode = CompatibilityMode::LegacyApis;
    let mut phases = vec![Phase::VersionCheck];
    loop {
        let p = *phases.last().unwrap();
        if p == Phase::Done {
            break;
        }
        phases.push(next_phase(p, mode));
    }
    assert_eq!(
        phases,
        vec![
            Phase::VersionCheck,
            Phase::ParseDefinition,
            Phase::WipePlugins,
            Phase::LoadConsumers,
            Phase::LoadApis,
            Phase::ApplyLegacyPlugins,
            Phase::Done
        ]
    );
}

#[test]
fn plugin_payload_prefixes_config_keys() {
    let config = vec![
        ("minute".to_string(), "10".to_string()),
        ("policy".to_string(), "local".to_string()),
    ];
    let entries = plugin_config_entries(&"rate-limiting".to_string(), &config);
    assert_eq!(
        entries,
        vec![
            ("name".to_string(), "rate-limiting".to_string()),
            ("config.minute".to_string(), "10".to_string()),
            ("config.policy".to_string(), "local".to_string())
        ]
    );
}

#[test]
fn delete_answers_classify_idempotently() {
    assert_eq!(classify_delete_status(204), DeleteOutcome::Removed);
    assert_eq!(classify_delete_status(404), DeleteOutcome::AlreadyAbsent);
    assert_eq!(classify_delete_status(500), DeleteOutcome::Failed);
}

#[test]
fn create_answers_classify_idempotently() {
    assert_eq!(classify_create_status(201), CreateOutcome::Created);
    assert_eq!(classify_create_status(409), CreateOutcome::AlreadyExists);
    assert_eq!(classify_create_status(400), CreateOutcome::Failed);
}

#[test]
fn consumer_upsert_follows_the_conflict_path() {
    assert_eq!(consumer_upsert_step(201), ConsumerUpsertStep::UseCreatedId);
    assert_eq!(consumer_upsert_step(409), ConsumerUpsertStep::FetchExisting);
    assert_eq!(consumer_upsert_step(503), ConsumerUpsertStep::UseErrorId);
    assert_eq!(error_consumer_id(), "error_id".to_string());
}

#[test]
fn definition_records_hold_declared_resources() {
    let suggested = KongConf {
        services: vec![vec![("name".to_string(), "svc-a".to_string())]],
        routes: vec![RouteInfo { name: "route-a".to_string(), apply_to: "svc-a".to_string() }],
        plugins: vec![PluginInfo {
            name: "rate-limiting".to_string(),
            target: "s[svc-a]".to_string(),
            config: vec![],
            enabled: true,
        }],
        consumers: vec![vec![("username".to_string(), "bob".to_string())]],
        credentials: vec![CredentialsInfo {
            name: "key-auth".to_string(),
            target: "cid-1".to_string(),
            config: vec![],
        }],
    };
    let style = ConfFileStyle::Suggested(suggested);
    match style {
        ConfFileStyle::Suggested(conf) => {
            assert_eq!(conf.routes[0].apply_to, "svc-a".to_string());
            assert_eq!(conf.plugins[0].target, "s[svc-a]".to_string());
        }
        _ => panic!("expected the suggested variant"),
    }

    let legacy = LegacyKongConf {
        apis: vec![vec![("name".to_string(), "api-a".to_string())]],
        plugins: vec![LegacyPluginInfo {
            name: "acl".to_string(),
            plugin_type: "acl".to_string(),
            target_api: "all".to_string(),
            config: vec![],
        }],
        consumers: vec![],
    };
    let style = ConfFileStyle::Legacy(legacy);
    match style {
        ConfFileStyle::Legacy(conf) => {
            assert_eq!(conf.plugins[0].target_api, "all".to_string());
        }
        _ => panic!("expected the legacy variant"),
    }

    let style = ConfFileStyle::IllegalFormat { msg: mixed_dialect_message() };
    match style {
        ConfFileStyle::IllegalFormat { msg } => assert!(msg.contains("apis")),
        _ => panic!("expected the illegal variant"),
    }
}

#[test]
fn gateway_response_records_carry_plain_fields() {
    let info = KongInfo { version: "0.13.1".to_string() };
    assert_eq!(info.version, "0.13.1".to_string());
    let consumer = ConsumerDO { custom_id: Some("guest".to_string()), id: "cid".to_string(), created_at: 1 };
    assert_eq!(consumer.custom_id, Some("guest".to_string()));
    let s = AddServiceResp { id: "sid".to_string(), created_at: 2 };
    let r = AddRouteResp { id: "rid".to_string(), created_at: 3 };
    assert_eq!((s.id, r.id), ("sid".to_string(), "rid".to_string()));
    let services = ServiceList {
        data: vec![ServiceItem { id: "sid".to_string(), name: "svc-a".to_string() }],
        next: None,
        offset: Some("off".to_string()),
    };
    assert_eq!(services.data.len(), 1);
    let routes = RouteList { data: vec![RouteItem { id: "rid".to_string() }], next: None, offset: None };
    assert_eq!(routes.data[0].id, "rid".to_string());
    let plugins = PluginList {
        total: 1,
        data: vec![PluginItem { id: "pid".to_string(), name: "acl".to_string() }],
        offset: None,
    };
    assert_eq!(plugins.total, 1);
    let listing = ListApiResp { total: 0, next: None, offset: None };
    assert_eq!(listing.total, 0);
}

#[test]
fn api_names_accumulate_in_declaration_order() {
    let mut ctx = ExecutionContext::new();
    ctx.record_api_name("api-a".to_string());
    ctx.record_api_name("api-b".to_string());
    assert_eq!(ctx.api_names, vec!["api-a".to_string(), "api-b".to_string()]);
}
