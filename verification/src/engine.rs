//! The reconciliation engine's decisions: the fixed phase order per
//! compatibility mode, the run-scoped execution context, the reactions
//! to each gateway answer, and the fan-out of plugin applications over
//! resolved target identifiers. The driver that issues the HTTP calls
//! feeds every answer back into these functions and performs the actions
//! they hand out.

use vstd::prelude::*;

use crate::entity::{LegacyPluginAppliedType, PluginTarget, RouteInfo};
use crate::index::NameIndex;
use crate::selector::TargetSelector;
use crate::version::CompatibilityMode;

verus! {

/// The steps of a run, in order; a failure in any phase aborts the run.
#[derive(Clone, Copy, Debug, PartialEq, Eq, Structural)]
pub enum Phase {
    VersionCheck,
    ParseDefinition,
    WipePlugins,
    WipeRoutes,
    WipeServices,
    LoadConsumers,
    LoadCredentials,
    LoadApis,
    ApplyLegacyPlugins,
    LoadServices,
    LoadRoutes,
    ApplyPlugins,
    Done,
}

/// The phase that follows a completed phase under the given mode: both
/// modes wipe plugins after parsing and then create consumers; the
/// legacy mode recreates APIs and applies their plugins; the suggested
/// mode additionally wipes routes and services first, then creates
/// credentials, services, routes and plugins, in that order.
pub open spec fn spec_next_phase(p: Phase, mode: CompatibilityMode) -> Phase {
    match p {
        Phase::VersionCheck => Phase::ParseDefinition,
        Phase::ParseDefinition => Phase::WipePlugins,
        Phase::WipePlugins => match mode {
            CompatibilityMode::LegacyApis => Phase::LoadConsumers,
            CompatibilityMode::ServiceRoute => Phase::WipeRoutes,
        },
        Phase::WipeRoutes => Phase::WipeServices,
        Phase::WipeServices => Phase::LoadConsumers,
        Phase::LoadConsumers => match mode {
            CompatibilityMode::LegacyApis => Phase::LoadApis,
            CompatibilityMode::ServiceRoute => Phase::LoadCredentials,
        },
        Phase::LoadCredentials => Phase::LoadServices,
        Phase::LoadApis => Phase::ApplyLegacyPlugins,
        Phase::ApplyLegacyPlugins => Phase::Done,
        Phase::LoadServices => Phase::LoadRoutes,
        Phase::LoadRoutes => Phase::ApplyPlugins,
        Phase::ApplyPlugins => Phase::Done,
        Phase::Done => Phase::Done,
    }
}

/// Advances the run to the phase that follows `p` under `mode`; see
/// [`spec_next_phase`].
pub fn next_phase(p: Phase, mode: CompatibilityMode) -> (r: Phase)
    ensures
        r == spec_next_phase(p, mode),
{
    match p {
        Phase::VersionCheck => Phase::ParseDefinition,
        Phase::ParseDefinition => Phase::WipePlugins,
        Phase::WipePlugins => match mode {
            CompatibilityMode::LegacyApis => Phase::LoadConsumers,
            CompatibilityMode::ServiceRoute => Phase::WipeRoutes,
        },
        Phase::WipeRoutes => Phase::WipeServices,
        Phase::WipeServices => Phase::LoadConsumers,
        Phase::LoadConsumers => match mode {
            CompatibilityMode::LegacyApis => Phase::LoadApis,
            CompatibilityMode::ServiceRoute => Phase::LoadCredentials,
        },
        Phase::LoadCredentials => Phase::LoadServices,
        Phase::LoadApis => Phase::ApplyLegacyPlugins,
        Phase::ApplyLegacyPlugins => Phase::Done,
        Phase::LoadServices => Phase::LoadRoutes,
        Phase::LoadRoutes => Phase::ApplyPlugins,
        Phase::ApplyPlugins => Phase::Done,
        Phase::Done => Phase::Done,
    }
}

/// The state one run threads through its phases: the detected mode as
/// two capability flags, the names of the legacy APIs created, and the
/// two name-to-identifier indices of the suggested mode.
#[derive(Debug)]
pub struct ExecutionContext {
    pub support_api: bool,
    pub support_service_route: bool,
    pub api_names: Vec<String>,
    pub service_name_id_mapping: NameIndex,
    pub route_name_id_mapping: NameIndex,
}

impl ExecutionContext {
    /// A fresh context: no capabilities known, nothing registered.
    pub fn new() -> (r: ExecutionContext)
        ensures
            !r.support_api,
            !r.support_service_route,
            r.api_names@.len() == 0,
            r.service_name_id_mapping@ == Seq::<(Seq<char>, Seq<char>)>::empty(),
            r.route_name_id_mapping@ == Seq::<(Seq<char>, Seq<char>)>::empty(),
    {
        ExecutionContext {
            support_api: false,
            support_service_route: false,
            api_names: Vec::new(),
            service_name_id_mapping: NameIndex::new(),
            route_name_id_mapping: NameIndex::new(),
        }
    }

    /// Records the detected compatibility mode: every supported version
    /// speaks the legacy model, and versions in the service/route band
    /// speak both.
    pub fn set_mode(&mut self, mode: CompatibilityMode)
        ensures
            final(self).support_api,
            final(self).support_service_route == (mode == CompatibilityMode::ServiceRoute),
            final(self).api_names == old(self).api_names,
            final(self).service_name_id_mapping == old(self).service_name_id_mapping,
            final(self).route_name_id_mapping == old(self).route_name_id_mapping,
    {
        self.support_api = true;
        self.support_service_route = match mode {
            CompatibilityMode::ServiceRoute => true,
            CompatibilityMode::LegacyApis => false,
        };
    }

    /// Records the declared name of a created legacy API.
    pub fn record_api_name(&mut self, name: String)
        ensures
            final(self).api_names@ == old(self).api_names@.push(name),
            final(self).support_api == old(self).support_api,
            final(self).support_service_route == old(self).support_service_route,
            final(self).service_name_id_mapping == old(self).service_name_id_mapping,
            final(self).route_name_id_mapping == old(self).route_name_id_mapping,
    {
        self.api_names.push(name);
    }
}

/// A failure that leaves the run unable to continue safely.
#[derive(Debug)]
pub enum EngineError {
    /// The gateway did not return an identifier for a created service.
    ServiceNotCreated { name: String },
    /// The gateway did not return an identifier for a created route.
    RouteNotCreated { name: String },
    /// A declared service name is not registered in the name index.
    UnknownServiceName { name: String },
    /// A declared route name is not registered in the name index.
    UnknownRouteName { name: String },
}

impl EngineError {
    /// A readable report of the failure.
    pub fn message(&self) -> (r: String)
        ensures
            match self {
                EngineError::ServiceNotCreated { name } => r@ == "failed to create service "@
                    + name@,
                EngineError::RouteNotCreated { name } => r@ == "failed to create route "@ + name@,
                EngineError::UnknownServiceName { name } => r@ == "unknown service name "@ + name@,
                EngineError::UnknownRouteName { name } => r@ == "unknown route name "@ + name@,
            },
    {
        match self {
            EngineError::ServiceNotCreated { name } => {
                let mut m = String::from_str("failed to create service ");
                m.append(name.as_str());
                m
            },
            EngineError::RouteNotCreated { name } => {
                let mut m = String::from_str("failed to create route ");
                m.append(name.as_str());
                m
            },
            EngineError::UnknownServiceName { name } => {
                let mut m = String::from_str("unknown service name ");
                m.append(name.as_str());
                m
            },
            EngineError::UnknownRouteName { name } => {
                let mut m = String::from_str("unknown route name ");
                m.append(name.as_str());
                m
            },
        }
    }
}

/// The reaction to a service-creation answer: without the new service's
/// identifier the routes that name it cannot be created, so a missing
/// identifier is fatal; a returned identifier is registered under the
/// service's declared name.
pub fn service_created(index: &mut NameIndex, name: &String, new_id: Option<String>) -> (r: Result<
    (),
    EngineError,
>)
    ensures
        match new_id {
            Some(id) => r is Ok && final(index)@ == seq![(name@, id@)] + old(index)@,
            None => (r matches Err(EngineError::ServiceNotCreated { name: n }) && n@ == name@)
                && final(index)@ == old(index)@,
        },
{
    match new_id {
        Some(id) => {
            index.register(name.clone(), id);
            Ok(())
        },
        None => Err(EngineError::ServiceNotCreated { name: name.clone() }),
    }
}

/// The reaction to a route-creation answer, exactly as for services.
pub fn route_created(index: &mut NameIndex, name: &String, new_id: Option<String>) -> (r: Result<
    (),
    EngineError,
>)
    ensures
        match new_id {
            Some(id) => r is Ok && final(index)@ == seq![(name@, id@)] + old(index)@,
            None => (r matches Err(EngineError::RouteNotCreated { name: n }) && n@ == name@)
                && final(index)@ == old(index)@,
        },
{
    match new_id {
        Some(id) => {
            index.register(name.clone(), id);
            Ok(())
        },
        None => Err(EngineError::RouteNotCreated { name: name.clone() }),
    }
}

/// Resolves the service a route declares it attaches to: the owning
/// service's identifier is embedded into the route's creation payload
/// under its `service` key; a name the index does not hold is fatal.
pub fn prepare_route(services: &NameIndex, route: &RouteInfo) -> (r: Result<String, EngineError>)
    ensures
        match services.spec_lookup(route.apply_to@) {
            Some(id) => r matches Ok(sid) && sid@ == id,
            None => r matches Err(EngineError::UnknownServiceName { name: n }) && n@
                == route.apply_to@,
        },
{
    match services.lookup(&route.apply_to) {
        Some(sid) => Ok(sid),
        None => Err(EngineError::UnknownServiceName { name: route.apply_to.clone() }),
    }
}

/// Resolves each declared name through the index, in order; the first
/// unregistered name is reported.
fn resolve_names(index: &NameIndex, names: &Vec<String>) -> (r: Result<Vec<String>, String>)
    ensures
        match r {
            Ok(ids) => ids@.len() == names@.len() && forall|k: int|
                0 <= k < names@.len() ==> index.spec_lookup(names@[k]@) == Some(
                    #[trigger] ids@[k]@,
                ),
            Err(missing) => (exists|k: int|
                0 <= k < names@.len() && #[trigger] names@[k]@ == missing@)
                && index.spec_lookup(missing@) is None,
        },
{
    let n = names.len();
    let mut ids: Vec<String> = Vec::new();
    let mut i: usize = 0;
    while i < n
        invariant
            i <= n,
            n == names@.len(),
            ids@.len() == i,
            forall|k: int|
                0 <= k < i ==> index.spec_lookup(names@[k]@) == Some(#[trigger] ids@[k]@),
        decreases n - i,
    {
        match index.lookup(&names[i]) {
            Some(id) => {
                ids.push(id);
            },
            None => {
                return Err(names[i].clone());
            },
        }
        i += 1;
    }
    Ok(ids)
}

/// Resolves a parsed target selector against the name indices: `global`
/// needs no names; service and route names must each be registered, and
/// an unregistered name is a fatal lookup error.
pub fn resolve_target(
    sel: &TargetSelector,
    services: &NameIndex,
    routes: &NameIndex,
) -> (r: Result<PluginTarget, EngineError>)
    ensures
        sel is Global ==> r matches Ok(PluginTarget::GLOBAL),
        sel matches TargetSelector::ServiceNames(names) ==> match r {
            Ok(t) => (t matches PluginTarget::SERVICES(ids) && ids@.len() == names@.len()
                && forall|k: int|
                0 <= k < names@.len() ==> services.spec_lookup(names@[k]@) == Some(
                    #[trigger] ids@[k]@,
                )),
            Err(e) => (e matches EngineError::UnknownServiceName { name } && services.spec_lookup(
                name@,
            ) is None && exists|k: int|
                0 <= k < names@.len() && #[trigger] names@[k]@ == name@),
        },
        sel matches TargetSelector::RouteNames(names) ==> match r {
            Ok(t) => (t matches PluginTarget::Routes(ids) && ids@.len() == names@.len()
                && forall|k: int|
                0 <= k < names@.len() ==> routes.spec_lookup(names@[k]@) == Some(
                    #[trigger] ids@[k]@,
                )),
            Err(e) => (e matches EngineError::UnknownRouteName { name } && routes.spec_lookup(
                name@,
            ) is None && exists|k: int|
                0 <= k < names@.len() && #[trigger] names@[k]@ == name@),
        },
{
    match sel {
        TargetSelector::Global => Ok(PluginTarget::GLOBAL),
        TargetSelector::ServiceNames(names) => match resolve_names(services, names) {
            Ok(ids) => Ok(PluginTarget::SERVICES(ids)),
            Err(missing) => Err(EngineError::UnknownServiceName { name: missing }),
        },
        TargetSelector::RouteNames(names) => match resolve_names(routes, names) {
            Ok(ids) => Ok(PluginTarget::Routes(ids)),
            Err(missing) => Err(EngineError::UnknownRouteName { name: missing }),
        },
    }
}

/// One application of a suggested-dialect plugin: at the global
/// collection, or scoped to one resolved service or route identifier.
#[derive(Debug, PartialEq)]
pub enum PluginApplication {
    Global,
    ToService(String),
    ToRoute(String),
}

/// Fans a resolved plugin target out into individual applications: a
/// global target is applied exactly once; a multi-identifier target is
/// applied once per resolved identifier — one call per identifier, never
/// a single call with several.
pub fn plan_plugin_applications(target: &PluginTarget) -> (r: Vec<PluginApplication>)
    ensures
        target is GLOBAL ==> r@.len() == 1 && r@[0] is Global,
        target matches PluginTarget::SERVICES(ids) ==> r@.len() == ids@.len() && forall|k: int|
            0 <= k < ids@.len() ==> (#[trigger] r@[k] matches PluginApplication::ToService(id)
                && id@ == ids@[k]@),
        target matches PluginTarget::Routes(ids) ==> r@.len() == ids@.len() && forall|k: int|
            0 <= k < ids@.len() ==> (#[trigger] r@[k] matches PluginApplication::ToRoute(id) && id@
                == ids@[k]@),
{
    let mut r: Vec<PluginApplication> = Vec::new();
    match target {
        PluginTarget::GLOBAL => {
            r.push(PluginApplication::Global);
        },
        PluginTarget::SERVICES(ids) => {
            let n = ids.len();
            let mut i: usize = 0;
            while i < n
                invariant
                    i <= n,
                    n == ids@.len(),
                    r@.len() == i,
                    forall|k: int|
                        0 <= k < i ==> (#[trigger] r@[k] matches PluginApplication::ToService(id)
                            && id@ == ids@[k]@),
                decreases n - i,
            {
                r.push(PluginApplication::ToService(ids[i].clone()));
                i += 1;
            }
        },
        PluginTarget::Routes(ids) => {
            let n = ids.len();
            let mut i: usize = 0;
            while i < n
                invariant
                    i <= n,
                    n == ids@.len(),
                    r@.len() == i,
                    forall|k: int|
                        0 <= k < i ==> (#[trigger] r@[k] matches PluginApplication::ToRoute(id)
                            && id@ == ids@[k]@),
                decreases n - i,
            {
                r.push(PluginApplication::ToRoute(ids[i].clone()));
                i += 1;
            }
        },
    }
    r
}

/// One application of a legacy-dialect plugin: once at the unscoped
/// plugins collection, or once for one named API.
#[derive(Debug, PartialEq)]
pub enum LegacyApplication {
    AllApis,
    OneApi(String),
}

/// Fans a classified legacy target out into individual applications:
/// `all` is applied exactly once at the unscoped collection — never per
/// individual API; `none` is skipped entirely; a name list is applied
/// once per named API.
pub fn plan_legacy_applications(
    applied: &LegacyPluginAppliedType,
    names: &Option<Vec<String>>,
) -> (r: Vec<LegacyApplication>)
    ensures
        applied is ALL ==> r@.len() == 1 && r@[0] is AllApis,
        applied is NONE ==> r@.len() == 0,
        applied is SOME ==> (names matches Some(v) ==> r@.len() == v@.len() && forall|k: int|
            0 <= k < v@.len() ==> (#[trigger] r@[k] matches LegacyApplication::OneApi(n) && n@
                == v@[k]@)),
        applied is SOME && names is None ==> r@.len() == 0,
{
    let mut r: Vec<LegacyApplication> = Vec::new();
    match applied {
        LegacyPluginAppliedType::ALL => {
            r.push(LegacyApplication::AllApis);
        },
        LegacyPluginAppliedType::NONE => {},
        LegacyPluginAppliedType::SOME => match names {
            Some(v) => {
                let n = v.len();
                let mut i: usize = 0;
                while i < n
                    invariant
                        i <= n,
                        n == v@.len(),
                        r@.len() == i,
                        forall|k: int|
                            0 <= k < i ==> (#[trigger] r@[k] matches LegacyApplication::OneApi(
                                name,
                            ) && name@ == v@[k]@),
                    decreases n - i,
                {
                    r.push(LegacyApplication::OneApi(v[i].clone()));
                    i += 1;
                }
            },
            None => {},
        },
    }
    r
}

/// The flat payload of a plugin application: the plugin's name under
/// `name`, and each configuration entry under its key prefixed with
/// `config.`.
pub fn plugin_config_entries(plugin_name: &String, config: &Vec<(String, String)>) -> (r: Vec<
    (String, String),
>)
    ensures
        r@.len() == 1 + config@.len(),
        r@[0].0@ == "name"@ && r@[0].1@ == plugin_name@,
        forall|k: int|
            0 <= k < config@.len() ==> (#[trigger] r@[k + 1]).0@ == "config."@ + config@[k].0@
                && r@[k + 1].1@ == config@[k].1@,
{
    let mut r: Vec<(String, String)> = Vec::new();
    r.push((String::from_str("name"), plugin_name.clone()));
    let n = config.len();
    let mut i: usize = 0;
    while i < n
        invariant
            i <= n,
            n == config@.len(),
            r@.len() == 1 + i,
            r@[0].0@ == "name"@ && r@[0].1@ == plugin_name@,
            forall|k: int|
                0 <= k < i ==> (#[trigger] r@[k + 1]).0@ == "config."@ + config@[k].0@ && r@[k
                    + 1].1@ == config@[k].1@,
        decreases n - i,
    {
        let mut key = String::from_str("config.");
        key.append(config[i].0.as_str());
        r.push((key, config[i].1.clone()));
        i += 1;
    }
    r
}

/// The terminal outcomes of an idempotent delete: the gateway removed
/// the resource, or reports it already absent — both success — or
/// answered otherwise, which is logged and skipped.
#[derive(Clone, Copy, Debug, PartialEq, Eq, Structural)]
pub enum DeleteOutcome {
    Removed,
    AlreadyAbsent,
    Failed,
}

/// Classifies a delete answer: `204 No Content` is a removal, `404 Not
/// Found` is the idempotent already-absent success, anything else is a
/// failure.
pub fn classify_delete_status(status: u16) -> (r: DeleteOutcome)
    ensures
        status == 204 ==> r == DeleteOutcome::Removed,
        status == 404 ==> r == DeleteOutcome::AlreadyAbsent,
        status != 204 && status != 404 ==> r == DeleteOutcome::Failed,
{
    if status == 204 {
        DeleteOutcome::Removed
    } else if status == 404 {
        DeleteOutcome::AlreadyAbsent
    } else {
        DeleteOutcome::Failed
    }
}

/// The terminal outcomes of a create: the resource was created, or
/// already existed — treated as success for resources looked up by
/// externally meaningful name — or the call failed.
#[derive(Clone, Copy, Debug, PartialEq, Eq, Structural)]
pub enum CreateOutcome {
    Created,
    AlreadyExists,
    Failed,
}

/// Classifies a create answer: `201 Created` is a creation, `409
/// Conflict` is the idempotent already-exists success, anything else is
/// a failure.
pub fn classify_create_status(status: u16) -> (r: CreateOutcome)
    ensures
        status == 201 ==> r == CreateOutcome::Created,
        status == 409 ==> r == CreateOutcome::AlreadyExists,
        status != 201 && status != 409 ==> r == CreateOutcome::Failed,
{
    if status == 201 {
        CreateOutcome::Created
    } else if status == 409 {
        CreateOutcome::AlreadyExists
    } else {
        CreateOutcome::Failed
    }
}

/// What the consumer-creating directive does next, given the status of
/// its create call: take the identifier the gateway returned, fetch the
/// existing consumer on a conflict, or fall back to the error marker.
#[derive(Clone, Copy, Debug, PartialEq, Eq, Structural)]
pub enum ConsumerUpsertStep {
    UseCreatedId,
    FetchExisting,
    UseErrorId,
}

/// Decides the consumer-upsert continuation from the create status.
pub fn consumer_upsert_step(status: u16) -> (r: ConsumerUpsertStep)
    ensures
        status == 201 ==> r == ConsumerUpsertStep::UseCreatedId,
        status == 409 ==> r == ConsumerUpsertStep::FetchExisting,
        status != 201 && status != 409 ==> r == ConsumerUpsertStep::UseErrorId,
{
    if status == 201 {
        ConsumerUpsertStep::UseCreatedId
    } else if status == 409 {
        ConsumerUpsertStep::FetchExisting
    } else {
        ConsumerUpsertStep::UseErrorId
    }
}

/// The identifier substituted when the consumer-creating directive
/// cannot obtain one from the gateway.
pub fn error_consumer_id() -> (r: String)
    ensures
        r@ == "error_id"@,
{
    String::from_str("error_id")
}

} // verus!
