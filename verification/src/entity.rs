//! The typed records of a definition file and of the gateway's responses.
//! Free-form key/value configuration blocks are held as ordered lists of
//! string pairs; identifiers and names are plain strings.

use vstd::prelude::*;

verus! {

/// A declared legacy API record: free-form key/value configuration, with
/// its name under the `name` key.
pub type ApiInfo = Vec<(String, String)>;

/// A declared service record: free-form key/value configuration, with its
/// name under the `name` key.
pub type ServiceInfo = Vec<(String, String)>;

/// A declared consumer record: free-form key/value configuration, with
/// its username under the `username` key.
pub type ConsumerInfo = Vec<(String, String)>;

/// A parsed legacy-dialect definition: APIs, plugins targeting APIs, and
/// consumers.
#[derive(Debug)]
pub struct LegacyKongConf {
    pub apis: Vec<ApiInfo>,
    pub plugins: Vec<LegacyPluginInfo>,
    pub consumers: Vec<ConsumerInfo>,
}

/// A parsed suggested-dialect definition: services, routes, plugins,
/// consumers and credentials.
#[derive(Debug)]
pub struct KongConf {
    pub services: Vec<ServiceInfo>,
    pub routes: Vec<RouteInfo>,
    pub plugins: Vec<PluginInfo>,
    pub consumers: Vec<ConsumerInfo>,
    pub credentials: Vec<CredentialsInfo>,
}

/// A declared route: its name and the declared name of the service it
/// attaches to. The rest of the route's configuration is passed through
/// to the gateway untouched and is carried outside this record.
#[derive(Debug)]
pub struct RouteInfo {
    pub name: String,
    pub apply_to: String,
}

/// A declared plugin of the legacy dialect: a plugin type, a target-API
/// selector string, and free-form configuration.
#[derive(Debug)]
pub struct LegacyPluginInfo {
    pub name: String,
    pub plugin_type: String,
    pub target_api: String,
    pub config: Vec<(String, String)>,
}

/// A declared plugin of the suggested dialect: a plugin name, a target
/// selector string, free-form configuration, and an enabled flag.
#[derive(Debug)]
pub struct PluginInfo {
    pub name: String,
    pub target: String,
    pub config: Vec<(String, String)>,
    pub enabled: bool,
}

/// A declared credential: the credential-plugin type, the identifier of
/// the consumer it belongs to, and free-form configuration.
#[derive(Debug)]
pub struct CredentialsInfo {
    pub name: String,
    pub target: String,
    pub config: Vec<(String, String)>,
}

/// A consumer as the gateway reports it.
#[derive(Debug)]
pub struct ConsumerDO {
    pub custom_id: Option<String>,
    pub id: String,
    pub created_at: i64,
}

/// The header of a legacy API listing.
#[derive(Debug)]
pub struct ListApiResp {
    pub total: i32,
    pub next: Option<String>,
    pub offset: Option<String>,
}

/// The gateway's answer to a service creation.
#[derive(Debug)]
pub struct AddServiceResp {
    pub id: String,
    pub created_at: i64,
}

/// The gateway's answer to a route creation.
#[derive(Debug)]
pub struct AddRouteResp {
    pub id: String,
    pub created_at: i64,
}

/// The gateway's self-description; only the version is read.
#[derive(Debug)]
pub struct KongInfo {
    pub version: String,
}

/// One page of the service listing.
#[derive(Debug)]
pub struct ServiceList {
    pub data: Vec<ServiceItem>,
    pub next: Option<String>,
    pub offset: Option<String>,
}

/// One page of the route listing.
#[derive(Debug)]
pub struct RouteList {
    pub data: Vec<RouteItem>,
    pub next: Option<String>,
    pub offset: Option<String>,
}

/// One page of the plugin listing.
#[derive(Debug)]
pub struct PluginList {
    pub total: i32,
    pub data: Vec<PluginItem>,
    pub offset: Option<String>,
}

/// A listed service.
#[derive(Debug)]
pub struct ServiceItem {
    pub id: String,
    pub name: String,
}

/// A listed route.
#[derive(Debug)]
pub struct RouteItem {
    pub id: String,
}

/// A listed plugin.
#[derive(Debug)]
pub struct PluginItem {
    pub id: String,
    pub name: String,
}

/// How a legacy plugin's target-API selector was classified.
#[derive(Clone, Copy, Debug, PartialEq, Eq, Structural)]
pub enum LegacyPluginAppliedType {
    ALL,
    NONE,
    SOME,
}

/// A suggested-dialect plugin target after name resolution: the global
/// collection, or resolved service or route identifiers.
#[derive(Debug, PartialEq)]
pub enum PluginTarget {
    GLOBAL,
    SERVICES(Vec<String>),
    Routes(Vec<String>),
}

/// A parsed definition, or the report that the text mixes both dialects.
#[derive(Debug)]
pub enum ConfFileStyle {
    Suggested(KongConf),
    Legacy(LegacyKongConf),
    IllegalFormat { msg: String },
}

} // verus!
