//! Plain data model of the gateway-routing resources the dashboard can list:
//! gateways, TLS routes and reference grants, with only the fields the
//! cluster reports. Decoding from and encoding to the wire format lives with
//! the runtime around the library.

use std::collections::BTreeMap;

use vstd::prelude::*;

verus! {

/// What a gateway asks of its class: addresses, infrastructure and
/// listeners.
#[derive(Debug, Clone)]
pub struct GatewaySpec {
    pub addresses: Option<Vec<GatewayAddresses>>,
    pub gateway_class_name: String,
    pub infrastructure: Option<GatewayInfrastructure>,
    pub listeners: Vec<GatewayListeners>,
}

#[derive(Debug, Clone)]
pub struct GatewayAddresses {
    pub kind: Option<String>,
    pub value: String,
}

#[derive(Debug, Clone)]
pub struct GatewayInfrastructure {
    pub annotations: Option<BTreeMap<String, String>>,
    pub labels: Option<BTreeMap<String, String>>,
    pub parameters_ref: Option<GatewayInfrastructureParametersRef>,
}

#[derive(Debug, Clone)]
pub struct GatewayInfrastructureParametersRef {
    pub group: String,
    pub kind: String,
    pub name: String,
}

#[derive(Debug, Clone)]
pub struct GatewayListeners {
    pub allowed_routes: Option<GatewayListenersAllowedRoutes>,
    pub hostname: Option<String>,
    pub name: String,
    pub port: i32,
    pub protocol: String,
    pub tls: Option<GatewayListenersTls>,
}

#[derive(Debug, Clone)]
pub struct GatewayListenersAllowedRoutes {
    pub kinds: Option<Vec<GatewayListenersAllowedRoutesKinds>>,
    pub namespaces: Option<GatewayListenersAllowedRoutesNamespaces>,
}

#[derive(Debug, Clone)]
pub struct GatewayListenersAllowedRoutesKinds {
    pub group: Option<String>,
    pub kind: String,
}

#[derive(Debug, Clone)]
pub struct GatewayListenersAllowedRoutesNamespaces {
    pub from: Option<GatewayListenersAllowedRoutesNamespacesFrom>,
    pub selector: Option<GatewayListenersAllowedRoutesNamespacesSelector>,
}

#[derive(Debug, Clone, Copy, PartialEq, Eq, Structural)]
pub enum GatewayListenersAllowedRoutesNamespacesFrom {
    All,
    Selector,
    Same,
}

#[derive(Debug, Clone)]
pub struct GatewayListenersAllowedRoutesNamespacesSelector {
    pub match_expressions: Option<
        Vec<GatewayListenersAllowedRoutesNamespacesSelectorMatchExpressions>,
    >,
    pub match_labels: Option<BTreeMap<String, String>>,
}

#[derive(Debug, Clone)]
pub struct GatewayListenersAllowedRoutesNamespacesSelectorMatchExpressions {
    pub key: String,
    pub operator: String,
    pub values: Option<Vec<String>>,
}

#[derive(Debug, Clone)]
pub struct GatewayListenersTls {
    pub certificate_refs: Option<Vec<GatewayListenersTlsCertificateRefs>>,
    pub mode: Option<GatewayListenersTlsMode>,
    pub options: Option<BTreeMap<String, String>>,
}

#[derive(Debug, Clone)]
pub struct GatewayListenersTlsCertificateRefs {
    pub group: Option<String>,
    pub kind: Option<String>,
    pub name: String,
    pub namespace: Option<String>,
}

#[derive(Debug, Clone, Copy, PartialEq, Eq, Structural)]
pub enum GatewayListenersTlsMode {
    Terminate,
    Passthrough,
}

#[derive(Debug, Clone)]
pub struct GatewayStatusAddresses {
    pub kind: Option<String>,
    pub value: String,
}

#[derive(Debug, Clone)]
pub struct GatewayStatusListenersSupportedKinds {
    pub group: Option<String>,
    pub kind: String,
}

/// What a TLS route asks for: hostnames, the parents it attaches to and its
/// backend rules.
#[derive(Debug, Clone)]
pub struct TLSRouteSpec {
    pub hostnames: Option<Vec<String>>,
    pub parent_refs: Option<Vec<TLSRouteParentRefs>>,
    pub rules: Vec<TLSRouteRules>,
}

#[derive(Debug, Clone)]
pub struct TLSRouteParentRefs {
    pub group: Option<String>,
    pub kind: Option<String>,
    pub name: String,
    pub namespace: Option<String>,
    pub port: Option<i32>,
    pub section_name: Option<String>,
}

#[derive(Debug, Clone)]
pub struct TLSRouteRules {
    pub backend_refs: Option<Vec<TLSRouteRulesBackendRefs>>,
}

#[derive(Debug, Clone)]
pub struct TLSRouteRulesBackendRefs {
    pub group: Option<String>,
    pub kind: Option<String>,
    pub name: String,
    pub namespace: Option<String>,
    pub port: Option<i32>,
    pub weight: Option<i32>,
}

#[derive(Debug, Clone)]
pub struct TLSRouteStatusParentsParentRef {
    pub group: Option<String>,
    pub kind: Option<String>,
    pub name: String,
    pub namespace: Option<String>,
    pub port: Option<i32>,
    pub section_name: Option<String>,
}

/// What a reference grant allows: references from the given kinds to the
/// given kinds.
#[derive(Debug, Clone)]
pub struct ReferenceGrantSpec {
    pub from: Vec<ReferenceGrantFrom>,
    pub to: Vec<ReferenceGrantTo>,
}

#[derive(Debug, Clone)]
pub struct ReferenceGrantFrom {
    pub group: String,
    pub kind: String,
    pub namespace: String,
}

#[derive(Debug, Clone)]
pub struct ReferenceGrantTo {
    pub group: String,
    pub kind: String,
    pub name: Option<String>,
}

} // verus!
