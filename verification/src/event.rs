//! The closed set of events the bus carries, the identifiers of tabs, panes
//! and dialogs, and the directives the dispatch loop hands back.

use vstd::prelude::*;

use crate::table::KubeTable;

verus! {

/// The tabs of the main window.
#[derive(Debug, Clone, Copy, PartialEq, Eq, Structural)]
pub enum TabId {
    Pods,
    Configs,
    Event,
    Apis,
}

/// The panes the dispatch loop addresses.
#[derive(Debug, Clone, Copy, PartialEq, Eq, Structural)]
pub enum PaneId {
    PodsPods,
    PodsLogs,
    ConfigsConfigs,
    ConfigsRawData,
    EventEvent,
    ApisApis,
}

/// The modal dialogs.
#[derive(Debug, Clone, Copy, PartialEq, Eq, Structural)]
pub enum SubWindowId {
    Namespaces,
    Apis,
}

/// A key, reduced to the keys the dashboard reads.
#[derive(Debug, Clone, Copy, PartialEq, Eq, Structural)]
pub enum KeyCode {
    Char(char),
    Enter,
    Tab,
    BackTab,
    Delete,
    Backspace,
    Left,
    Right,
    Up,
    Down,
}

/// The modifier held with a key; the dashboard reads at most one.
#[derive(Debug, Clone, Copy, PartialEq, Eq, Structural)]
pub enum KeyModifiers {
    Plain,
    Control,
    Shift,
}

#[derive(Debug, Clone, Copy, PartialEq, Eq, Structural)]
pub struct KeyEvent {
    pub code: KeyCode,
    pub modifiers: KeyModifiers,
}

/// A failed remote fetch.
#[derive(Debug, Clone)]
pub struct FetchError {
    pub message: String,
}

/// A one-shot fetch request keyed by namespace and name.
#[derive(Debug, Clone)]
pub enum Request {
    Pod(String, String),
    Service(String, String),
    Ingress(String, String),
}

/// What the network poller puts on the bus.
#[derive(Debug)]
pub enum NetworkMessage {
    Poll(Result<KubeTable, FetchError>),
    Request(Request),
    Response(Result<Vec<String>, FetchError>),
}

/// The cluster-side messages: requests the dispatch loop sends and results
/// the workers publish.
#[derive(Debug)]
pub enum Kube {
    SetNamespace(String),
    GetNamespacesRequest,
    GetNamespacesResponse(Vec<String>),
    GetAPIsRequest,
    GetAPIsResponse(Vec<String>),
    LogStreamRequest(String),
    LogStreamResponse(Vec<String>),
    ConfigRequest(String),
    ConfigResponse(Vec<String>),
    GetCurrentContextResponse(String, String),
    Pod(Vec<Vec<String>>),
    Configs(Vec<String>),
    Event(Vec<String>),
    Network(NetworkMessage),
}

/// One event on the bus.
#[derive(Debug)]
pub enum Event {
    Input(KeyEvent),
    Resize(u16, u16),
    Tick,
    Mouse,
    Kube(Kube),
}

/// What one dispatch step tells the loop to do next.
#[derive(Debug, Clone, Copy, PartialEq, Eq, Structural)]
pub enum WindowEvent {
    CloseWindow,
    Continue,
    OpenSubWindow(SubWindowId),
    CloseSubWindow,
    ResizeWindow,
}

} // verus!
