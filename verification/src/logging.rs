//! Component-based structured logging.
//!
//! A logger carries a node id for distributed tracing, a component tag, an
//! optional parent component and optional action and event paths. The
//! formatted prefix of every line is specified exactly; emission goes to
//! the standard error stream and changes nothing but observability.

use crate::shims::emit_line;
use vstd::prelude::*;

verus! {

/// Predefined components for log categorization.
#[derive(Debug, Clone, Copy)]
pub enum Component {
    Node,
    Registry,
    Service,
    Database,
    Network,
    NetworkDiscovery,
    System,
    Custom(&'static str),
}

/// The display name of a component.
pub open spec fn spec_component_str(c: Component) -> Seq<char> {
    match c {
        Component::Node => "Node"@,
        Component::Registry => "Registry"@,
        Component::Service => "Service"@,
        Component::Database => "DB"@,
        Component::Network => "Network"@,
        Component::NetworkDiscovery => "NetworkDiscovery"@,
        Component::System => "System"@,
        Component::Custom(name) => name@,
    }
}

impl Component {
    /// The display name of this component.
    pub fn as_str(&self) -> (r: &str)
        ensures
            r@ == spec_component_str(*self),
    {
        match self {
            Component::Node => "Node",
            Component::Registry => "Registry",
            Component::Service => "Service",
            Component::Database => "DB",
            Component::Network => "Network",
            Component::NetworkDiscovery => "NetworkDiscovery",
            Component::System => "System",
            Component::Custom(name) => name,
        }
    }
}

/// The model of a logger.
pub struct LoggerModel {
    /// The component this logger is for.
    pub component: Component,
    /// The node id, for distributed tracing.
    pub node_id: Seq<char>,
    /// The parent component, for hierarchical prefixes.
    pub parent_component: Option<Component>,
    /// The action path being traced, if any.
    pub action_path: Option<Seq<char>>,
    /// The event path being traced, if any.
    pub event_path: Option<Seq<char>>,
}

/// A component-specific logger with node id tracking.
#[derive(Debug)]
pub struct Logger {
    component: Component,
    node_id: String,
    parent_component: Option<Component>,
    action_path: Option<String>,
    event_path: Option<String>,
}

impl View for Logger {
    type V = LoggerModel;

    closed spec fn view(&self) -> LoggerModel {
        LoggerModel {
            component: self.component,
            node_id: self.node_id@,
            parent_component: self.parent_component,
            action_path: match self.action_path {
                Some(p) => Some(p@),
                None => None,
            },
            event_path: match self.event_path {
                Some(p) => Some(p@),
                None => None,
            },
        }
    }
}

/// The component part of a line prefix: `parent.component`, or just the
/// component when there is no parent or the parent is the node itself.
pub open spec fn spec_component_prefix(m: LoggerModel) -> Seq<char> {
    match m.parent_component {
        Some(p) => if p != Component::Node {
            spec_component_str(p) + "."@ + spec_component_str(m.component)
        } else {
            spec_component_str(m.component)
        },
        None => spec_component_str(m.component),
    }
}

/// The full line prefix: component part, then the action and event paths,
/// each introduced by its keyword and separated by `|`.
pub open spec fn spec_full_prefix(m: LoggerModel) -> Seq<char> {
    spec_component_prefix(m) + (match m.action_path {
        Some(p) => "|action="@ + p,
        None => Seq::<char>::empty(),
    }) + (match m.event_path {
        Some(p) => "|event="@ + p,
        None => Seq::<char>::empty(),
    })
}

/// The formatted log line: the node id in brackets, the prefix in
/// brackets unless the logger is the bare node logger, then the message.
pub open spec fn spec_format_line(m: LoggerModel, message: Seq<char>) -> Seq<char> {
    if m.component == Component::Node && m.parent_component is None {
        "["@ + m.node_id + "] "@ + message
    } else {
        "["@ + m.node_id + "]["@ + spec_full_prefix(m) + "] "@ + message
    }
}

impl Clone for Logger {
    /// A copy with the same settings.
    fn clone(&self) -> (r: Self)
        ensures
            r@ == self@,
    {
        Logger {
            component: self.component,
            node_id: self.node_id.clone(),
            parent_component: self.parent_component,
            action_path: match &self.action_path {
                Some(p) => Some(p.clone()),
                None => None,
            },
            event_path: match &self.event_path {
                Some(p) => Some(p.clone()),
                None => None,
            },
        }
    }
}

impl Logger {
    /// A root logger for a component and node id.
    pub fn new_root(component: Component, node_id: &str) -> (r: Logger)
        ensures
            r@ == (LoggerModel {
                component,
                node_id: node_id@,
                parent_component: None,
                action_path: None,
                event_path: None,
            }),
    {
        Logger {
            component,
            node_id: node_id.to_owned(),
            parent_component: None,
            action_path: None,
            event_path: None,
        }
    }

    /// A child logger for another component; the current component becomes
    /// the parent.
    pub fn with_component(&self, component: Component) -> (r: Logger)
        ensures
            r@ == (LoggerModel {
                component,
                node_id: self@.node_id,
                parent_component: Some(self@.component),
                action_path: self@.action_path,
                event_path: self@.event_path,
            }),
    {
        Logger {
            component,
            node_id: self.node_id.clone(),
            parent_component: Some(self.component),
            action_path: self.action_path.clone(),
            event_path: self.event_path.clone(),
        }
    }

    /// A logger that traces an action path.
    pub fn with_action_path(&self, path: String) -> (r: Logger)
        ensures
            r@ == (LoggerModel { action_path: Some(path@), ..self@ }),
    {
        Logger {
            component: self.component,
            node_id: self.node_id.clone(),
            parent_component: self.parent_component,
            action_path: Some(path),
            event_path: self.event_path.clone(),
        }
    }

    /// A logger that traces an event path.
    pub fn with_event_path(&self, path: String) -> (r: Logger)
        ensures
            r@ == (LoggerModel { event_path: Some(path@), ..self@ }),
    {
        Logger {
            component: self.component,
            node_id: self.node_id.clone(),
            parent_component: self.parent_component,
            action_path: self.action_path.clone(),
            event_path: Some(path),
        }
    }

    /// A copy of this logger with the same settings.
    pub fn clone_logger(&self) -> (r: Logger)
        ensures
            r@ == self@,
    {
        self.clone()
    }

    /// The node id.
    pub fn node_id(&self) -> (r: &str)
        ensures
            r@ == self@.node_id,
    {
        self.node_id.as_str()
    }

    /// The action path, if any.
    pub fn action_path(&self) -> (r: Option<&str>)
        ensures
            match r {
                Some(p) => self@.action_path == Some(p@),
                None => self@.action_path is None,
            },
    {
        match &self.action_path {
            Some(p) => Some(p.as_str()),
            None => None,
        }
    }

    /// The event path, if any.
    pub fn event_path(&self) -> (r: Option<&str>)
        ensures
            match r {
                Some(p) => self@.event_path == Some(p@),
                None => self@.event_path is None,
            },
    {
        match &self.event_path {
            Some(p) => Some(p.as_str()),
            None => None,
        }
    }

    /// The component part of the line prefix.
    pub fn component_prefix(&self) -> (r: String)
        ensures
            r@ == spec_component_prefix(self@),
    {
        match &self.parent_component {
            Some(p) => {
                let is_node = match p {
                    Component::Node => true,
                    _ => false,
                };
                if !is_node {
                    let mut s = String::from_str(p.as_str());
                    s.append(".");
                    s.append(self.component.as_str());
                    s
                } else {
                    String::from_str(self.component.as_str())
                }
            },
            None => String::from_str(self.component.as_str()),
        }
    }

    /// The full line prefix, action and event paths included.
    pub fn full_prefix(&self) -> (r: String)
        ensures
            r@ == spec_full_prefix(self@),
    {
        let mut s = self.component_prefix();
        match &self.action_path {
            Some(p) => {
                s.append("|action=");
                s.append(p.as_str());
            },
            None => {},
        }
        match &self.event_path {
            Some(p) => {
                s.append("|event=");
                s.append(p.as_str());
            },
            None => {},
        }
        s
    }

    /// The formatted line a message would produce.
    pub fn format_line(&self, message: &str) -> (r: String)
        ensures
            r@ == spec_format_line(self@, message@),
    {
        let bare = match (&self.component, &self.parent_component) {
            (Component::Node, None) => true,
            _ => false,
        };
        let mut s = String::from_str("[");
        s.append(self.node_id.as_str());
        if bare {
            s.append("] ");
            s.append(message);
        } else {
            s.append("][");
            let prefix = self.full_prefix();
            s.append(prefix.as_str());
            s.append("] ");
            s.append(message);
        }
        s
    }

    /// Put a debug-level line on the diagnostic stream.
    pub fn debug(&self, message: &str) {
        let mut line = String::from_str("DEBUG ");
        let body = self.format_line(message);
        line.append(body.as_str());
        emit_line(&line);
    }

    /// Put an info-level line on the diagnostic stream.
    pub fn info(&self, message: &str) {
        let mut line = String::from_str("INFO ");
        let body = self.format_line(message);
        line.append(body.as_str());
        emit_line(&line);
    }

    /// Put a warning-level line on the diagnostic stream.
    pub fn warn(&self, message: &str) {
        let mut line = String::from_str("WARN ");
        let body = self.format_line(message);
        line.append(body.as_str());
        emit_line(&line);
    }

    /// Put an error-level line on the diagnostic stream.
    pub fn error(&self, message: &str) {
        let mut line = String::from_str("ERROR ");
        let body = self.format_line(message);
        line.append(body.as_str());
        emit_line(&line);
    }
}

/// Context-aware logging for services: anything that can name its
/// component, paths and logger gets the leveled helpers and the prefix
/// builder for free.
pub trait LoggingContext {
    /// The component of this context.
    fn component(&self) -> Component;

    /// The service path or identifier, if any.
    fn service_path(&self) -> Option<&str>;

    /// The action path being traced, if any.
    fn action_path(&self) -> Option<&str> {
        None
    }

    /// The event path being traced, if any.
    fn event_path(&self) -> Option<&str> {
        None
    }

    /// The logger of this context.
    fn logger(&self) -> &Logger;

    /// The logging prefix: component (with its service path), then the
    /// action and event paths, separated by `|`.
    fn log_prefix(&self) -> String {
        let mut s = String::from_str(self.component().as_str());
        match self.service_path() {
            Some(path) => {
                s.append(":");
                s.append(path);
            },
            None => {},
        }
        match self.action_path() {
            Some(path) => {
                s.append("|action=");
                s.append(path);
            },
            None => {},
        }
        match self.event_path() {
            Some(path) => {
                s.append("|event=");
                s.append(path);
            },
            None => {},
        }
        s
    }

    /// Put a debug-level line, prefixed with this context, on the
    /// diagnostic stream.
    fn log_debug(&self, message: &str) {
        emit_line(&self.context_line("DEBUG ", message));
    }

    /// Put an info-level line, prefixed with this context, on the
    /// diagnostic stream.
    fn log_info(&self, message: &str) {
        emit_line(&self.context_line("INFO ", message));
    }

    /// Put a warning, prefixed with this context, on the diagnostic
    /// stream.
    fn log_warn(&self, message: &str) {
        emit_line(&self.context_line("WARN ", message));
    }

    /// Put an error, prefixed with this context, on the diagnostic
    /// stream.
    fn log_error(&self, message: &str) {
        emit_line(&self.context_line("ERROR ", message));
    }

    /// One formatted line: the level tag, the node id, the context prefix
    /// (left out for the bare node context) and the message.
    fn context_line(&self, level: &str, message: &str) -> String {
        let prefix = self.log_prefix();
        let is_node = match self.component() {
            Component::Node => true,
            _ => false,
        };
        let mut line = String::from_str(level);
        line.append("[");
        line.append(self.logger().node_id());
        line.append("]");
        if !(is_node && crate::prim::str_eq(prefix.as_str(), "Node")) {
            line.append("[");
            line.append(prefix.as_str());
            line.append("]");
        }
        line.append(" ");
        line.append(message);
        line
    }
}

} // verus!
