use runar_common::logging::{Component, Logger, LoggingContext};
use runar_common::service_info::{MetadataProvider, ServiceInfo};

#[test]
fn test_logger_prefixes() {
    let root = Logger::new_root(Component::Node, "node-1");
    assert_eq!(root.node_id(), "node-1");
    assert_eq!(root.component_prefix(), "Node");
    assert_eq!(root.full_prefix(), "Node");
    // the bare node logger leaves the prefix out
    assert_eq!(root.format_line("hello"), "[node-1] hello");

    let child = root.with_component(Component::Service);
    assert_eq!(child.component_prefix(), "Service");
    assert_eq!(child.format_line("hi"), "[node-1][Service] hi");

    let deeper = child.with_component(Component::Database);
    assert_eq!(deeper.component_prefix(), "Service.DB");

    let traced = deeper
        .with_action_path("math/add".to_string())
        .with_event_path("math/added".to_string());
    assert_eq!(
        traced.full_prefix(),
        "Service.DB|action=math/add|event=math/added"
    );
    assert_eq!(traced.action_path(), Some("math/add"));
    assert_eq!(traced.event_path(), Some("math/added"));

    let copy = traced.clone_logger();
    assert_eq!(copy.full_prefix(), traced.full_prefix());

    let custom = Logger::new_root(Component::Custom("Audit"), "node-2");
    assert_eq!(custom.component_prefix(), "Audit");
    // emission goes to the diagnostic stream and changes nothing
    custom.debug("debug line");
    custom.info("info line");
    custom.warn("warn line");
    custom.error("error line");
}

struct TestContext {
    logger: Logger,
}

impl LoggingContext for TestContext {
    fn component(&self) -> Component {
        Component::Service
    }

    fn service_path(&self) -> Option<&str> {
        Some("math-service")
    }

    fn logger(&self) -> &Logger {
        &self.logger
    }
}

#[test]
fn test_logging_context_prefix() {
    let ctx = TestContext {
        logger: Logger::new_root(Component::Service, "node-3"),
    };
    assert_eq!(ctx.log_prefix(), "Service:math-service");
    assert_eq!(
        ctx.context_line("DEBUG ", "working"),
        "DEBUG [node-3][Service:math-service] working"
    );
    ctx.log_debug("working");
    ctx.log_info("still working");
    ctx.log_warn("careful");
    ctx.log_error("broken");
}

struct TestService;

impl MetadataProvider for TestService {
    fn name(&self) -> &str {
        "math"
    }

    fn path(&self) -> &str {
        "math-service"
    }

    fn description(&self) -> &str {
        "adds numbers"
    }

    fn version(&self) -> &str {
        "1.0.0"
    }
}

#[test]
fn test_service_info_through_metadata_provider() {
    let service = TestService;
    assert_eq!(service.service_name(), "math");
    assert_eq!(service.service_path(), "math-service");
    assert_eq!(service.service_description(), "adds numbers");
    assert_eq!(service.service_version(), "1.0.0");
}
