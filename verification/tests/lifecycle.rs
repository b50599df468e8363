use bollard::models::{
    ContainerSummary, ContainerSummaryHostConfig, ContainerSummaryNetworkSettings,
    EndpointSettings, MountPoint, MountPointTypeEnum, Port, PortTypeEnum,
};
use std::collections::HashMap;
use workload_gateway::inventory::{inventory_document, list_containers};
use workload_gateway::lifecycle::{
    add_container, confirm_registration, manage_docker, provision, remove_container, start, stop,
    Command, ContainerSpec, Provision,
};
use workload_gateway::proxy::{reverse_proxy, ProxyPlan};
use workload_gateway::registry::Registry;

fn text(value: &str) -> Option<String> {
    Some(value.to_string())
}

fn failed(reason: &str) -> Result<(), String> {
    Err(reason.to_string())
}

#[test]
fn add_action_becomes_an_add_command() {
    assert_eq!(
        manage_docker("add", text("web-1"), text("9000")),
        Command::Add { workload_id: "web-1".to_string(), port: text("9000") }
    );
    assert_eq!(
        manage_docker("add", text("web-1"), None),
        Command::Add { workload_id: "web-1".to_string(), port: None }
    );
}

#[test]
fn start_stop_and_remove_name_the_workload() {
    assert_eq!(
        manage_docker("start", text("web-1"), None),
        Command::Start { workload_id: "web-1".to_string() }
    );
    assert_eq!(
        manage_docker("stop", text("web-1"), text("9000")),
        Command::Stop { workload_id: "web-1".to_string() }
    );
    assert_eq!(
        manage_docker("remove", text("web-1"), None),
        Command::Remove { workload_id: "web-1".to_string() }
    );
}

#[test]
fn list_action_asks_for_all_containers() {
    assert_eq!(manage_docker("list", None, None), Command::List { all: true });
    assert_eq!(manage_docker("list", text("web-1"), text("1")), Command::List { all: true });
}

#[test]
fn absent_container_id_is_the_empty_id() {
    assert_eq!(manage_docker("start", None, None), Command::Start { workload_id: String::new() });
    assert_eq!(
        manage_docker("add", None, text("9000")),
        Command::Add { workload_id: String::new(), port: text("9000") }
    );
}

#[test]
fn unknown_action_is_rejected() {
    assert_eq!(
        manage_docker("restart", text("web-1"), None),
        Command::Reject { message: "Unsupported action: restart".to_string() }
    );
    assert_eq!(
        manage_docker("", None, None),
        Command::Reject { message: "Unsupported action: ".to_string() }
    );
    assert_eq!(
        manage_docker("ADD", text("web-1"), None),
        Command::Reject { message: "Unsupported action: ADD".to_string() }
    );
    assert_eq!(
        manage_docker("lists", None, None),
        Command::Reject { message: "Unsupported action: lists".to_string() }
    );
}

#[test]
fn provision_with_a_port() {
    let plan = provision("web-1", text("9000"), "sandbox:latest", "API_KEY", "s3cret");
    assert_eq!(
        plan,
        Provision {
            workload_id: "web-1".to_string(),
            registry_key: "web-1/port".to_string(),
            registry_port: "9000".to_string(),
            container: ContainerSpec {
                name: "web-1".to_string(),
                image: "sandbox:latest".to_string(),
                exposed_port: "8080/tcp".to_string(),
                host_ip: String::new(),
                host_port: text("9000"),
                env: vec!["API_KEY=s3cret".to_string()],
            },
        }
    );
}

#[test]
fn provision_without_a_port_registers_the_default() {
    let plan = provision("web-1", None, "sandbox:latest", "API_KEY", "s3cret");
    assert_eq!(plan.registry_port, "8080");
    assert_eq!(plan.registry_key, "web-1/port");
    assert_eq!(plan.container.host_port, None);
    assert_eq!(plan.container.exposed_port, "8080/tcp");
    assert_eq!(plan.container.name, "web-1");
}

#[test]
fn provision_with_empty_configuration() {
    let plan = provision("", None, "", "API_KEY", "");
    assert_eq!(plan.workload_id, "");
    assert_eq!(plan.registry_key, "/port");
    assert_eq!(plan.container.image, "");
    assert_eq!(plan.container.env, vec!["API_KEY=".to_string()]);
}

#[test]
fn add_container_reports_the_image() {
    assert_eq!(
        add_container("web-1", "sandbox:latest", &Ok(())),
        "Created container web-1 from image sandbox:latest"
    );
    assert_eq!(add_container("", "", &Ok(())), "Created container  from image ");
}

#[test]
fn add_container_reports_a_failure() {
    assert_eq!(
        add_container("web-1", "sandbox:latest", &failed("No such image: sandbox:latest")),
        "Error creating container web-1: No such image: sandbox:latest"
    );
}

#[test]
fn start_reports() {
    assert_eq!(start("web-1", &Ok(())), "Started container web-1");
    assert_eq!(
        start("web-1", &failed("No such container: web-1")),
        "Error starting container web-1: No such container: web-1"
    );
}

#[test]
fn stop_reports() {
    assert_eq!(stop("web-1", &Ok(())), "Stopped container web-1");
    assert_eq!(
        stop("web-1", &failed("daemon unreachable")),
        "Error stopping container web-1: daemon unreachable"
    );
}

#[test]
fn remove_container_reports() {
    assert_eq!(remove_container("web-1", &Ok(())), "Removed container web-1");
    assert_eq!(
        remove_container("web-1", &failed("container is running")),
        "Error removing container web-1: container is running"
    );
}

#[test]
fn list_containers_reports_a_failure() {
    assert_eq!(
        list_containers(Err("daemon unreachable".to_string())),
        "Error listing containers: daemon unreachable"
    );
}

#[test]
fn list_containers_writes_an_empty_inventory() {
    assert_eq!(list_containers(Ok(Vec::new())), "[]");
}

#[test]
fn list_containers_writes_the_inventory_as_json() {
    let first = ContainerSummary {
        id: text("4f1c"),
        names: Some(vec!["/web-1".to_string()]),
        image: text("sandbox:latest"),
        state: text("running"),
        ..Default::default()
    };
    let second = ContainerSummary { id: text("9a2e"), state: text("exited"), ..Default::default() };
    assert_eq!(
        list_containers(Ok(vec![first, second])),
        "[{\"Id\":\"4f1c\",\"Names\":[\"/web-1\"],\"Image\":\"sandbox:latest\",\"State\":\"running\"},{\"Id\":\"9a2e\",\"State\":\"exited\"}]"
    );
}

#[test]
fn inventory_document_is_the_json_text() {
    assert_eq!(inventory_document(Ok("[]".to_string())), "[]");
    assert_eq!(inventory_document(Ok(String::new())), "");
}

#[test]
fn inventory_document_reports_a_failed_serialization() {
    let error = serde_json::from_str::<u8>("not json").unwrap_err();
    assert_eq!(inventory_document(Err(error)), "Error serializing container IDs");
}

#[test]
fn stop_and_remove_keep_the_registry_entry() {
    let mut registry = Registry::new();
    let plan = provision("web-1", text("9000"), "sandbox:latest", "API_KEY", "s3cret");
    registry.upsert(&plan.workload_id, &plan.registry_port);
    assert_eq!(stop("web-1", &Ok(())), "Stopped container web-1");
    assert_eq!(remove_container("web-1", &Ok(())), "Removed container web-1");
    assert_eq!(registry.lookup("web-1"), text("9000"));
}

#[test]
fn provisioned_workload_is_routable() {
    let mut registry = Registry::new();
    let plan = provision("web-1", None, "sandbox:latest", "API_KEY", "s3cret");
    registry.upsert(&plan.workload_id, &plan.registry_port);
    assert_eq!(
        reverse_proxy(Ok(registry.lookup("web-1")), "web-1", "health", "GET", Vec::new()),
        ProxyPlan::Get { url: "http://127.0.0.1:8080/health".to_string() }
    );
}

#[test]
fn written_registration_goes_on_to_create() {
    let plan = provision("web-1", text("9000"), "sandbox:latest", "API_KEY", "s3cret");
    assert_eq!(
        confirm_registration(plan, &Ok(())),
        Ok(ContainerSpec {
            name: "web-1".to_string(),
            image: "sandbox:latest".to_string(),
            exposed_port: "8080/tcp".to_string(),
            host_ip: String::new(),
            host_port: text("9000"),
            env: vec!["API_KEY=s3cret".to_string()],
        })
    );
}

#[test]
fn failed_registration_ends_the_request() {
    let plan = provision("web-1", text("9000"), "sandbox:latest", "API_KEY", "s3cret");
    assert_eq!(
        confirm_registration(plan, &failed("unable to open database file")),
        Err("Error registering container web-1: unable to open database file".to_string())
    );
}

#[test]
fn failed_registration_is_not_reported_as_created() {
    let plan = provision("", None, "", "API_KEY", "");
    let report = confirm_registration(plan, &failed("")).unwrap_err();
    assert_eq!(report, "Error registering container : ");
    assert!(!report.starts_with("Created container"));
}

#[test]
fn inventory_is_never_reported_as_a_failed_listing() {
    let one = ContainerSummary { id: text("4f1c"), ..Default::default() };
    let report = list_containers(Ok(vec![one, ContainerSummary::default()]));
    assert_eq!(report, "[{\"Id\":\"4f1c\"},{}]");
    assert!(report.starts_with('['));
    assert!(report.ends_with(']'));
    assert!(report.chars().count() >= 3 * 2 + 1);
    assert!(!report.starts_with("Error listing containers: "));
}

#[test]
fn inventory_of_bare_descriptions_has_the_shortest_text() {
    let report = list_containers(Ok(vec![
        ContainerSummary::default(),
        ContainerSummary::default(),
        ContainerSummary::default(),
    ]));
    assert_eq!(report, "[{},{},{}]");
    assert_eq!(report.chars().count(), 3 * 3 + 1);
}

#[test]
fn inventory_with_every_kind_of_field_is_written() {
    let mut labels = HashMap::new();
    labels.insert("tier".to_string(), "caf\u{e9} \"web\"".to_string());
    let mut networks = HashMap::new();
    networks.insert(
        "bridge".to_string(),
        EndpointSettings { ip_address: text("172.17.0.2"), ..Default::default() },
    );
    let full = ContainerSummary {
        id: text("4f1c"),
        created: Some(1700000000),
        ports: Some(vec![Port {
            ip: text("0.0.0.0"),
            private_port: 8080,
            public_port: Some(9000),
            typ: Some(PortTypeEnum::TCP),
        }]),
        labels: Some(labels),
        host_config: Some(ContainerSummaryHostConfig { network_mode: text("default") }),
        network_settings: Some(ContainerSummaryNetworkSettings { networks: Some(networks) }),
        mounts: Some(vec![MountPoint {
            typ: Some(MountPointTypeEnum::VOLUME),
            rw: Some(true),
            ..Default::default()
        }]),
        ..Default::default()
    };
    let report = list_containers(Ok(vec![full]));
    assert_eq!(
        report,
        "[{\"Id\":\"4f1c\",\"Created\":1700000000,\"Ports\":[{\"IP\":\"0.0.0.0\",\"PrivatePort\":8080,\"PublicPort\":9000,\"Type\":\"tcp\"}],\"Labels\":{\"tier\":\"caf\u{e9} \\\"web\\\"\"},\"HostConfig\":{\"NetworkMode\":\"default\"},\"NetworkSettings\":{\"Networks\":{\"bridge\":{\"IPAddress\":\"172.17.0.2\"}}},\"Mounts\":[{\"Type\":\"volume\",\"RW\":true}]}]"
    );
}

#[test]
fn inventory_with_many_labels_is_an_array_whatever_their_order() {
    let mut labels = HashMap::new();
    let mut i = 0;
    while i < 40 {
        labels.insert(format!("k{}", i), format!("v{}", i));
        i += 1;
    }
    let one = ContainerSummary { labels: Some(labels), ..Default::default() };
    let report = list_containers(Ok(vec![one.clone(), one.clone(), one]));
    assert!(report.starts_with("[{\"Labels\":{"));
    assert!(report.ends_with("}}]"));
    assert!(report.chars().count() >= 3 * 3 + 1);
    assert_ne!(report, "Error serializing container IDs");
}
