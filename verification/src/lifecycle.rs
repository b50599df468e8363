//! The workload lifecycle controller: which command a management request asks
//! of the container runtime, what a new workload is provisioned with, and the
//! status line that reports how the runtime answered.
//!
//! Nothing here talks to the runtime or to the registry's store. A request is
//! turned into a [`Command`]; whoever holds the connections carries it out and
//! hands each answer back as a `Result` whose error is the other side's own
//! description of what went wrong. A failed registry write ends the adding of
//! a workload with a status line of its own, before any container is created.

use crate::proxy::{plan_of, target_of, ProxyPlanView};
use crate::registry::{
    key_of, lemma_table_write_then_read, port_of, registry_key, stored_port_of, Ports, Table,
};
use crate::text::{chars_of, same};
use vstd::prelude::*;
use vstd::string::StringExecFns;

verus! {

/// What a management request asks for.
#[derive(Debug, PartialEq, Eq)]
pub enum Command {
    /// Provision a workload, bound to `port` on the host where one is given.
    Add { workload_id: String, port: Option<String> },
    /// Start the container of a workload.
    Start { workload_id: String },
    /// Stop the container of a workload.
    Stop { workload_id: String },
    /// Delete the container of a workload.
    Remove { workload_id: String },
    /// List the runtime's containers; `all` includes those that do not run.
    List { all: bool },
    /// Answer with `message` and ask nothing of the runtime.
    Reject { message: String },
}

/// A [`Command`] as plain text.
pub enum CommandView {
    Add { workload_id: Seq<char>, port: Option<Seq<char>> },
    Start { workload_id: Seq<char> },
    Stop { workload_id: Seq<char> },
    Remove { workload_id: Seq<char> },
    List { all: bool },
    Reject { message: Seq<char> },
}

impl View for Command {
    type V = CommandView;

    open spec fn view(&self) -> CommandView {
        match *self {
            Command::Add { workload_id, port } => CommandView::Add {
                workload_id: workload_id@,
                port: chars_of(port),
            },
            Command::Start { workload_id } => CommandView::Start { workload_id: workload_id@ },
            Command::Stop { workload_id } => CommandView::Stop { workload_id: workload_id@ },
            Command::Remove { workload_id } => CommandView::Remove { workload_id: workload_id@ },
            Command::List { all } => CommandView::List { all },
            Command::Reject { message } => CommandView::Reject { message: message@ },
        }
    }
}

/// The answer to an action that is none of `add`, `start`, `stop`, `remove`,
/// `list`.
pub open spec fn unsupported_action_message(action: Seq<char>) -> Seq<char> {
    "Unsupported action: "@ + action
}

/// The workload that a request names: the empty id where it names none.
pub open spec fn workload_of(container_id: Option<Seq<char>>) -> Seq<char> {
    match container_id {
        Some(id) => id,
        None => Seq::empty(),
    }
}

/// The command that the action `action` stands for.
pub open spec fn command_of(
    action: Seq<char>,
    container_id: Option<Seq<char>>,
    port: Option<Seq<char>>,
) -> CommandView {
    if action == "add"@ {
        CommandView::Add { workload_id: workload_of(container_id), port }
    } else if action == "start"@ {
        CommandView::Start { workload_id: workload_of(container_id) }
    } else if action == "stop"@ {
        CommandView::Stop { workload_id: workload_of(container_id) }
    } else if action == "remove"@ {
        CommandView::Remove { workload_id: workload_of(container_id) }
    } else if action == "list"@ {
        CommandView::List { all: true }
    } else {
        CommandView::Reject { message: unsupported_action_message(action) }
    }
}

/// Turns a management request into the command to carry out.
///
/// `action` is the request's action segment; `container_id` and `port` are its
/// query parameters, each absent or present.
pub fn manage_docker(action: &str, container_id: Option<String>, port: Option<String>) -> (command:
    Command)
    ensures
        command@ == command_of(action@, chars_of(container_id), chars_of(port)),
{
    let workload_id = match container_id {
        Some(id) => id,
        None => String::new(),
    };
    if same(action, "add") {
        Command::Add { workload_id, port }
    } else if same(action, "start") {
        Command::Start { workload_id }
    } else if same(action, "stop") {
        Command::Stop { workload_id }
    } else if same(action, "remove") {
        Command::Remove { workload_id }
    } else if same(action, "list") {
        Command::List { all: true }
    } else {
        Command::Reject { message: String::from_str("Unsupported action: ").concat(action) }
    }
}

/// The container that a workload runs in, as the runtime is asked to create
/// it.
#[derive(Debug, PartialEq, Eq)]
pub struct ContainerSpec {
    /// The container's name: the workload id.
    pub name: String,
    /// The image to create the container from.
    pub image: String,
    /// The port that the container exposes, with its protocol.
    pub exposed_port: String,
    /// The host address that the exposed port is bound to; empty for all.
    pub host_ip: String,
    /// The host port that the exposed port is bound to; where it is absent the
    /// runtime assigns one.
    pub host_port: Option<String>,
    /// The container's environment, one `NAME=value` entry each.
    pub env: Vec<String>,
}

/// A [`ContainerSpec`] as plain text.
pub struct ContainerSpecView {
    pub name: Seq<char>,
    pub image: Seq<char>,
    pub exposed_port: Seq<char>,
    pub host_ip: Seq<char>,
    pub host_port: Option<Seq<char>>,
    pub env: Seq<Seq<char>>,
}

impl View for ContainerSpec {
    type V = ContainerSpecView;

    open spec fn view(&self) -> ContainerSpecView {
        ContainerSpecView {
            name: self.name@,
            image: self.image@,
            exposed_port: self.exposed_port@,
            host_ip: self.host_ip@,
            host_port: chars_of(self.host_port),
            env: Seq::new(self.env@.len(), |i: int| self.env@[i]@),
        }
    }
}

/// What adding a workload consists of: the registry entry to write, then the
/// container to create.
#[derive(Debug, PartialEq, Eq)]
pub struct Provision {
    /// The workload that is added.
    pub workload_id: String,
    /// The key under which the workload's port is persisted.
    pub registry_key: String,
    /// The port to register for the workload.
    pub registry_port: String,
    /// The container to create.
    pub container: ContainerSpec,
}

/// A [`Provision`] as plain text.
pub struct ProvisionView {
    pub workload_id: Seq<char>,
    pub registry_key: Seq<char>,
    pub registry_port: Seq<char>,
    pub container: ContainerSpecView,
}

impl View for Provision {
    type V = ProvisionView;

    open spec fn view(&self) -> ProvisionView {
        ProvisionView {
            workload_id: self.workload_id@,
            registry_key: self.registry_key@,
            registry_port: self.registry_port@,
            container: self.container@,
        }
    }
}

/// The port registered for a workload that is added without one.
pub open spec fn default_port() -> Seq<char> {
    "8080"@
}

/// The port that every container exposes.
pub open spec fn service_port() -> Seq<char> {
    "8080/tcp"@
}

/// The port to register for a workload added with `port`.
pub open spec fn registered_port(port: Option<Seq<char>>) -> Seq<char> {
    match port {
        Some(p) => p,
        None => default_port(),
    }
}

/// The environment entry that sets the variable `name` to `value`.
pub open spec fn env_entry(name: Seq<char>, value: Seq<char>) -> Seq<char> {
    name + "="@ + value
}

/// What adding the workload `workload_id` consists of.
pub open spec fn provision_of(
    workload_id: Seq<char>,
    port: Option<Seq<char>>,
    image: Seq<char>,
    secret_name: Seq<char>,
    secret_value: Seq<char>,
) -> ProvisionView {
    ProvisionView {
        workload_id,
        registry_key: key_of(workload_id),
        registry_port: registered_port(port),
        container: ContainerSpecView {
            name: workload_id,
            image,
            exposed_port: service_port(),
            host_ip: Seq::empty(),
            host_port: port,
            env: seq![env_entry(secret_name, secret_value)],
        },
    }
}

/// Plans the provisioning of a workload.
///
/// The workload is registered under `port`, or under the default port where
/// none is given, and its container is created from `image`, named after the
/// workload, with the secret `secret_value` in its environment under
/// `secret_name`. The registry entry is to be written before the runtime is
/// asked to create the container.
pub fn provision(
    workload_id: &str,
    port: Option<String>,
    image: &str,
    secret_name: &str,
    secret_value: &str,
) -> (plan: Provision)
    ensures
        plan@ == provision_of(workload_id@, chars_of(port), image@, secret_name@, secret_value@),
{
    let registry_port = match &port {
        Some(p) => p.clone(),
        None => String::from_str("8080"),
    };
    let mut env: Vec<String> = Vec::new();
    env.push(String::from_str(secret_name).concat("=").concat(secret_value));
    let container = ContainerSpec {
        name: String::from_str(workload_id),
        image: String::from_str(image),
        exposed_port: String::from_str("8080/tcp"),
        host_ip: String::new(),
        host_port: port,
        env,
    };
    proof {
        assert(container@.env =~= seq![env_entry(secret_name@, secret_value@)]);
    }
    Provision {
        workload_id: String::from_str(workload_id),
        registry_key: registry_key(workload_id),
        registry_port,
        container,
    }
}

/// The status line after the registry entry of a workload could not be
/// written.
pub open spec fn register_failed_message(workload_id: Seq<char>, reason: Seq<char>) -> Seq<char> {
    "Error registering container "@ + workload_id + ": "@ + reason
}

/// Decides how adding a workload goes on once the write of its registry
/// entry was tried.
///
/// `written` is how the write went: done, or the reason why the store failed
/// it. After a write that was done, the plan's container is to be created.
/// After a failed write nothing is created: the request ends with the status
/// line that is returned as the error.
pub fn confirm_registration(plan: Provision, written: &Result<(), String>) -> (next: Result<
    ContainerSpec,
    String,
>)
    ensures
        match *written {
            Ok(_) => next matches Ok(container) && container@ == plan@.container,
            Err(reason) => next matches Err(report) && report@ == register_failed_message(
                plan@.workload_id,
                reason@,
            ),
        },
{
    match written {
        Ok(_) => Ok(plan.container),
        Err(reason) => Err(
            String::from_str("Error registering container ").concat(
                plan.workload_id.as_str(),
            ).concat(": ").concat(reason.as_str()),
        ),
    }
}

/// The status line after the runtime created a container.
pub open spec fn created_message(workload_id: Seq<char>, image: Seq<char>) -> Seq<char> {
    "Created container "@ + workload_id + " from image "@ + image
}

/// The status line after the runtime failed to create a container.
pub open spec fn create_failed_message(workload_id: Seq<char>, reason: Seq<char>) -> Seq<char> {
    "Error creating container "@ + workload_id + ": "@ + reason
}

/// The status line after the runtime started a container.
pub open spec fn started_message(workload_id: Seq<char>) -> Seq<char> {
    "Started container "@ + workload_id
}

/// The status line after the runtime failed to start a container.
pub open spec fn start_failed_message(workload_id: Seq<char>, reason: Seq<char>) -> Seq<char> {
    "Error starting container "@ + workload_id + ": "@ + reason
}

/// The status line after the runtime stopped a container.
pub open spec fn stopped_message(workload_id: Seq<char>) -> Seq<char> {
    "Stopped container "@ + workload_id
}

/// The status line after the runtime failed to stop a container.
pub open spec fn stop_failed_message(workload_id: Seq<char>, reason: Seq<char>) -> Seq<char> {
    "Error stopping container "@ + workload_id + ": "@ + reason
}

/// The status line after the runtime deleted a container.
pub open spec fn removed_message(workload_id: Seq<char>) -> Seq<char> {
    "Removed container "@ + workload_id
}

/// The status line after the runtime failed to delete a container.
pub open spec fn remove_failed_message(workload_id: Seq<char>, reason: Seq<char>) -> Seq<char> {
    "Error removing container "@ + workload_id + ": "@ + reason
}

/// Reports how the runtime answered the request to create the container of
/// `workload_id` from `image`.
pub fn add_container(workload_id: &str, image: &str, outcome: &Result<(), String>) -> (report:
    String)
    ensures
        report@ == match *outcome {
            Ok(_) => created_message(workload_id@, image@),
            Err(reason) => create_failed_message(workload_id@, reason@),
        },
{
    match outcome {
        Ok(_) => String::from_str("Created container ").concat(workload_id).concat(
            " from image ",
        ).concat(image),
        Err(reason) => String::from_str("Error creating container ").concat(workload_id).concat(
            ": ",
        ).concat(reason.as_str()),
    }
}

/// Reports how the runtime answered the request to start the container of
/// `container_id`.
pub fn start(container_id: &str, outcome: &Result<(), String>) -> (report: String)
    ensures
        report@ == match *outcome {
            Ok(_) => started_message(container_id@),
            Err(reason) => start_failed_message(container_id@, reason@),
        },
{
    match outcome {
        Ok(_) => String::from_str("Started container ").concat(container_id),
        Err(reason) => String::from_str("Error starting container ").concat(container_id).concat(
            ": ",
        ).concat(reason.as_str()),
    }
}

/// Reports how the runtime answered the request to stop the container of
/// `container_id`.
pub fn stop(container_id: &str, outcome: &Result<(), String>) -> (report: String)
    ensures
        report@ == match *outcome {
            Ok(_) => stopped_message(container_id@),
            Err(reason) => stop_failed_message(container_id@, reason@),
        },
{
    match outcome {
        Ok(_) => String::from_str("Stopped container ").concat(container_id),
        Err(reason) => String::from_str("Error stopping container ").concat(container_id).concat(
            ": ",
        ).concat(reason.as_str()),
    }
}

/// Reports how the runtime answered the request to delete the container of
/// `container_id`.
pub fn remove_container(container_id: &str, outcome: &Result<(), String>) -> (report: String)
    ensures
        report@ == match *outcome {
            Ok(_) => removed_message(container_id@),
            Err(reason) => remove_failed_message(container_id@, reason@),
        },
{
    match outcome {
        Ok(_) => String::from_str("Removed container ").concat(container_id),
        Err(reason) => String::from_str("Error removing container ").concat(container_id).concat(
            ": ",
        ).concat(reason.as_str()),
    }
}

/// Once the registry entry of a provisioning plan is written, a GET for the
/// workload is forwarded to the port that was asked for, or to the default
/// port where none was.
pub proof fn lemma_provisioned_is_routable(
    ports: Ports,
    workload_id: Seq<char>,
    port: Option<Seq<char>>,
    image: Seq<char>,
    secret_name: Seq<char>,
    secret_value: Seq<char>,
    sub_path: Seq<char>,
    body: Seq<u8>,
)
    ensures
        ({
            let plan = provision_of(workload_id, port, image, secret_name, secret_value);
            let written = ports.insert(plan.workload_id, plan.registry_port);
            plan_of(port_of(written, workload_id), workload_id, sub_path, "GET"@, body)
                == (ProxyPlanView::Get { url: target_of(registered_port(port), sub_path) })
        }),
{
}

/// The same holds of the persisted table: once the plan's port is written
/// under the plan's key, a read under the key of the workload answers that
/// port, a GET for the workload is forwarded to it, and what is read for
/// every other workload is as it was.
pub proof fn lemma_provisioned_is_routable_through_table(
    table: Table,
    workload_id: Seq<char>,
    port: Option<Seq<char>>,
    image: Seq<char>,
    secret_name: Seq<char>,
    secret_value: Seq<char>,
    sub_path: Seq<char>,
    body: Seq<u8>,
    other: Seq<char>,
)
    ensures
        ({
            let plan = provision_of(workload_id, port, image, secret_name, secret_value);
            let written = table.insert(plan.registry_key, plan.registry_port);
            &&& stored_port_of(written, workload_id) == Some(registered_port(port))
            &&& plan_of(stored_port_of(written, workload_id), workload_id, sub_path, "GET"@, body)
                == (ProxyPlanView::Get { url: target_of(registered_port(port), sub_path) })
            &&& other != workload_id ==> stored_port_of(written, other) == stored_port_of(
                table,
                other,
            )
        }),
{
    lemma_table_write_then_read(table, workload_id, registered_port(port), other);
}

/// A failed registry write is never reported as a created container: its
/// status line does not begin as that of a created container does, whatever
/// the workload and the reason.
pub proof fn lemma_failed_write_is_not_reported_created(
    workload_id: Seq<char>,
    reason: Seq<char>,
    other_id: Seq<char>,
    image: Seq<char>,
)
    ensures
        !"Created container"@.is_prefix_of(register_failed_message(workload_id, reason)),
        register_failed_message(workload_id, reason) != created_message(other_id, image),
{
    reveal_strlit("Created container");
    reveal_strlit("Created container ");
    reveal_strlit("Error registering container ");
    let report = register_failed_message(workload_id, reason);
    assert(report[0] == 'E');
    assert(created_message(other_id, image)[0] == 'C');
    let prefix = "Created container"@;
    if prefix.is_prefix_of(report) {
        assert(report.subrange(0, prefix.len() as int)[0] == prefix[0]);
    }
}

} // verus!
