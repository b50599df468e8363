//! The runtime's container inventory, rendered as the JSON document that a
//! `list` request is answered with.

use bollard::models::ContainerSummary;
use vstd::prelude::*;
use vstd::string::StringExecFns;

verus! {

/// `bollard::models::ContainerSummary`, the runtime's description of one
/// container. Nothing in this library reads its fields.
#[verifier::external_type_specification]
#[verifier::external_body]
pub struct ExContainerSummary(bollard::models::ContainerSummary);

/// `serde_json::Error`, the reason why a value could not be written as JSON.
#[verifier::external_type_specification]
#[verifier::external_body]
pub struct ExJsonError(serde_json::Error);

/// Whether `text` has the outline of a JSON array of `items` objects: it
/// opens with a bracket and closes with one, it is long enough to hold two
/// braces for each object and a comma between neighbours, and with no object
/// it is `[]`.
pub open spec fn array_text(text: Seq<char>, items: nat) -> bool {
    &&& text.len() >= 3 * items + 1
    &&& text.first() == '['
    &&& text.last() == ']'
    &&& items == 0 ==> text == "[]"@
}

/// Calls `serde_json::to_string` on the inventory.
///
/// Claimed of it: the call succeeds, and a list is written as a JSON array,
/// an opening bracket, the items with a comma between neighbours and a
/// closing bracket, each description as an object in braces, so that an
/// empty list is written as `[]`. The call succeeds because it writes into
/// memory, and because a description holds only text, numbers, booleans,
/// lists, maps keyed by text, and enumerations that are written by name.
/// Nothing more is claimed of the text: the descriptions hold hash maps,
/// whose entries are written in an order that is not fixed.
#[verifier::external_body]
fn inventory_json(containers: &Vec<ContainerSummary>) -> (serialized: Result<
    String,
    serde_json::Error,
>)
    ensures
        serialized matches Ok(json) ==> array_text(json@, containers@.len()),
        serialized is Ok,
{
    serde_json::to_string(containers)
}

/// The answer to a `list` request whose inventory could not be written as
/// JSON.
pub open spec fn unserializable_message() -> Seq<char> {
    "Error serializing container IDs"@
}

/// The answer to a `list` request that the runtime failed.
pub open spec fn list_failed_message(reason: Seq<char>) -> Seq<char> {
    "Error listing containers: "@ + reason
}

/// The document that answers a `list` request, given the outcome of writing
/// the inventory as JSON: the JSON text itself, or a fixed message where there
/// is none.
pub fn inventory_document(serialized: Result<String, serde_json::Error>) -> (document: String)
    ensures
        document@ == match serialized {
            Ok(json) => json@,
            Err(_) => unserializable_message(),
        },
{
    match serialized {
        Ok(json) => json,
        Err(_) => String::from_str("Error serializing container IDs"),
    }
}

/// Reports how the runtime answered the request to list its containers.
///
/// A failure is reported with the runtime's reason, and nothing else is. An
/// inventory is answered with its JSON form: a JSON array with one object for
/// each container, `[]` for an empty inventory.
pub fn list_containers(outcome: Result<Vec<ContainerSummary>, String>) -> (report: String)
    ensures
        outcome matches Err(reason) ==> report@ == list_failed_message(reason@),
        outcome matches Ok(containers) ==> array_text(report@, containers@.len()),
        outcome is Ok ==> !"Error listing containers: "@.is_prefix_of(report@),
{
    match outcome {
        Ok(containers) => {
            let document = inventory_document(inventory_json(&containers));
            proof {
                reveal_strlit("Error listing containers: ");
                let prefix = "Error listing containers: "@;
                if prefix.is_prefix_of(document@) {
                    assert(document@.subrange(0, prefix.len() as int)[0] == prefix[0]);
                }
            }
            document
        },
        Err(reason) => String::from_str("Error listing containers: ").concat(reason.as_str()),
    }
}

} // verus!
