//! The endpoint registry: which host port serves which workload.
//!
//! A registry is viewed as a finite map from workload id to port. Writing an id
//! that is already present replaces its port; nothing else ever changes an
//! entry.

use crate::text::chars_of;
use vstd::prelude::*;
use vstd::string::StringExecFns;

verus! {

/// The contents of a registry: workload id to port.
pub type Ports = Map<Seq<char>, Seq<char>>;

/// The contents of the persisted table: key to port.
pub type Table = Map<Seq<char>, Seq<char>>;

/// The persisted key of a workload's port: the workload id followed by `/port`.
pub open spec fn key_of(workload_id: Seq<char>) -> Seq<char> {
    workload_id + "/port"@
}

/// What a point lookup answers on the contents `ports`.
pub open spec fn port_of(ports: Ports, workload_id: Seq<char>) -> Option<Seq<char>> {
    if ports.dom().contains(workload_id) {
        Some(ports[workload_id])
    } else {
        None
    }
}

/// What a read of the persisted table answers for `workload_id`: what the
/// table holds under the key of the workload.
pub open spec fn stored_port_of(table: Table, workload_id: Seq<char>) -> Option<Seq<char>> {
    port_of(table, key_of(workload_id))
}

/// Builds the key under which the port of `workload_id` is persisted.
pub fn registry_key(workload_id: &str) -> (key: String)
    ensures
        key@ == key_of(workload_id@),
{
    String::from_str(workload_id).concat("/port")
}

/// One registered endpoint.
struct Endpoint {
    workload_id: String,
    port: String,
}

/// Whether some entry of `entries` belongs to `workload_id`.
spec fn registered(entries: Seq<Endpoint>, workload_id: Seq<char>) -> bool {
    exists|i: int| 0 <= i < entries.len() && #[trigger] entries[i].workload_id@ == workload_id
}

/// The position of the entry of `workload_id`, where there is one.
spec fn position(entries: Seq<Endpoint>, workload_id: Seq<char>) -> int {
    choose|i: int| 0 <= i < entries.len() && #[trigger] entries[i].workload_id@ == workload_id
}

/// No workload id occurs in two entries.
spec fn distinct(entries: Seq<Endpoint>) -> bool {
    forall|i: int, j: int|
        0 <= i < j < entries.len() ==> #[trigger] entries[i].workload_id@
            != #[trigger] entries[j].workload_id@
}

/// The map that a list of entries stands for.
spec fn ports_of(entries: Seq<Endpoint>) -> Ports {
    Map::new(
        |id: Seq<char>| registered(entries, id),
        |id: Seq<char>| entries[position(entries, id)].port@,
    )
}

/// The ids of the entries, in order.
spec fn ids_of(entries: Seq<Endpoint>) -> Seq<Seq<char>> {
    Seq::new(entries.len(), |i: int| entries[i].workload_id@)
}

/// In a list without repeated ids, the entry at `i` is the one found for its id.
proof fn lemma_position(entries: Seq<Endpoint>, i: int)
    requires
        distinct(entries),
        0 <= i < entries.len(),
    ensures
        registered(entries, entries[i].workload_id@),
        position(entries, entries[i].workload_id@) == i,
        ports_of(entries).dom().contains(entries[i].workload_id@),
        ports_of(entries)[entries[i].workload_id@] == entries[i].port@,
{
    let id = entries[i].workload_id@;
    let p = position(entries, id);
    assert(0 <= p < entries.len() && entries[p].workload_id@ == id);
    if p < i {
        assert(entries[p].workload_id@ != entries[i].workload_id@);
    } else if i < p {
        assert(entries[i].workload_id@ != entries[p].workload_id@);
    }
}

/// The domain of the map is the set of ids, and has as many members as there
/// are entries.
proof fn lemma_size(entries: Seq<Endpoint>)
    requires
        distinct(entries),
    ensures
        ports_of(entries).dom().finite(),
        ports_of(entries).dom().len() == entries.len(),
{
    let ids = ids_of(entries);
    assert(ids.no_duplicates()) by {
        assert forall|i: int, j: int| 0 <= i < ids.len() && 0 <= j < ids.len() && i != j implies ids[i]
            != ids[j] by {
            if i < j {
                assert(entries[i].workload_id@ != entries[j].workload_id@);
            } else {
                assert(entries[j].workload_id@ != entries[i].workload_id@);
            }
        }
    }
    assert(ports_of(entries).dom() =~= ids.to_set()) by {
        assert forall|id: Seq<char>| ports_of(entries).dom().contains(id) implies ids.to_set().contains(
            id,
        ) by {
            let p = position(entries, id);
            assert(ids[p] == id);
        }
        assert forall|id: Seq<char>| ids.to_set().contains(id) implies ports_of(
            entries,
        ).dom().contains(id) by {
            let p = choose|p: int| 0 <= p < ids.len() && ids[p] == id;
            assert(entries[p].workload_id@ == id);
        }
    }
    ids.unique_seq_to_set();
}

/// The position of the entry of `workload_id` in `entries`, where it has one.
fn find(entries: &Vec<Endpoint>, workload_id: &str) -> (found: Option<usize>)
    ensures
        match found {
            Some(i) => i < entries@.len() && entries@[i as int].workload_id@ == workload_id@,
            None => !registered(entries@, workload_id@),
        },
{
    let id = String::from_str(workload_id);
    let n = entries.len();
    let mut i: usize = 0;
    while i < n
        invariant
            i <= n,
            n == entries@.len(),
            id@ == workload_id@,
            forall|j: int| 0 <= j < i ==> (#[trigger] entries@[j].workload_id@) != id@,
        decreases n - i,
    {
        if entries[i].workload_id == id {
            return Some(i);
        }
        i += 1;
    }
    None
}

/// The registry of endpoints, held in memory.
pub struct Registry {
    entries: Vec<Endpoint>,
}

impl View for Registry {
    type V = Ports;

    closed spec fn view(&self) -> Ports {
        ports_of(self.entries@)
    }
}

impl Registry {
    #[verifier::type_invariant]
    spec fn well_formed(self) -> bool {
        distinct(self.entries@)
    }

    /// A registry without entries.
    pub fn new() -> (registry: Registry)
        ensures
            registry@ == Ports::empty(),
    {
        let registry = Registry { entries: Vec::new() };
        assert(registry@ =~= Ports::empty());
        registry
    }

    /// The number of registered workloads.
    pub fn len(&self) -> (n: usize)
        ensures
            self@.dom().finite(),
            n == self@.len(),
    {
        proof {
            use_type_invariant(self);
            lemma_size(self.entries@);
        }
        self.entries.len()
    }

    /// Looks up the port registered for `workload_id`.
    pub fn lookup(&self, workload_id: &str) -> (port: Option<String>)
        ensures
            chars_of(port) == port_of(self@, workload_id@),
    {
        proof {
            use_type_invariant(self);
        }
        match find(&self.entries, workload_id) {
            Some(i) => {
                proof {
                    lemma_position(self.entries@, i as int);
                }
                Some(self.entries[i].port.clone())
            },
            None => None,
        }
    }

    /// Registers `port` for `workload_id`, replacing the port of an id that is
    /// already present.
    pub fn upsert(&mut self, workload_id: &str, port: &str)
        ensures
            final(self)@ == old(self)@.insert(workload_id@, port@),
    {
        proof {
            use_type_invariant(&*self);
        }
        let mut entries: Vec<Endpoint> = Vec::new();
        core::mem::swap(&mut self.entries, &mut entries);
        let ghost before = entries@;
        let entry = Endpoint {
            workload_id: String::from_str(workload_id),
            port: String::from_str(port),
        };
        match find(&entries, workload_id) {
            Some(i) => {
                entries.set(i, entry);
                proof {
                    lemma_replace(before, entries@, i as int);
                }
            },
            None => {
                entries.push(entry);
                proof {
                    lemma_append(before, entries@);
                }
            },
        }
        self.entries = entries;
    }

    /// Takes the entry of `workload_id` out of the registry and says whether
    /// there was one. Stopping or deleting a container does not do this: an
    /// entry stays until its owner deregisters it.
    pub fn deregister(&mut self, workload_id: &str) -> (found: bool)
        ensures
            found == old(self)@.dom().contains(workload_id@),
            final(self)@ == old(self)@.remove(workload_id@),
    {
        proof {
            use_type_invariant(&*self);
        }
        let mut entries: Vec<Endpoint> = Vec::new();
        core::mem::swap(&mut self.entries, &mut entries);
        let ghost before = entries@;
        let found = match find(&entries, workload_id) {
            Some(i) => {
                entries.remove(i);
                proof {
                    lemma_remove(before, i as int);
                }
                true
            },
            None => {
                proof {
                    assert(ports_of(before).remove(workload_id@) =~= ports_of(before));
                }
                false
            },
        };
        self.entries = entries;
        found
    }
}

/// Replacing the port of the entry at `i` writes that port in the map and
/// keeps the ids distinct.
proof fn lemma_replace(before: Seq<Endpoint>, after: Seq<Endpoint>, i: int)
    requires
        distinct(before),
        0 <= i < before.len(),
        after == before.update(i, after[i]),
        after[i].workload_id@ == before[i].workload_id@,
    ensures
        distinct(after),
        ports_of(after) == ports_of(before).insert(after[i].workload_id@, after[i].port@),
{
    assert forall|a: int, b: int| 0 <= a < b < after.len() implies after[a].workload_id@
        != after[b].workload_id@ by {
        assert(before[a].workload_id@ != before[b].workload_id@);
    }
    let id = after[i].workload_id@;
    let target = ports_of(before).insert(id, after[i].port@);
    assert forall|k: Seq<char>| ports_of(after).dom().contains(k) <==> target.dom().contains(k) by {
        if registered(after, k) {
            let p = position(after, k);
            assert(before[p].workload_id@ == k);
        }
        if registered(before, k) {
            let p = position(before, k);
            assert(after[p].workload_id@ == k);
        }
        lemma_position(after, i);
    }
    assert forall|k: Seq<char>| ports_of(after).dom().contains(k) implies ports_of(after)[k]
        == target[k] by {
        let p = position(after, k);
        lemma_position(after, p);
        if p != i {
            lemma_position(before, p);
        }
    }
    assert(ports_of(after) =~= target);
}

/// Appending an entry with an id that no entry has writes its port in the map
/// and keeps the ids distinct.
proof fn lemma_append(before: Seq<Endpoint>, after: Seq<Endpoint>)
    requires
        distinct(before),
        after == before.push(after.last()),
        !registered(before, after.last().workload_id@),
    ensures
        distinct(after),
        ports_of(after) == ports_of(before).insert(after.last().workload_id@, after.last().port@),
{
    let last = before.len() as int;
    assert forall|a: int, b: int| 0 <= a < b < after.len() implies after[a].workload_id@
        != after[b].workload_id@ by {
        if b < last {
            assert(before[a].workload_id@ != before[b].workload_id@);
        } else {
            assert(before[a].workload_id@ != after.last().workload_id@);
        }
    }
    let id = after[last].workload_id@;
    let target = ports_of(before).insert(id, after[last].port@);
    assert forall|k: Seq<char>| ports_of(after).dom().contains(k) <==> target.dom().contains(k) by {
        if registered(after, k) {
            let p = position(after, k);
            if p < last {
                assert(before[p].workload_id@ == k);
            }
        }
        if registered(before, k) {
            let p = position(before, k);
            assert(after[p].workload_id@ == k);
        }
        lemma_position(after, last);
    }
    assert forall|k: Seq<char>| ports_of(after).dom().contains(k) implies ports_of(after)[k]
        == target[k] by {
        let p = position(after, k);
        lemma_position(after, p);
        if p != last {
            lemma_position(before, p);
        }
    }
    assert(ports_of(after) =~= target);
}

/// Taking out the entry at `i` takes its id out of the map and keeps the ids
/// distinct.
proof fn lemma_remove(before: Seq<Endpoint>, i: int)
    requires
        distinct(before),
        0 <= i < before.len(),
    ensures
        distinct(before.remove(i)),
        ports_of(before).dom().contains(before[i].workload_id@),
        ports_of(before.remove(i)) == ports_of(before).remove(before[i].workload_id@),
{
    let after = before.remove(i);
    let id = before[i].workload_id@;
    assert forall|a: int, b: int| 0 <= a < b < after.len() implies after[a].workload_id@
        != after[b].workload_id@ by {
        let a0 = if a < i { a } else { a + 1 };
        let b0 = if b < i { b } else { b + 1 };
        assert(before[a0].workload_id@ != before[b0].workload_id@);
    }
    lemma_position(before, i);
    let target = ports_of(before).remove(id);
    assert forall|k: Seq<char>| ports_of(after).dom().contains(k) <==> target.dom().contains(k) by {
        if registered(after, k) {
            let p = position(after, k);
            let p0 = if p < i { p } else { p + 1 };
            assert(before[p0].workload_id@ == k);
            lemma_position(before, p0);
        }
        if registered(before, k) && k != id {
            let p = position(before, k);
            let p1 = if p < i { p } else { p - 1 };
            assert(after[p1].workload_id@ == k);
        }
    }
    assert forall|k: Seq<char>| ports_of(after).dom().contains(k) implies ports_of(after)[k]
        == target[k] by {
        let p = position(after, k);
        let p0 = if p < i { p } else { p + 1 };
        lemma_position(after, p);
        lemma_position(before, p0);
    }
    assert(ports_of(after) =~= target);
}

/// Different workloads have different keys, so that a write under the key of
/// one never lands on the entry of another.
pub proof fn lemma_key_injective(one: Seq<char>, other: Seq<char>)
    requires
        key_of(one) == key_of(other),
    ensures
        one == other,
{
    let suffix = "/port"@;
    assert(one.len() == other.len()) by {
        assert((one + suffix).len() == (other + suffix).len());
    }
    assert(one =~= other) by {
        assert forall|i: int| 0 <= i < one.len() implies one[i] == other[i] by {
            assert((one + suffix)[i] == (other + suffix)[i]);
        }
    }
}

/// The persisted table answers for workloads as a registry does: a write
/// under the key of a workload is what a read for that workload then
/// answers, and it leaves what is read for every other workload as it was.
pub proof fn lemma_table_write_then_read(
    table: Table,
    workload_id: Seq<char>,
    port: Seq<char>,
    other: Seq<char>,
)
    ensures
        stored_port_of(table.insert(key_of(workload_id), port), workload_id) == Some(port),
        other != workload_id ==> stored_port_of(table.insert(key_of(workload_id), port), other)
            == stored_port_of(table, other),
{
    if other != workload_id && key_of(other) == key_of(workload_id) {
        lemma_key_injective(other, workload_id);
    }
}

/// Registering the same port for the same id twice is the same as
/// registering it once, and a lookup then answers that port.
pub proof fn lemma_upsert_idempotent(ports: Ports, workload_id: Seq<char>, port: Seq<char>)
    ensures
        ports.insert(workload_id, port).insert(workload_id, port) == ports.insert(workload_id, port),
        port_of(ports.insert(workload_id, port).insert(workload_id, port), workload_id) == Some(port),
{
    assert(ports.insert(workload_id, port).insert(workload_id, port) =~= ports.insert(
        workload_id,
        port,
    ));
}

/// The last write wins: registering `second` for an id that holds `first`
/// leaves the registry as if only `second` had been registered, a lookup
/// answers `second`, and the id still has one entry, so that the registry
/// has the same ids, and as many of them, as after the first write.
pub proof fn lemma_upsert_overwrites(
    ports: Ports,
    workload_id: Seq<char>,
    first: Seq<char>,
    second: Seq<char>,
)
    ensures
        ports.insert(workload_id, first).insert(workload_id, second) == ports.insert(
            workload_id,
            second,
        ),
        port_of(ports.insert(workload_id, first).insert(workload_id, second), workload_id) == Some(
            second,
        ),
        ports.insert(workload_id, first).insert(workload_id, second).dom() == ports.insert(
            workload_id,
            first,
        ).dom(),
        ports.insert(workload_id, first).insert(workload_id, second).len() == ports.insert(
            workload_id,
            first,
        ).len(),
{
    assert(ports.insert(workload_id, first).insert(workload_id, second) =~= ports.insert(
        workload_id,
        second,
    ));
    assert(ports.insert(workload_id, first).insert(workload_id, second).dom() =~= ports.insert(
        workload_id,
        first,
    ).dom());
}

/// A write changes the entry of its own id only.
pub proof fn lemma_upsert_leaves_others(
    ports: Ports,
    workload_id: Seq<char>,
    port: Seq<char>,
    other: Seq<char>,
)
    requires
        other != workload_id,
    ensures
        port_of(ports.insert(workload_id, port), other) == port_of(ports, other),
{
}

/// The registry after the writes `writes`, each an id and a port, made one
/// after the other on the contents `ports`.
pub open spec fn replay(ports: Ports, writes: Seq<(Seq<char>, Seq<char>)>) -> Ports
    decreases writes.len(),
{
    if writes.len() == 0 {
        ports
    } else {
        replay(ports, writes.drop_last()).insert(writes.last().0, writes.last().1)
    }
}

/// An id that no write names holds after the writes what it held before
/// them.
pub proof fn lemma_unwritten_unchanged(
    ports: Ports,
    writes: Seq<(Seq<char>, Seq<char>)>,
    workload_id: Seq<char>,
)
    requires
        forall|i: int| 0 <= i < writes.len() ==> (#[trigger] writes[i]).0 != workload_id,
    ensures
        port_of(replay(ports, writes), workload_id) == port_of(ports, workload_id),
    decreases writes.len(),
{
    if writes.len() > 0 {
        let earlier = writes.drop_last();
        assert forall|i: int| 0 <= i < earlier.len() implies (#[trigger] earlier[i]).0
            != workload_id by {
            assert(earlier[i] == writes[i]);
        }
        lemma_unwritten_unchanged(ports, earlier, workload_id);
        assert(writes.last() == writes[writes.len() - 1]);
    }
}

/// An id that was never written to a registry that started empty is absent
/// from it.
pub proof fn lemma_never_written_is_absent(
    writes: Seq<(Seq<char>, Seq<char>)>,
    workload_id: Seq<char>,
)
    requires
        forall|i: int| 0 <= i < writes.len() ==> (#[trigger] writes[i]).0 != workload_id,
    ensures
        port_of(replay(Ports::empty(), writes), workload_id) is None,
{
    lemma_unwritten_unchanged(Ports::empty(), writes, workload_id);
}

/// No update is lost: after any sequence of writes, in whatever order they
/// were made, an id holds the port of the last write that names it.
pub proof fn lemma_last_write_wins(ports: Ports, writes: Seq<(Seq<char>, Seq<char>)>, last: int)
    requires
        0 <= last < writes.len(),
        forall|j: int| last < j < writes.len() ==> (#[trigger] writes[j]).0 != writes[last].0,
    ensures
        port_of(replay(ports, writes), writes[last].0) == Some(writes[last].1),
    decreases writes.len(),
{
    if last < writes.len() - 1 {
        let earlier = writes.drop_last();
        assert(earlier[last] == writes[last]);
        assert forall|j: int| last < j < earlier.len() implies (#[trigger] earlier[j]).0
            != earlier[last].0 by {
            assert(earlier[j] == writes[j]);
        }
        lemma_last_write_wins(ports, earlier, last);
        assert(writes.last() == writes[writes.len() - 1]);
    }
}

/// Writes to distinct ids do not disturb each other: in whatever order they
/// are made, each id holds the port that was written for it.
pub proof fn lemma_distinct_writes_all_kept(ports: Ports, writes: Seq<(Seq<char>, Seq<char>)>)
    requires
        forall|i: int, j: int|
            0 <= i < j < writes.len() ==> (#[trigger] writes[i]).0 != (#[trigger] writes[j]).0,
    ensures
        forall|i: int|
            0 <= i < writes.len() ==> port_of(replay(ports, writes), (#[trigger] writes[i]).0)
                == Some(writes[i].1),
{
    assert forall|i: int| 0 <= i < writes.len() implies port_of(
        replay(ports, writes),
        (#[trigger] writes[i]).0,
    ) == Some(writes[i].1) by {
        lemma_last_write_wins(ports, writes, i);
    }
}

/// Whether `order` names each of the positions `0..n` once.
pub open spec fn is_order(order: Seq<int>, n: nat) -> bool {
    &&& order.len() == n
    &&& order.no_duplicates()
    &&& forall|k: int| 0 <= k < n ==> 0 <= #[trigger] order[k] < n
}

/// The writes `writes`, made in the order `order`.
pub open spec fn reordered(writes: Seq<(Seq<char>, Seq<char>)>, order: Seq<int>) -> Seq<
    (Seq<char>, Seq<char>),
> {
    Seq::new(order.len(), |k: int| writes[order[k]])
}

/// An order names every position.
proof fn lemma_order_reaches(order: Seq<int>, n: nat, i: int)
    requires
        is_order(order, n),
        0 <= i < n,
    ensures
        exists|k: int| 0 <= k < n && #[trigger] order[k] == i,
{
    let range = Set::new(|x: int| 0 <= x < n);
    vstd::set_lib::lemma_int_range(0, n as int);
    assert(range =~= vstd::set_lib::set_int_range(0, n as int));
    order.unique_seq_to_set();
    assert(order.to_set().subset_of(range)) by {
        assert forall|x: int| order.to_set().contains(x) implies range.contains(x) by {
            let k = choose|k: int| 0 <= k < order.len() && order[k] == x;
            assert(0 <= order[k] < n);
        }
    }
    vstd::set_lib::lemma_subset_equality(order.to_set(), range);
    assert(order.to_set().contains(i));
}

/// With writes to distinct ids the order in which they are made does not
/// matter: every order leaves the same registry.
pub proof fn lemma_order_is_immaterial(
    ports: Ports,
    writes: Seq<(Seq<char>, Seq<char>)>,
    order: Seq<int>,
)
    requires
        forall|i: int, j: int|
            0 <= i < j < writes.len() ==> (#[trigger] writes[i]).0 != (#[trigger] writes[j]).0,
        is_order(order, writes.len()),
    ensures
        replay(ports, reordered(writes, order)) == replay(ports, writes),
{
    let shuffled = reordered(writes, order);
    assert forall|a: int, b: int| 0 <= a < b < shuffled.len() implies (#[trigger] shuffled[a]).0 != (
    #[trigger] shuffled[b]).0 by {
        let i = order[a];
        let j = order[b];
        assert(i != j);
        if i < j {
            assert(writes[i].0 != writes[j].0);
        } else {
            assert(writes[j].0 != writes[i].0);
        }
    }
    lemma_distinct_writes_all_kept(ports, writes);
    lemma_distinct_writes_all_kept(ports, shuffled);
    assert forall|id: Seq<char>|
        port_of(replay(ports, shuffled), id) == port_of(replay(ports, writes), id) by {
        if exists|i: int| 0 <= i < writes.len() && (#[trigger] writes[i]).0 == id {
            let i = choose|i: int| 0 <= i < writes.len() && (#[trigger] writes[i]).0 == id;
            lemma_order_reaches(order, writes.len(), i);
            let k = choose|k: int| 0 <= k < writes.len() && #[trigger] order[k] == i;
            assert(shuffled[k] == writes[i]);
        } else {
            assert forall|k: int| 0 <= k < shuffled.len() implies (#[trigger] shuffled[k]).0
                != id by {
                assert(shuffled[k] == writes[order[k]]);
            }
            lemma_unwritten_unchanged(ports, writes, id);
            lemma_unwritten_unchanged(ports, shuffled, id);
        }
    }
    assert(replay(ports, shuffled) =~= replay(ports, writes)) by {
        assert forall|id: Seq<char>|
            replay(ports, shuffled).dom().contains(id) == replay(ports, writes).dom().contains(
                id,
            ) by {
            assert(port_of(replay(ports, shuffled), id) == port_of(replay(ports, writes), id));
        }
        assert forall|id: Seq<char>| replay(ports, shuffled).dom().contains(id) implies replay(
            ports,
            shuffled,
        )[id] == replay(ports, writes)[id] by {
            assert(port_of(replay(ports, shuffled), id) == port_of(replay(ports, writes), id));
        }
    }
}

/// Two writes to different ids give the same registry in either order.
pub proof fn lemma_writes_commute(
    ports: Ports,
    one: Seq<char>,
    port_one: Seq<char>,
    other: Seq<char>,
    port_other: Seq<char>,
)
    requires
        one != other,
    ensures
        ports.insert(one, port_one).insert(other, port_other) == ports.insert(
            other,
            port_other,
        ).insert(one, port_one),
{
    assert(ports.insert(one, port_one).insert(other, port_other) =~= ports.insert(
        other,
        port_other,
    ).insert(one, port_one));
}

} // verus!
