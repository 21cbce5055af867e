//! What holds of the lifecycle state machine on every registry, stated over
//! the same functions as the contracts of the operations.

use crate::api::{Error, Operation, VmStatus};
use crate::lifecycle::{
    admission, create_outcome, outcome, plan, registers, registry_after_create,
    registry_after_finish, registry_with_new,
};
use crate::registry::{
    is_next_port, port_in_use, ports_distinct, ContainerStateView, RegistryView, DEFAULT_MIN_PORT,
};
use vstd::prelude::*;

verus! {

/// The first port of an empty registry is the floor.
pub proof fn empty_registry_starts_at_floor()
    ensures
        is_next_port(Map::<Seq<char>, ContainerStateView>::empty(), DEFAULT_MIN_PORT as int),
        ports_distinct(Map::<Seq<char>, ContainerStateView>::empty()),
{
}

/// A registry has at most one next port.
pub proof fn next_port_is_unique(m: RegistryView, p: int, q: int)
    requires
        is_next_port(m, p),
        is_next_port(m, q),
    ensures
        p == q,
{
    if p < q {
        let k = choose|k: Seq<char>| m.contains_key(k) && (#[trigger] m[k]).vsock_port + 1 == q;
        assert(m[k].vsock_port < p);
    } else if q < p {
        let k = choose|k: Seq<char>| m.contains_key(k) && (#[trigger] m[k]).vsock_port + 1 == p;
        assert(m[k].vsock_port < q);
    }
}

/// A new container on the next port shares its port with no other container,
/// and its port is higher than every port in use before.
pub proof fn create_keeps_ports_distinct(
    m: RegistryView,
    id: Seq<char>,
    bundle: Seq<char>,
    port: u32,
)
    requires
        ports_distinct(m),
        !m.contains_key(id),
        is_next_port(m, port as int),
    ensures
        ports_distinct(registry_with_new(m, id, bundle, port)),
        forall|k: Seq<char>| m.contains_key(k) ==> (#[trigger] m[k]).vsock_port < port,
{
    let after = registry_with_new(m, id, bundle, port);
    assert forall|a: Seq<char>, b: Seq<char>|
        #![trigger after[a], after[b]]
        after.contains_key(a) && after.contains_key(b) && a != b implies after[a].vsock_port
        != after[b].vsock_port by {
        if a == id {
            assert(m[b].vsock_port < port);
        } else if b == id {
            assert(m[a].vsock_port < port);
        } else {
            assert(m[a].vsock_port != m[b].vsock_port);
        }
    }
}

/// Finishing an operation, whatever it is and however it ends, leaves no two
/// containers on one port.
pub proof fn finish_keeps_ports_distinct(
    m: RegistryView,
    operation: Operation,
    id: Seq<char>,
    delivered: bool,
    acknowledged: Option<u32>,
)
    requires
        ports_distinct(m),
    ensures
        ports_distinct(registry_after_finish(m, operation, id, delivered)),
        ports_distinct(registry_after_create(m, id, acknowledged)),
{
    let after = registry_after_finish(m, operation, id, delivered);
    assert forall|a: Seq<char>, b: Seq<char>|
        #![trigger after[a], after[b]]
        after.contains_key(a) && after.contains_key(b) && a != b implies after[a].vsock_port
        != after[b].vsock_port by {
        assert(m.contains_key(a) && m.contains_key(b));
        assert(m[a].vsock_port != m[b].vsock_port);
    }
    let created = registry_after_create(m, id, acknowledged);
    assert forall|a: Seq<char>, b: Seq<char>|
        #![trigger created[a], created[b]]
        created.contains_key(a) && created.contains_key(b) && a != b implies created[a].vsock_port
        != created[b].vsock_port by {
        assert(m.contains_key(a) && m.contains_key(b));
        if create_outcome(m, id, acknowledged) is Ok && (a == id || b == id) {
            let other = if a == id { b } else { a };
            assert(m.remove(id).contains_key(other));
            assert(m.remove(id)[other].vsock_port != acknowledged->Some_0);
        } else {
            assert(m[a].vsock_port != m[b].vsock_port);
        }
    }
}

/// `after` is the registry that the finish of a create leaves.
pub open spec fn by_finish_create(
    before: RegistryView,
    id: Seq<char>,
    acknowledged: Option<u32>,
    after: RegistryView,
) -> bool {
    after == registry_after_create(before, id, acknowledged)
}

/// `after` is the registry that the finish of another operation leaves.
pub open spec fn by_finish(
    before: RegistryView,
    operation: Operation,
    id: Seq<char>,
    delivered: bool,
    after: RegistryView,
) -> bool {
    after == registry_after_finish(before, operation, id, delivered)
}

/// One call of the library changes the registry from `before` to `after`, or
/// leaves it as it is.
pub open spec fn transition(before: RegistryView, after: RegistryView) -> bool {
    ||| after == before
    ||| exists|id: Seq<char>, bundle: Seq<char>, port: u32|
        #[trigger] registers(before, id, bundle, port, after)
    ||| exists|id: Seq<char>, acknowledged: Option<u32>|
        #[trigger] by_finish_create(before, id, acknowledged, after)
    ||| exists|operation: Operation, id: Seq<char>, delivered: bool|
        #[trigger] by_finish(before, operation, id, delivered, after)
}

/// However the calls of any number of requests follow one another, no two
/// containers ever share a port: what one call leaves is what the next one
/// finds, and that is all that is asked of their order.
pub proof fn ports_stay_distinct(states: Seq<RegistryView>)
    requires
        states.len() > 0,
        ports_distinct(states[0]),
        forall|i: int|
            0 <= i < states.len() - 1 ==> transition(#[trigger] states[i], states[i + 1]),
    ensures
        forall|i: int| 0 <= i < states.len() ==> ports_distinct(#[trigger] states[i]),
    decreases states.len(),
{
    if states.len() > 1 {
        let n = states.len() - 1;
        let earlier = states.drop_last();
        assert forall|i: int| 0 <= i < earlier.len() - 1 implies transition(
            #[trigger] earlier[i],
            earlier[i + 1],
        ) by {
            assert(transition(states[i], states[i + 1]));
        }
        ports_stay_distinct(earlier);
        assert(ports_distinct(earlier[n - 1]));
        let before = states[n - 1];
        let after = states[n];
        assert(transition(before, after));
        if after == before {
        } else if exists|id: Seq<char>, bundle: Seq<char>, port: u32|
            #[trigger] registers(before, id, bundle, port, after) {
            let (id, bundle, port) = choose|id: Seq<char>, bundle: Seq<char>, port: u32|
                #[trigger] registers(before, id, bundle, port, after);
            create_keeps_ports_distinct(before, id, bundle, port);
        } else if exists|id: Seq<char>, acknowledged: Option<u32>|
            #[trigger] by_finish_create(before, id, acknowledged, after) {
            let (id, acknowledged) = choose|id: Seq<char>, acknowledged: Option<u32>|
                #[trigger] by_finish_create(before, id, acknowledged, after);
            finish_keeps_ports_distinct(before, Operation::State, id, true, acknowledged);
        } else {
            let (operation, id, delivered) = choose|
                operation: Operation,
                id: Seq<char>,
                delivered: bool,
            | #[trigger] by_finish(before, operation, id, delivered, after);
            finish_keeps_ports_distinct(before, operation, id, delivered, None);
        }
        assert forall|i: int| 0 <= i < states.len() implies ports_distinct(
            #[trigger] states[i],
        ) by {
            if i < n {
                assert(ports_distinct(earlier[i]));
            }
        }
    }
}

/// One create in a run of creates: a container that is registered already is
/// turned down and the registry stays as it is; any other is registered on
/// the next port.
pub open spec fn create_step(
    before: RegistryView,
    id: Seq<char>,
    bundle: Seq<char>,
    port: u32,
    after: RegistryView,
) -> bool {
    if before.contains_key(id) {
        after == before
    } else {
        registers(before, id, bundle, port, after)
    }
}

/// In any run of creates, no two containers ever share a port, and each
/// container that is registered gets a higher port than every container
/// registered earlier in the run. `states[i]` is the registry before the
/// create of `ids[i]` and `states[i + 1]` the registry after it; `ports[i]`
/// is the port of that create where it registers the container.
pub proof fn create_run_ports(
    states: Seq<RegistryView>,
    ids: Seq<Seq<char>>,
    bundles: Seq<Seq<char>>,
    ports: Seq<u32>,
)
    requires
        states.len() == ids.len() + 1,
        bundles.len() == ids.len(),
        ports.len() == ids.len(),
        ports_distinct(states[0]),
        forall|i: int|
            0 <= i < ids.len() ==> create_step(
                #[trigger] states[i],
                ids[i],
                bundles[i],
                ports[i],
                states[i + 1],
            ),
    ensures
        forall|i: int| 0 <= i < states.len() ==> ports_distinct(#[trigger] states[i]),
        forall|i: int, j: int|
            0 <= i < j < ids.len() && !states[i].contains_key(ids[i]) && !states[j].contains_key(
                ids[j],
            ) ==> #[trigger] ports[i] < #[trigger] ports[j],
    decreases ids.len(),
{
    if ids.len() > 0 {
        let n = ids.len() - 1;
        assert forall|i: int| 0 <= i < n implies create_step(
            #[trigger] states.drop_last()[i],
            ids.drop_last()[i],
            bundles.drop_last()[i],
            ports.drop_last()[i],
            states.drop_last()[i + 1],
        ) by {
            assert(create_step(states[i], ids[i], bundles[i], ports[i], states[i + 1]));
        }
        create_run_ports(
            states.drop_last(),
            ids.drop_last(),
            bundles.drop_last(),
            ports.drop_last(),
        );
        assert(ports_distinct(states.drop_last()[n]));
        assert(create_step(states[n], ids[n], bundles[n], ports[n], states[n + 1]));
        if !states[n].contains_key(ids[n]) {
            create_keeps_ports_distinct(states[n], ids[n], bundles[n], ports[n]);
        }
        assert forall|i: int| 0 <= i < states.len() implies ports_distinct(
            #[trigger] states[i],
        ) by {
            if i <= n {
                assert(ports_distinct(states.drop_last()[i]));
            }
        }
        assert forall|i: int, j: int|
            0 <= i < j < ids.len() && !states[i].contains_key(ids[i]) && !states[j].contains_key(
                ids[j],
            ) implies #[trigger] ports[i] < #[trigger] ports[j] by {
            if j < n {
                assert(ports.drop_last()[i] == ports[i] && ports.drop_last()[j] == ports[j]);
                assert(states.drop_last()[i] == states[i] && states.drop_last()[j] == states[j]);
                assert(ids.drop_last()[i] == ids[i] && ids.drop_last()[j] == ids[j]);
            } else {
                lemma_registered_stays(states, ids, bundles, ports, i, n);
                assert(create_step(states[i], ids[i], bundles[i], ports[i], states[i + 1]));
                assert(states[n][ids[i]].vsock_port == ports[i]);
            }
        }
    }
}

proof fn lemma_registered_stays(
    states: Seq<RegistryView>,
    ids: Seq<Seq<char>>,
    bundles: Seq<Seq<char>>,
    ports: Seq<u32>,
    i: int,
    j: int,
)
    requires
        states.len() == ids.len() + 1,
        bundles.len() == ids.len(),
        ports.len() == ids.len(),
        forall|i: int|
            0 <= i < ids.len() ==> create_step(
                #[trigger] states[i],
                ids[i],
                bundles[i],
                ports[i],
                states[i + 1],
            ),
        0 <= i < j < states.len(),
    ensures
        states[i + 1].contains_key(ids[i]),
        forall|k: int|
            i < k <= j ==> (#[trigger] states[k]).contains_key(ids[i]) && states[k][ids[i]]
                == states[i + 1][ids[i]],
    decreases j - i,
{
    assert(create_step(states[i], ids[i], bundles[i], ports[i], states[i + 1]));
    if j > i + 1 {
        lemma_registered_stays(states, ids, bundles, ports, i, j - 1);
        assert(create_step(states[j - 1], ids[j - 1], bundles[j - 1], ports[j - 1], states[j]));
        assert(states[j - 1].contains_key(ids[i]));
    }
}

proof fn lemma_registered_came_from_run(
    states: Seq<RegistryView>,
    ids: Seq<Seq<char>>,
    bundles: Seq<Seq<char>>,
    ports: Seq<u32>,
    k: int,
    id: Seq<char>,
)
    requires
        states.len() == ids.len() + 1,
        bundles.len() == ids.len(),
        ports.len() == ids.len(),
        forall|i: int|
            0 <= i < ids.len() ==> create_step(
                #[trigger] states[i],
                ids[i],
                bundles[i],
                ports[i],
                states[i + 1],
            ),
        0 <= k < states.len(),
        states[k].contains_key(id),
    ensures
        states[0].contains_key(id) || exists|j: int| 0 <= j < k && #[trigger] ids[j] == id,
    decreases k,
{
    if k > 0 {
        assert(create_step(states[k - 1], ids[k - 1], bundles[k - 1], ports[k - 1], states[k]));
        if states[k - 1].contains_key(id) {
            lemma_registered_came_from_run(states, ids, bundles, ports, k - 1, id);
        } else {
            assert(ids[k - 1] == id);
        }
    }
}

/// In a run of creates of containers with distinct identifiers, none of them
/// registered before the run, every create registers its container, on a
/// higher port than every create before it. At the end of the run each
/// container is on the port that its create gave it, and no two containers
/// share a port.
pub proof fn distinct_creates_all_register(
    states: Seq<RegistryView>,
    ids: Seq<Seq<char>>,
    bundles: Seq<Seq<char>>,
    ports: Seq<u32>,
)
    requires
        states.len() == ids.len() + 1,
        bundles.len() == ids.len(),
        ports.len() == ids.len(),
        ports_distinct(states[0]),
        forall|i: int| 0 <= i < ids.len() ==> !states[0].contains_key(#[trigger] ids[i]),
        forall|i: int, j: int| 0 <= i < j < ids.len() ==> #[trigger] ids[i] != #[trigger] ids[j],
        forall|i: int|
            0 <= i < ids.len() ==> create_step(
                #[trigger] states[i],
                ids[i],
                bundles[i],
                ports[i],
                states[i + 1],
            ),
    ensures
        forall|i: int| 0 <= i < ids.len() ==> !(#[trigger] states[i]).contains_key(ids[i]),
        forall|i: int, j: int| 0 <= i < j < ids.len() ==> #[trigger] ports[i] < #[trigger] ports[j],
        forall|i: int|
            0 <= i < ids.len() ==> states.last().contains_key(#[trigger] ids[i])
                && states.last()[ids[i]].vsock_port == ports[i],
        ports_distinct(states.last()),
{
    assert forall|i: int| 0 <= i < ids.len() implies !(#[trigger] states[i]).contains_key(
        ids[i],
    ) by {
        if states[i].contains_key(ids[i]) {
            lemma_registered_came_from_run(states, ids, bundles, ports, i, ids[i]);
        }
    }
    create_run_ports(states, ids, bundles, ports);
    assert forall|i: int| 0 <= i < ids.len() implies states.last().contains_key(
        #[trigger] ids[i],
    ) && states.last()[ids[i]].vsock_port == ports[i] by {
        lemma_registered_stays(states, ids, bundles, ports, i, ids.len() as int);
        assert(create_step(states[i], ids[i], bundles[i], ports[i], states[i + 1]));
    }
}

/// A create of a container that is registered already is turned down with
/// `ContainerAlreadyExists`, and a run step of it leaves the registry as it
/// is.
pub proof fn create_of_registered_container(
    m: RegistryView,
    id: Seq<char>,
    bundle: Seq<char>,
    port: u32,
    after: RegistryView,
)
    requires
        m.contains_key(id),
        create_step(m, id, bundle, port, after),
    ensures
        admission(m, Operation::Create, id) == Err::<(), Error>(Error::ContainerAlreadyExists),
        after == m,
{
}

/// Every operation but a create fails on a container that is not registered
/// with `ContainerNotFound`, at the request and at its finish alike, and
/// changes nothing.
pub proof fn unknown_container_is_not_found(
    m: RegistryView,
    operation: Operation,
    id: Seq<char>,
    delivered: bool,
    acknowledged: Option<u32>,
)
    requires
        operation != Operation::Create,
        !m.contains_key(id),
    ensures
        admission(m, operation, id) == Err::<(), Error>(Error::ContainerNotFound),
        plan(m, operation, id) is Err,
        plan(m, operation, id)->Err_0 == Error::ContainerNotFound,
        outcome(m, operation, id, delivered) == Err::<(), Error>(Error::ContainerNotFound),
        registry_after_finish(m, operation, id, delivered) == m,
        create_outcome(m, id, acknowledged) == Err::<(), Error>(Error::ContainerNotFound),
        registry_after_create(m, id, acknowledged) == m,
{
}

/// A start succeeds exactly on a `Created` container whose command was
/// delivered. It leaves the container `Running` and all else as it was, and
/// a second start right after it fails with
/// `UnexpectedContainerStatus(Running)`.
pub proof fn start_runs_once(m: RegistryView, id: Seq<char>, delivered: bool)
    ensures
        outcome(m, Operation::Start, id, delivered) is Ok <==> delivered && m.contains_key(id)
            && m[id].status == VmStatus::Created,
        outcome(m, Operation::Start, id, delivered) is Ok ==> {
            let after = registry_after_finish(m, Operation::Start, id, delivered);
            &&& after.dom() == m.dom()
            &&& after[id].status == VmStatus::Running
            &&& after[id].bundle == m[id].bundle
            &&& after[id].vsock_port == m[id].vsock_port
            &&& forall|k: Seq<char>| k != id && m.contains_key(k) ==> after[k] == m[k]
            &&& forall|again: bool|
                #[trigger] outcome(after, Operation::Start, id, again) == Err::<(), Error>(
                    Error::UnexpectedContainerStatus(VmStatus::Running),
                )
        },
        !(outcome(m, Operation::Start, id, delivered) is Ok) ==> registry_after_finish(
            m,
            Operation::Start,
            id,
            delivered,
        ) == m,
{
    if outcome(m, Operation::Start, id, delivered) is Ok {
        let after = registry_after_finish(m, Operation::Start, id, delivered);
        assert(after.dom() =~= m.dom());
    }
}

/// A kill succeeds exactly on a `Created` or `Running` container whose
/// command was delivered. It leaves the container `Stopped` and all else as
/// it was, and a kill of a `Stopped` container fails with
/// `UnexpectedContainerStatus(Stopped)`.
pub proof fn kill_stops(m: RegistryView, id: Seq<char>, delivered: bool)
    ensures
        outcome(m, Operation::Kill, id, delivered) is Ok <==> delivered && m.contains_key(id) && (
        m[id].status == VmStatus::Created || m[id].status == VmStatus::Running),
        outcome(m, Operation::Kill, id, delivered) is Ok ==> {
            let after = registry_after_finish(m, Operation::Kill, id, delivered);
            &&& after.dom() == m.dom()
            &&& after[id].status == VmStatus::Stopped
            &&& after[id].bundle == m[id].bundle
            &&& after[id].vsock_port == m[id].vsock_port
            &&& forall|k: Seq<char>| k != id && m.contains_key(k) ==> after[k] == m[k]
            &&& forall|again: bool|
                #[trigger] outcome(after, Operation::Kill, id, again) == Err::<(), Error>(
                    Error::UnexpectedContainerStatus(VmStatus::Stopped),
                )
        },
        m.contains_key(id) && m[id].status == VmStatus::Stopped ==> outcome(
            m,
            Operation::Kill,
            id,
            delivered,
        ) == Err::<(), Error>(Error::UnexpectedContainerStatus(VmStatus::Stopped)),
        !(outcome(m, Operation::Kill, id, delivered) is Ok) ==> registry_after_finish(
            m,
            Operation::Kill,
            id,
            delivered,
        ) == m,
{
    if outcome(m, Operation::Kill, id, delivered) is Ok {
        let after = registry_after_finish(m, Operation::Kill, id, delivered);
        assert(after.dom() =~= m.dom());
    }
}

/// A delete succeeds exactly on a `Created` or `Stopped` container whose
/// commands were delivered. It removes that container and no other, so that
/// one container fewer is left, and every later operation but a create on the
/// identifier, a state query among them, fails with `ContainerNotFound`.
pub proof fn delete_removes(m: RegistryView, id: Seq<char>, delivered: bool)
    ensures
        outcome(m, Operation::Delete, id, delivered) is Ok <==> delivered && m.contains_key(id)
            && (m[id].status == VmStatus::Created || m[id].status == VmStatus::Stopped),
        outcome(m, Operation::Delete, id, delivered) is Ok ==> {
            let after = registry_after_finish(m, Operation::Delete, id, delivered);
            &&& after == m.remove(id)
            &&& !after.contains_key(id)
            &&& m.dom().finite() ==> after.dom().finite() && after.dom().len() == m.dom().len() - 1
            &&& forall|k: Seq<char>| k != id && m.contains_key(k) ==> after.contains_key(k)
                && after[k] == m[k]
            &&& admission(after, Operation::State, id) == Err::<(), Error>(
                Error::ContainerNotFound,
            )
            &&& forall|later: Operation, sent: bool|
                later != Operation::Create ==> #[trigger] outcome(after, later, id, sent) == Err::<
                    (),
                    Error,
                >(Error::ContainerNotFound)
        },
        !(outcome(m, Operation::Delete, id, delivered) is Ok) ==> registry_after_finish(
            m,
            Operation::Delete,
            id,
            delivered,
        ) == m,
{
}

/// A create is finished with success exactly where the container is
/// `Creating` and the guest's reply names a port that no other container is
/// on. The container is then `Created` on the port that the reply names, with
/// its bundle, and all other containers are as they were. A `Creating`
/// container without a reply, or with a reply that names the port of another
/// container, is removed, and the create fails with `VmCommandFailed`.
pub proof fn acknowledged_create(m: RegistryView, id: Seq<char>, acknowledged: Option<u32>)
    ensures
        create_outcome(m, id, acknowledged) is Ok <==> m.contains_key(id) && m[id].status
            == VmStatus::Creating && acknowledged is Some && !port_in_use(
            m.remove(id),
            acknowledged->Some_0,
        ),
        create_outcome(m, id, acknowledged) is Ok ==> {
            let after = registry_after_create(m, id, acknowledged);
            &&& after.dom() == m.dom()
            &&& after[id].status == VmStatus::Created
            &&& after[id].bundle == m[id].bundle
            &&& after[id].vsock_port == acknowledged->Some_0
            &&& forall|k: Seq<char>| k != id && m.contains_key(k) ==> after[k] == m[k]
        },
        m.contains_key(id) && m[id].status == VmStatus::Creating && !(create_outcome(
            m,
            id,
            acknowledged,
        ) is Ok) ==> create_outcome(m, id, acknowledged) == Err::<(), Error>(
            Error::VmCommandFailed,
        ) && registry_after_create(m, id, acknowledged) == m.remove(id),
{
    if create_outcome(m, id, acknowledged) is Ok {
        assert(registry_after_create(m, id, acknowledged).dom() =~= m.dom());
    }
}

/// A reply that names the port which the create gave the container is always
/// taken, where no two containers share a port: the container is `Created`
/// on that port.
pub proof fn create_acknowledged_on_its_port(m: RegistryView, id: Seq<char>)
    requires
        ports_distinct(m),
        m.contains_key(id),
        m[id].status == VmStatus::Creating,
    ensures
        create_outcome(m, id, Some(m[id].vsock_port)) is Ok,
        registry_after_create(m, id, Some(m[id].vsock_port)) == m.insert(
            id,
            ContainerStateView { status: VmStatus::Created, ..m[id] },
        ),
{
    let rest = m.remove(id);
    assert forall|k: Seq<char>| rest.contains_key(k) implies (#[trigger] rest[k]).vsock_port
        != m[id].vsock_port by {
        assert(m.contains_key(k) && k != id);
        assert(m[k].vsock_port != m[id].vsock_port);
    }
}

/// No call of the library makes the registry infinite, and a delete that
/// succeeds leaves one container fewer.
pub proof fn registry_stays_finite(
    m: RegistryView,
    operation: Operation,
    id: Seq<char>,
    bundle: Seq<char>,
    port: u32,
    delivered: bool,
    acknowledged: Option<u32>,
)
    requires
        m.dom().finite(),
    ensures
        registry_with_new(m, id, bundle, port).dom().finite(),
        registry_after_create(m, id, acknowledged).dom().finite(),
        registry_after_finish(m, operation, id, delivered).dom().finite(),
        outcome(m, Operation::Delete, id, delivered) is Ok ==> registry_after_finish(
            m,
            Operation::Delete,
            id,
            delivered,
        ).dom().len() == m.dom().len() - 1,
        !m.contains_key(id) ==> registry_with_new(m, id, bundle, port).dom().len() == m.dom().len()
            + 1,
{
    assert(registry_with_new(m, id, bundle, port).dom() =~= m.dom().insert(id));
    assert(m.remove(id).dom() =~= m.dom().remove(id));
    if create_outcome(m, id, acknowledged) is Ok {
        assert(registry_after_create(m, id, acknowledged).dom() =~= m.dom());
    }
    if outcome(m, operation, id, delivered) is Ok {
        match operation {
            Operation::Start | Operation::Kill => {
                assert(registry_after_finish(m, operation, id, delivered).dom() =~= m.dom());
            },
            _ => {},
        }
    }
}

} // verus!
