//! The container registry: one entry per container, keyed by the container
//! identifier, and the allocation of vsock ports.

use crate::api::VmStatus;
use vstd::prelude::*;

verus! {

/// Lowest vsock port that is ever allocated.
pub const DEFAULT_MIN_PORT: u32 = 1234;

/// What the registry records of one container.
#[derive(Clone, Debug, PartialEq, Eq)]
pub struct ContainerState {
    /// Path of the container's bundle; passed through unread.
    pub bundle: String,
    pub status: VmStatus,
    /// Port of the guest endpoint that serves this container.
    pub vsock_port: u32,
}

/// Mathematical value of a [`ContainerState`].
pub ghost struct ContainerStateView {
    pub bundle: Seq<char>,
    pub status: VmStatus,
    pub vsock_port: u32,
}

impl View for ContainerState {
    type V = ContainerStateView;

    open spec fn view(&self) -> ContainerStateView {
        ContainerStateView { bundle: self.bundle@, status: self.status, vsock_port: self.vsock_port }
    }
}

/// Mathematical value of a registry: a map from container identifier to state.
pub type RegistryView = Map<Seq<char>, ContainerStateView>;

/// No two containers share a vsock port.
pub open spec fn ports_distinct(m: RegistryView) -> bool {
    forall|a: Seq<char>, b: Seq<char>|
        #![trigger m[a], m[b]]
        m.contains_key(a) && m.contains_key(b) && a != b ==> m[a].vsock_port != m[b].vsock_port
}

/// `port` is one more than the highest port in use, where a registry without a
/// port at or above the floor counts as using the port just below the floor.
/// At most one `port` satisfies this for a given registry.
pub open spec fn is_next_port(m: RegistryView, port: int) -> bool {
    &&& port >= DEFAULT_MIN_PORT
    &&& forall|k: Seq<char>| m.contains_key(k) ==> (#[trigger] m[k]).vsock_port < port
    &&& (port == DEFAULT_MIN_PORT || exists|k: Seq<char>|
        m.contains_key(k) && (#[trigger] m[k]).vsock_port + 1 == port)
}

/// Some container is on `port`.
pub open spec fn port_in_use(m: RegistryView, port: u32) -> bool {
    exists|k: Seq<char>| m.contains_key(k) && (#[trigger] m[k]).vsock_port == port
}

/// Some container holds the highest representable port, so that no further
/// port can be allocated.
pub open spec fn ports_exhausted(m: RegistryView) -> bool {
    exists|k: Seq<char>| m.contains_key(k) && (#[trigger] m[k]).vsock_port == u32::MAX
}

struct Entry {
    container_id: String,
    state: ContainerState,
}

spec fn ids_distinct(s: Seq<Entry>) -> bool {
    forall|i: int, j: int|
        0 <= i < j < s.len() ==> (#[trigger] s[i]).container_id@ != (#[trigger] s[j]).container_id@
}

spec fn entry_ports_distinct(s: Seq<Entry>) -> bool {
    forall|i: int, j: int|
        0 <= i < j < s.len() ==> (#[trigger] s[i]).state.vsock_port != (#[trigger] s[j]).state.vsock_port
}

spec fn holds_id(s: Seq<Entry>, id: Seq<char>) -> bool {
    exists|i: int| 0 <= i < s.len() && (#[trigger] s[i]).container_id@ == id
}

spec fn index_of(s: Seq<Entry>, id: Seq<char>) -> int {
    choose|i: int| 0 <= i < s.len() && (#[trigger] s[i]).container_id@ == id
}

spec fn entries_view(s: Seq<Entry>) -> RegistryView {
    Map::new(|id: Seq<char>| holds_id(s, id), |id: Seq<char>| s[index_of(s, id)].state@)
}

proof fn lemma_index_of(s: Seq<Entry>, i: int)
    requires
        ids_distinct(s),
        0 <= i < s.len(),
    ensures
        holds_id(s, s[i].container_id@),
        index_of(s, s[i].container_id@) == i,
        entries_view(s).contains_key(s[i].container_id@),
        entries_view(s)[s[i].container_id@] == s[i].state@,
{
    let id = s[i].container_id@;
    let j = index_of(s, id);
    assert(0 <= j < s.len() && s[j].container_id@ == id);
    if j < i {
        assert(s[j].container_id@ != s[i].container_id@);
    } else if i < j {
        assert(s[i].container_id@ != s[j].container_id@);
    }
}

proof fn lemma_push(s: Seq<Entry>, e: Entry)
    requires
        ids_distinct(s),
        !holds_id(s, e.container_id@),
    ensures
        ids_distinct(s.push(e)),
        entries_view(s.push(e)) == entries_view(s).insert(e.container_id@, e.state@),
{
    let t = s.push(e);
    assert(ids_distinct(t)) by {
        assert forall|i: int, j: int| 0 <= i < j < t.len() implies (#[trigger] t[i]).container_id@
            != (#[trigger] t[j]).container_id@ by {
            if j < s.len() {
                assert(s[i].container_id@ != s[j].container_id@);
            } else {
                assert(s[i].container_id@ != e.container_id@);
            }
        }
    }
    let lhs = entries_view(t);
    let rhs = entries_view(s).insert(e.container_id@, e.state@);
    assert forall|id: Seq<char>| lhs.contains_key(id) <==> rhs.contains_key(id) by {
        if holds_id(t, id) {
            let i = index_of(t, id);
            if i < s.len() {
                assert(s[i].container_id@ == id);
            }
        }
        if holds_id(s, id) {
            let i = index_of(s, id);
            assert(t[i].container_id@ == id);
        }
        if id == e.container_id@ {
            assert(t[s.len() as int].container_id@ == id);
        }
    }
    assert forall|id: Seq<char>| lhs.contains_key(id) implies lhs[id] == rhs[id] by {
        let i = index_of(t, id);
        lemma_index_of(t, i);
        if i < s.len() {
            lemma_index_of(s, i);
        }
    }
    assert(lhs =~= rhs);
}

proof fn lemma_remove(s: Seq<Entry>, i: int)
    requires
        ids_distinct(s),
        0 <= i < s.len(),
    ensures
        ids_distinct(s.remove(i)),
        entries_view(s.remove(i)) == entries_view(s).remove(s[i].container_id@),
{
    let t = s.remove(i);
    assert(ids_distinct(t)) by {
        assert forall|a: int, b: int| 0 <= a < b < t.len() implies (#[trigger] t[a]).container_id@
            != (#[trigger] t[b]).container_id@ by {
            let a0 = if a < i { a } else { a + 1 };
            let b0 = if b < i { b } else { b + 1 };
            assert(t[a] == s[a0] && t[b] == s[b0]);
            assert(s[a0].container_id@ != s[b0].container_id@);
        }
    }
    let lhs = entries_view(t);
    let rhs = entries_view(s).remove(s[i].container_id@);
    assert forall|id: Seq<char>| lhs.contains_key(id) <==> rhs.contains_key(id) by {
        if holds_id(t, id) {
            let a = index_of(t, id);
            let a0 = if a < i { a } else { a + 1 };
            assert(t[a] == s[a0]);
            assert(s[a0].container_id@ == id);
            lemma_index_of(s, a0);
            lemma_index_of(s, i);
        }
        if holds_id(s, id) && id != s[i].container_id@ {
            let a0 = index_of(s, id);
            let a = if a0 < i { a0 } else { a0 - 1 };
            assert(t[a] == s[a0]);
            assert(t[a].container_id@ == id);
        }
    }
    assert forall|id: Seq<char>| lhs.contains_key(id) implies lhs[id] == rhs[id] by {
        let a = index_of(t, id);
        let a0 = if a < i { a } else { a + 1 };
        assert(t[a] == s[a0]);
        lemma_index_of(t, a);
        lemma_index_of(s, a0);
    }
    assert(lhs =~= rhs);
}


proof fn lemma_push_ports(s: Seq<Entry>, e: Entry)
    requires
        ids_distinct(s),
        entry_ports_distinct(s),
        forall|k: Seq<char>|
            entries_view(s).contains_key(k) ==> (#[trigger] entries_view(s)[k]).vsock_port
                != e.state.vsock_port,
    ensures
        entry_ports_distinct(s.push(e)),
{
    let t = s.push(e);
    assert forall|i: int, j: int| 0 <= i < j < t.len() implies (#[trigger] t[i]).state.vsock_port
        != (#[trigger] t[j]).state.vsock_port by {
        if j < s.len() {
            assert(s[i].state.vsock_port != s[j].state.vsock_port);
        } else {
            lemma_index_of(s, i);
            assert(entries_view(s)[s[i].container_id@].vsock_port != e.state.vsock_port);
        }
    }
}

proof fn lemma_remove_ports(s: Seq<Entry>, i: int)
    requires
        ids_distinct(s),
        entry_ports_distinct(s),
        0 <= i < s.len(),
    ensures
        entry_ports_distinct(s.remove(i)),
        forall|k: Seq<char>|
            entries_view(s.remove(i)).contains_key(k) ==> (#[trigger] entries_view(
                s.remove(i),
            )[k]).vsock_port != s[i].state.vsock_port,
{
    let t = s.remove(i);
    lemma_remove(s, i);
    assert forall|a: int, b: int| 0 <= a < b < t.len() implies (#[trigger] t[a]).state.vsock_port
        != (#[trigger] t[b]).state.vsock_port by {
        let a0 = if a < i { a } else { a + 1 };
        let b0 = if b < i { b } else { b + 1 };
        assert(t[a] == s[a0] && t[b] == s[b0]);
        assert(s[a0].state.vsock_port != s[b0].state.vsock_port);
    }
    assert forall|k: Seq<char>| entries_view(t).contains_key(k) implies (#[trigger] entries_view(
        t,
    )[k]).vsock_port != s[i].state.vsock_port by {
        let a = index_of(t, k);
        lemma_index_of(t, a);
        let a0 = if a < i { a } else { a + 1 };
        assert(t[a] == s[a0]);
        if a0 < i {
            assert(s[a0].state.vsock_port != s[i].state.vsock_port);
        } else {
            assert(s[i].state.vsock_port != s[a0].state.vsock_port);
        }
    }
}

proof fn lemma_finite(s: Seq<Entry>)
    ensures
        entries_view(s).dom().finite(),
    decreases s.len(),
{
    if s.len() == 0 {
        assert(entries_view(s).dom() =~= Set::<Seq<char>>::empty());
    } else {
        let shorter = s.drop_last();
        lemma_finite(shorter);
        let grown = entries_view(shorter).dom().insert(s.last().container_id@);
        assert forall|id: Seq<char>| entries_view(s).dom().contains(id) <==> grown.contains(
            id,
        ) by {
            if holds_id(s, id) {
                let i = index_of(s, id);
                if i < shorter.len() {
                    assert(shorter[i].container_id@ == id);
                }
            }
            if holds_id(shorter, id) {
                let i = index_of(shorter, id);
                assert(s[i].container_id@ == id);
            }
            if id == s.last().container_id@ {
                assert(s[s.len() - 1].container_id@ == id);
            }
        }
        assert(entries_view(s).dom() =~= grown);
    }
}

proof fn lemma_ports(s: Seq<Entry>)
    requires
        ids_distinct(s),
        entry_ports_distinct(s),
    ensures
        ports_distinct(entries_view(s)),
{
    let m = entries_view(s);
    assert forall|a: Seq<char>, b: Seq<char>|
        #![trigger m[a], m[b]]
        m.contains_key(a) && m.contains_key(b) && a != b implies m[a].vsock_port
        != m[b].vsock_port by {
        let i = index_of(s, a);
        let j = index_of(s, b);
        lemma_index_of(s, i);
        lemma_index_of(s, j);
        if i < j {
            assert(s[i].state.vsock_port != s[j].state.vsock_port);
        } else {
            assert(s[j].state.vsock_port != s[i].state.vsock_port);
        }
    }
}

/// The registry of containers. No identifier occurs twice, and no two
/// containers share a vsock port.
pub struct Registry {
    entries: Vec<Entry>,
}

impl View for Registry {
    type V = RegistryView;

    closed spec fn view(&self) -> RegistryView {
        entries_view(self.entries@)
    }
}

impl Registry {
    #[verifier::type_invariant]
    spec fn well_formed(&self) -> bool {
        ids_distinct(self.entries@) && entry_ports_distinct(self.entries@)
    }

    /// An empty registry.
    pub fn new() -> (registry: Registry)
        ensures
            registry@ == Map::<Seq<char>, ContainerStateView>::empty(),
            registry@.dom().finite(),
            ports_distinct(registry@),
    {
        let registry = Registry { entries: Vec::new() };
        assert(registry@ =~= Map::<Seq<char>, ContainerStateView>::empty());
        registry
    }

    fn position(&self, container_id: &String) -> (found: Option<usize>)
        ensures
            self@.dom().finite(),
            ports_distinct(self@),
            match found {
                Some(i) => i < self.entries@.len() && self.entries@[i as int].container_id@
                    == container_id@ && self@.contains_key(container_id@) && self@[container_id@]
                    == self.entries@[i as int].state@,
                None => !self@.contains_key(container_id@),
            },
    {
        proof {
            use_type_invariant(self);
            lemma_ports(self.entries@);
            lemma_finite(self.entries@);
        }
        let mut i: usize = 0;
        while i < self.entries.len()
            invariant
                i <= self.entries@.len(),
                ids_distinct(self.entries@),
                self@.dom().finite(),
            ports_distinct(self@),
                forall|j: int| 0 <= j < i ==> (#[trigger] self.entries@[j]).container_id@ != container_id@,
            decreases self.entries@.len() - i,
        {
            if self.entries[i].container_id == *container_id {
                proof {
                    lemma_index_of(self.entries@, i as int);
                }
                return Some(i);
            }
            i += 1;
        }
        None
    }

    /// Whether a container with this identifier is registered.
    pub fn contains(&self, container_id: &String) -> (present: bool)
        ensures
            self@.dom().finite(),
            ports_distinct(self@),
            present == self@.contains_key(container_id@),
    {
        self.position(container_id).is_some()
    }

    /// The recorded state of a container, if it is registered.
    pub fn get(&self, container_id: &String) -> (state: Option<ContainerState>)
        ensures
            self@.dom().finite(),
            ports_distinct(self@),
            match state {
                Some(found) => self@.contains_key(container_id@) && found@ == self@[container_id@],
                None => !self@.contains_key(container_id@),
            },
    {
        match self.position(container_id) {
            Some(i) => {
                let entry = &self.entries[i];
                Some(
                    ContainerState {
                        bundle: entry.state.bundle.clone(),
                        status: entry.state.status,
                        vsock_port: entry.state.vsock_port,
                    },
                )
            },
            None => None,
        }
    }

    /// The port that the next container gets: one more than the highest port
    /// in use, and the floor for a registry without ports at or above it.
    /// `None` when the highest port in use is the highest port there is.
    pub fn next_port(&self) -> (port: Option<u32>)
        ensures
            self@.dom().finite(),
            ports_distinct(self@),
            match port {
                Some(p) => is_next_port(self@, p as int),
                None => ports_exhausted(self@),
            },
    {
        proof {
            use_type_invariant(self);
            lemma_ports(self.entries@);
            lemma_finite(self.entries@);
        }
        let mut highest: u32 = DEFAULT_MIN_PORT - 1;
        let mut i: usize = 0;
        while i < self.entries.len()
            invariant
                i <= self.entries@.len(),
                ids_distinct(self.entries@),
                highest >= DEFAULT_MIN_PORT - 1,
                forall|j: int| 0 <= j < i ==> (#[trigger] self.entries@[j]).state.vsock_port <= highest,
                highest == DEFAULT_MIN_PORT - 1 || exists|j: int|
                    0 <= j < i && (#[trigger] self.entries@[j]).state.vsock_port == highest,
            decreases self.entries@.len() - i,
        {
            if self.entries[i].state.vsock_port > highest {
                highest = self.entries[i].state.vsock_port;
            }
            i += 1;
        }
        proof {
            let s = self.entries@;
            let m = self@;
            assert forall|k: Seq<char>| m.contains_key(k) implies (#[trigger] m[k]).vsock_port
                <= highest by {
                let j = index_of(s, k);
                lemma_index_of(s, j);
            }
            if highest != DEFAULT_MIN_PORT - 1 {
                let j = choose|j: int| 0 <= j < s.len() && (#[trigger] s[j]).state.vsock_port == highest;
                lemma_index_of(s, j);
                assert(m.contains_key(s[j].container_id@) && m[s[j].container_id@].vsock_port
                    == highest);
            }
        }
        if highest == u32::MAX {
            None
        } else {
            Some(highest + 1)
        }
    }

    /// Whether some container is on `port`.
    pub fn holds_port(&self, port: u32) -> (held: bool)
        ensures
            held == port_in_use(self@, port),
    {
        proof {
            use_type_invariant(self);
        }
        let mut i: usize = 0;
        while i < self.entries.len()
            invariant
                i <= self.entries@.len(),
                ids_distinct(self.entries@),
                forall|j: int| 0 <= j < i ==> (#[trigger] self.entries@[j]).state.vsock_port != port,
            decreases self.entries@.len() - i,
        {
            if self.entries[i].state.vsock_port == port {
                proof {
                    lemma_index_of(self.entries@, i as int);
                }
                return true;
            }
            i += 1;
        }
        proof {
            let s = self.entries@;
            let m = self@;
            assert forall|k: Seq<char>| m.contains_key(k) implies (#[trigger] m[k]).vsock_port
                != port by {
                let j = index_of(s, k);
                lemma_index_of(s, j);
            }
        }
        false
    }

    /// Registers a container under an identifier and a port that are both
    /// unused.
    pub(crate) fn insert(&mut self, container_id: String, state: ContainerState)
        requires
            !old(self)@.contains_key(container_id@),
            forall|k: Seq<char>|
                old(self)@.contains_key(k) ==> (#[trigger] old(self)@[k]).vsock_port
                    != state.vsock_port,
        ensures
            final(self)@ == old(self)@.insert(container_id@, state@),
            final(self)@.dom().finite(),
            ports_distinct(final(self)@),
    {
        proof {
            use_type_invariant(&*self);
        }
        let mut entries: Vec<Entry> = Vec::new();
        std::mem::swap(&mut entries, &mut self.entries);
        let entry = Entry { container_id, state };
        proof {
            lemma_push(entries@, entry);
            lemma_push_ports(entries@, entry);
        }
        entries.push(entry);
        proof {
            lemma_ports(entries@);
            lemma_finite(entries@);
        }
        self.entries = entries;
    }

    /// Removes a container and hands back what was recorded of it.
    pub(crate) fn take(&mut self, container_id: &String) -> (state: Option<ContainerState>)
        ensures
            final(self)@ == old(self)@.remove(container_id@),
            final(self)@.dom().finite(),
            ports_distinct(final(self)@),
            match state {
                Some(taken) => {
                    &&& old(self)@.contains_key(container_id@)
                    &&& taken@ == old(self)@[container_id@]
                    &&& forall|k: Seq<char>|
                        final(self)@.contains_key(k) ==> (#[trigger] final(self)@[k]).vsock_port
                            != taken.vsock_port
                },
                None => !old(self)@.contains_key(container_id@),
            },
    {
        proof {
            use_type_invariant(&*self);
        }
        match self.position(container_id) {
            Some(i) => {
                let mut entries: Vec<Entry> = Vec::new();
                std::mem::swap(&mut entries, &mut self.entries);
                proof {
                    lemma_remove(entries@, i as int);
                    lemma_remove_ports(entries@, i as int);
                }
                let entry = entries.remove(i);
                proof {
                    lemma_ports(entries@);
                    lemma_finite(entries@);
                }
                self.entries = entries;
                Some(entry.state)
            },
            None => {
                assert(self@.remove(container_id@) =~= self@);
                None
            },
        }
    }

    /// Records a new status for a registered container.
    pub(crate) fn set_status(&mut self, container_id: &String, status: VmStatus)
        requires
            old(self)@.contains_key(container_id@),
        ensures
            final(self)@ == old(self)@.insert(
                container_id@,
                ContainerStateView { status: status, ..old(self)@[container_id@] },
            ),
            final(self)@.dom().finite(),
            ports_distinct(final(self)@),
    {
        match self.take(container_id) {
            Some(taken) => {
                let state = ContainerState {
                    bundle: taken.bundle,
                    status,
                    vsock_port: taken.vsock_port,
                };
                self.insert(container_id.clone(), state);
                assert(final(self)@ =~= old(self)@.insert(
                    container_id@,
                    ContainerStateView { status: status, ..old(self)@[container_id@] },
                ));
            },
            None => {},
        }
    }
}

} // verus!
