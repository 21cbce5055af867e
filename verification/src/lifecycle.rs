//! The lifecycle state machine over the registry.
//!
//! Every operation that talks to the guest comes as a pair. The first call
//! checks the request against the registry and returns the guest commands, in
//! the order in which they are to be delivered. The caller delivers them and
//! reports with the second call, named `finish_..`, whether that succeeded; the
//! second call records the outcome and returns what the client is told.

use crate::api::{Command, CommandView, Error, Operation, Request, Response, ResponseView, VmStatus};
use crate::api::command_views;
use crate::registry::{ContainerState, ContainerStateView, Registry, RegistryView};
use crate::registry::{is_next_port, port_in_use, ports_distinct, ports_exhausted};
use vstd::prelude::*;

verus! {

/// Whether a container in `status` accepts `operation`. A create request is
/// never accepted by a container that exists.
pub open spec fn permits(operation: Operation, status: VmStatus) -> bool {
    match operation {
        Operation::Create => false,
        Operation::Start => status == VmStatus::Created,
        Operation::Kill => status == VmStatus::Created || status == VmStatus::Running,
        Operation::State => true,
        Operation::Delete => status == VmStatus::Created || status == VmStatus::Stopped,
        Operation::Connect => status == VmStatus::Running,
    }
}

/// The verdict on a request, before anything is sent to the guest.
pub open spec fn admission(m: RegistryView, operation: Operation, id: Seq<char>) -> Result<
    (),
    Error,
> {
    if operation == Operation::Create {
        if m.contains_key(id) {
            Err(Error::ContainerAlreadyExists)
        } else {
            Ok(())
        }
    } else if !m.contains_key(id) {
        Err(Error::ContainerNotFound)
    } else if !permits(operation, m[id].status) {
        Err(Error::UnexpectedContainerStatus(m[id].status))
    } else {
        Ok(())
    }
}

/// What the client is told: the verdict on the request, and for an admitted
/// request whether its commands reached the command queue.
pub open spec fn outcome(m: RegistryView, operation: Operation, id: Seq<char>, delivered: bool)
    -> Result<(), Error> {
    match admission(m, operation, id) {
        Err(e) => Err(e),
        Ok(_) => if delivered {
            Ok(())
        } else {
            Err(Error::VmCommandFailed)
        },
    }
}

/// The status in which a successful operation leaves a registered container.
pub open spec fn status_after(operation: Operation, status: VmStatus) -> VmStatus {
    match operation {
        Operation::Start => VmStatus::Running,
        Operation::Kill => VmStatus::Stopped,
        _ => status,
    }
}

/// The registry after a successful operation on a registered container.
pub open spec fn registry_after(m: RegistryView, operation: Operation, id: Seq<char>)
    -> RegistryView {
    match operation {
        Operation::Delete => m.remove(id),
        Operation::Start | Operation::Kill => m.insert(
            id,
            ContainerStateView { status: status_after(operation, m[id].status), ..m[id] },
        ),
        _ => m,
    }
}

/// The token that names an operation to the guest, as bytes: `start`,
/// `kill`, `state` and `delete`. A create and a connect have none.
pub open spec fn wire_token(operation: Operation) -> Seq<u8> {
    match operation {
        Operation::Start => seq![0x73u8, 0x74u8, 0x61u8, 0x72u8, 0x74u8],
        Operation::Kill => seq![0x6bu8, 0x69u8, 0x6cu8, 0x6cu8],
        Operation::State => seq![0x73u8, 0x74u8, 0x61u8, 0x74u8, 0x65u8],
        Operation::Delete => seq![0x64u8, 0x65u8, 0x6cu8, 0x65u8, 0x74u8, 0x65u8],
        _ => Seq::<u8>::empty(),
    }
}

/// The guest commands of an operation on the container behind `port`, in the
/// order of delivery. `payload` is the description of the creation request
/// and is read for a create only.
pub open spec fn guest_commands(operation: Operation, port: u32, payload: Seq<u8>) -> Seq<
    CommandView,
> {
    match operation {
        Operation::Create => seq![
            CommandView::Connect(port),
            CommandView::VsockSend(port, payload),
        ],
        Operation::Start | Operation::Kill | Operation::State => seq![
            CommandView::VsockSend(port, wire_token(operation)),
        ],
        Operation::Delete => seq![
            CommandView::VsockSend(port, wire_token(operation)),
            CommandView::Disconnect(port),
        ],
        Operation::Connect => seq![],
    }
}

/// The registry with a new container, `Creating`, on `port`.
pub open spec fn registry_with_new(m: RegistryView, id: Seq<char>, bundle: Seq<char>, port: u32)
    -> RegistryView {
    m.insert(id, ContainerStateView { bundle: bundle, status: VmStatus::Creating, vsock_port: port })
}

/// `after` is the registry that a create of a container that was not
/// registered leaves: the registry `before` with that container on `port`,
/// the next port.
pub open spec fn registers(
    before: RegistryView,
    id: Seq<char>,
    bundle: Seq<char>,
    port: u32,
    after: RegistryView,
) -> bool {
    &&& !before.contains_key(id)
    &&& is_next_port(before, port as int)
    &&& after == registry_with_new(before, id, bundle, port)
}

/// The commands that a request on a registered container asks for, or the
/// error with which it is turned down.
pub open spec fn plan(m: RegistryView, operation: Operation, id: Seq<char>) -> Result<
    Seq<CommandView>,
    Error,
> {
    match admission(m, operation, id) {
        Err(e) => Err(e),
        Ok(_) => Ok(guest_commands(operation, m[id].vsock_port, Seq::<u8>::empty())),
    }
}

/// The commands handed out are exactly the expected ones, or the error is.
pub open spec fn agrees(
    planned: Result<Vec<Command>, Error>,
    expected: Result<Seq<CommandView>, Error>,
) -> bool {
    match (planned, expected) {
        (Ok(commands), Ok(views)) => command_views(commands@) == views,
        (Err(e), Err(expected_error)) => e == expected_error,
        _ => false,
    }
}

/// What the client of a create is told once the guest was heard, or was not:
/// `acknowledged` is the port that the guest's reply names, `None` where the
/// commands did not reach the command queue. A `Creating` container is
/// recorded on the port that the reply names, which may be another than the
/// one its create gave it; where another container is on that port already,
/// the create fails, as it does without a reply.
pub open spec fn create_outcome(m: RegistryView, id: Seq<char>, acknowledged: Option<u32>)
    -> Result<(), Error> {
    if !m.contains_key(id) {
        Err(Error::ContainerNotFound)
    } else if m[id].status != VmStatus::Creating {
        Err(Error::UnexpectedContainerStatus(m[id].status))
    } else {
        match acknowledged {
            Some(port) => if port_in_use(m.remove(id), port) {
                Err(Error::VmCommandFailed)
            } else {
                Ok(())
            },
            None => Err(Error::VmCommandFailed),
        }
    }
}

/// The registry once a create was finished: an acknowledged container is
/// `Created` on the port that the reply names, one whose creation failed is
/// gone, anything else is untouched.
pub open spec fn registry_after_create(m: RegistryView, id: Seq<char>, acknowledged: Option<u32>)
    -> RegistryView {
    match create_outcome(m, id, acknowledged) {
        Ok(_) => m.insert(
            id,
            ContainerStateView {
                status: VmStatus::Created,
                vsock_port: acknowledged->Some_0,
                ..m[id]
            },
        ),
        Err(Error::VmCommandFailed) => m.remove(id),
        Err(_) => m,
    }
}

/// The registry once an operation other than a create was finished.
pub open spec fn registry_after_finish(
    m: RegistryView,
    operation: Operation,
    id: Seq<char>,
    delivered: bool,
) -> RegistryView {
    if outcome(m, operation, id, delivered) is Ok {
        registry_after(m, operation, id)
    } else {
        m
    }
}

fn accepts(operation: Operation, status: VmStatus) -> (accepted: bool)
    ensures
        accepted == permits(operation, status),
{
    match operation {
        Operation::Create => false,
        Operation::Start => status == VmStatus::Created,
        Operation::Kill => status == VmStatus::Created || status == VmStatus::Running,
        Operation::State => true,
        Operation::Delete => status == VmStatus::Created || status == VmStatus::Stopped,
        Operation::Connect => status == VmStatus::Running,
    }
}

fn token(operation: Operation) -> (bytes: Vec<u8>)
    ensures
        bytes@ == wire_token(operation),
{
    let bytes = match operation {
        Operation::Start => vec![0x73u8, 0x74u8, 0x61u8, 0x72u8, 0x74u8],
        Operation::Kill => vec![0x6bu8, 0x69u8, 0x6cu8, 0x6cu8],
        Operation::State => vec![0x73u8, 0x74u8, 0x61u8, 0x74u8, 0x65u8],
        Operation::Delete => vec![0x64u8, 0x65u8, 0x6cu8, 0x65u8, 0x74u8, 0x65u8],
        _ => Vec::new(),
    };
    assert(bytes@ =~= wire_token(operation));
    bytes
}

fn commands_for(operation: Operation, port: u32, payload: Vec<u8>) -> (commands: Vec<Command>)
    ensures
        command_views(commands@) == guest_commands(operation, port, payload@),
{
    let mut commands: Vec<Command> = Vec::new();
    match operation {
        Operation::Create => {
            commands.push(Command::Connect(port));
            commands.push(Command::VsockSend(port, payload));
        },
        Operation::Delete => {
            commands.push(Command::VsockSend(port, token(operation)));
            commands.push(Command::Disconnect(port));
        },
        Operation::Connect => {},
        _ => {
            commands.push(Command::VsockSend(port, token(operation)));
        },
    }
    assert(command_views(commands@) =~= guest_commands(operation, port, payload@));
    commands
}

impl Registry {
    /// The verdict on a request: whether the registry accepts it, and if not,
    /// with which error it is turned down.
    pub fn validate(&self, request: &Request) -> (verdict: Result<(), Error>)
        ensures
            verdict == admission(self@, request.operation, request.container_id@),
    {
        match request.operation {
            Operation::Create => if self.contains(&request.container_id) {
                Err(Error::ContainerAlreadyExists)
            } else {
                Ok(())
            },
            operation => match self.resolve(operation, &request.container_id) {
                Ok(_) => Ok(()),
                Err(e) => Err(e),
            },
        }
    }

    /// What is recorded of the container that an operation names, where the
    /// operation is accepted.
    fn resolve(&self, operation: Operation, container_id: &String) -> (found: Result<
        ContainerState,
        Error,
    >)
        requires
            operation != Operation::Create,
        ensures
            self@.dom().finite(),
            ports_distinct(self@),
            match found {
                Ok(state) => admission(self@, operation, container_id@) is Ok && state@
                    == self@[container_id@],
                Err(e) => admission(self@, operation, container_id@) == Err::<(), Error>(e),
            },
    {
        match self.get(container_id) {
            Some(state) => if accepts(operation, state.status) {
                Ok(state)
            } else {
                Err(Error::UnexpectedContainerStatus(state.status))
            },
            None => Err(Error::ContainerNotFound),
        }
    }

    fn request(&self, operation: Operation, container_id: &String) -> (planned: Result<
        Vec<Command>,
        Error,
    >)
        requires
            operation != Operation::Create,
        ensures
            agrees(planned, plan(self@, operation, container_id@)),
    {
        match self.resolve(operation, container_id) {
            Ok(state) => Ok(commands_for(operation, state.vsock_port, Vec::new())),
            Err(e) => Err(e),
        }
    }

    fn finish(&mut self, operation: Operation, container_id: &String, delivered: bool) -> (told:
        Result<(), Error>)
        requires
            operation != Operation::Create,
        ensures
            told == outcome(old(self)@, operation, container_id@, delivered),
            final(self)@ == registry_after_finish(old(self)@, operation, container_id@, delivered),
            final(self)@.dom().finite(),
            ports_distinct(final(self)@),
    {
        match self.resolve(operation, container_id) {
            Err(e) => {
                return Err(e);
            },
            Ok(_) => {},
        }
        if !delivered {
            return Err(Error::VmCommandFailed);
        }
        match operation {
            Operation::Delete => {
                let _ = self.take(container_id);
            },
            Operation::Start => {
                self.set_status(container_id, VmStatus::Running);
            },
            Operation::Kill => {
                self.set_status(container_id, VmStatus::Stopped);
            },
            _ => {},
        }
        Ok(())
    }

    /// Registers a new container as `Creating` on the next free port and
    /// returns the commands that open its guest channel and carry `payload`,
    /// the description of the creation request, to the guest. A container
    /// identifier that is already registered is turned down and nothing
    /// changes.
    ///
    /// The highest port there is cannot be followed by another: the caller
    /// makes sure that a port is left, which [`Registry::next_port`] tells.
    pub fn create(&mut self, container_id: String, bundle: String, payload: Vec<u8>) -> (planned:
        Result<Vec<Command>, Error>)
        requires
            !old(self)@.contains_key(container_id@) ==> !ports_exhausted(old(self)@),
        ensures
            final(self)@.dom().finite(),
            ports_distinct(final(self)@),
            match planned {
                Ok(commands) => {
                    let port = final(self)@[container_id@].vsock_port;
                    &&& registers(old(self)@, container_id@, bundle@, port, final(self)@)
                    &&& command_views(commands@) == guest_commands(
                        Operation::Create,
                        port,
                        payload@,
                    )
                },
                Err(e) => {
                    &&& e == Error::ContainerAlreadyExists
                    &&& old(self)@.contains_key(container_id@)
                    &&& final(self)@ == old(self)@
                },
            },
    {
        if self.contains(&container_id) {
            return Err(Error::ContainerAlreadyExists);
        }
        match self.next_port() {
            Some(port) => {
                let state = ContainerState { bundle, status: VmStatus::Creating, vsock_port: port };
                let ghost id = container_id@;
                self.insert(container_id, state);
                assert(final(self)@[id].vsock_port == port);
                Ok(commands_for(Operation::Create, port, payload))
            },
            None => {
                assert(false);
                Err(Error::VmCommandFailed)
            },
        }
    }

    /// Finishes a create. `acknowledged` is the port named by the guest's
    /// reply, or `None` where the commands could not be delivered. A container
    /// that is `Creating` becomes `Created` on the port that the reply names,
    /// unless another container is on that port. In that case, and without a
    /// reply, the container is removed and the create fails with
    /// `VmCommandFailed`.
    pub fn finish_create(&mut self, container_id: &String, acknowledged: Option<u32>) -> (told:
        Result<(), Error>)
        ensures
            told == create_outcome(old(self)@, container_id@, acknowledged),
            final(self)@ == registry_after_create(old(self)@, container_id@, acknowledged),
            final(self)@.dom().finite(),
            ports_distinct(final(self)@),
    {
        match self.get(container_id) {
            Some(state) => {
                if state.status != VmStatus::Creating {
                    return Err(Error::UnexpectedContainerStatus(state.status));
                }
            },
            None => {
                return Err(Error::ContainerNotFound);
            },
        }
        let taken = match self.take(container_id) {
            Some(taken) => taken,
            None => {
                return Err(Error::ContainerNotFound);
            },
        };
        match acknowledged {
            Some(port) => {
                if self.holds_port(port) {
                    Err(Error::VmCommandFailed)
                } else {
                    let state = ContainerState {
                        bundle: taken.bundle,
                        status: VmStatus::Created,
                        vsock_port: port,
                    };
                    self.insert(container_id.clone(), state);
                    assert(final(self)@ =~= registry_after_create(
                        old(self)@,
                        container_id@,
                        acknowledged,
                    ));
                    Ok(())
                }
            },
            None => Err(Error::VmCommandFailed),
        }
    }

    /// The command that tells the guest to start a `Created` container.
    pub fn start(&self, container_id: &String) -> (planned: Result<Vec<Command>, Error>)
        ensures
            agrees(planned, plan(self@, Operation::Start, container_id@)),
    {
        self.request(Operation::Start, container_id)
    }

    /// Finishes a start: a `Created` container whose command was delivered is
    /// `Running`; otherwise nothing changes.
    pub fn finish_start(&mut self, container_id: &String, delivered: bool) -> (told: Result<
        (),
        Error,
    >)
        ensures
            told == outcome(old(self)@, Operation::Start, container_id@, delivered),
            final(self)@ == registry_after_finish(
                old(self)@,
                Operation::Start,
                container_id@,
                delivered,
            ),
            final(self)@.dom().finite(),
            ports_distinct(final(self)@),
    {
        self.finish(Operation::Start, container_id, delivered)
    }

    /// The command that tells the guest to kill a `Created` or `Running`
    /// container.
    pub fn kill(&self, container_id: &String) -> (planned: Result<Vec<Command>, Error>)
        ensures
            agrees(planned, plan(self@, Operation::Kill, container_id@)),
    {
        self.request(Operation::Kill, container_id)
    }

    /// Finishes a kill: a `Created` or `Running` container whose command was
    /// delivered is `Stopped`; otherwise nothing changes.
    pub fn finish_kill(&mut self, container_id: &String, delivered: bool) -> (told: Result<
        (),
        Error,
    >)
        ensures
            told == outcome(old(self)@, Operation::Kill, container_id@, delivered),
            final(self)@ == registry_after_finish(
                old(self)@,
                Operation::Kill,
                container_id@,
                delivered,
            ),
            final(self)@.dom().finite(),
            ports_distinct(final(self)@),
    {
        self.finish(Operation::Kill, container_id, delivered)
    }

    /// The commands that tell the guest to delete a `Created` or `Stopped`
    /// container and that close its guest channel.
    pub fn delete(&self, container_id: &String) -> (planned: Result<Vec<Command>, Error>)
        ensures
            agrees(planned, plan(self@, Operation::Delete, container_id@)),
    {
        self.request(Operation::Delete, container_id)
    }

    /// Finishes a delete: a `Created` or `Stopped` container whose commands
    /// were delivered is removed; otherwise nothing changes.
    pub fn finish_delete(&mut self, container_id: &String, delivered: bool) -> (told: Result<
        (),
        Error,
    >)
        ensures
            told == outcome(old(self)@, Operation::Delete, container_id@, delivered),
            final(self)@ == registry_after_finish(
                old(self)@,
                Operation::Delete,
                container_id@,
                delivered,
            ),
            final(self)@.dom().finite(),
            ports_distinct(final(self)@),
    {
        self.finish(Operation::Delete, container_id, delivered)
    }

    /// The command that asks the guest for the state of a container.
    pub fn state(&self, container_id: &String) -> (planned: Result<Vec<Command>, Error>)
        ensures
            agrees(planned, plan(self@, Operation::State, container_id@)),
    {
        self.request(Operation::State, container_id)
    }

    /// Finishes a state query: what the registry records of the container,
    /// without a process identifier, if the command was delivered.
    pub fn finish_state(&self, container_id: &String, delivered: bool) -> (told: Result<
        Response,
        Error,
    >)
        ensures
            match told {
                Ok(response) => {
                    &&& outcome(self@, Operation::State, container_id@, delivered) is Ok
                    &&& response@ == ResponseView {
                        container_id: container_id@,
                        status: self@[container_id@].status,
                        pid: None,
                        bundle: self@[container_id@].bundle,
                    }
                },
                Err(e) => outcome(self@, Operation::State, container_id@, delivered) == Err::<
                    (),
                    Error,
                >(e),
            },
    {
        match self.resolve(Operation::State, container_id) {
            Ok(state) => if delivered {
                Ok(
                    Response {
                        container_id: container_id.clone(),
                        status: state.status,
                        pid: None,
                        bundle: state.bundle,
                    },
                )
            } else {
                Err(Error::VmCommandFailed)
            },
            Err(e) => Err(e),
        }
    }

    /// Whether a guest session may be handed to the container: only a
    /// `Running` container accepts one. Nothing is sent to the guest and
    /// nothing changes.
    pub fn connect(&self, container_id: &String, port: u32) -> (told: Result<(), Error>)
        ensures
            told == admission(self@, Operation::Connect, container_id@),
    {
        match self.resolve(Operation::Connect, container_id) {
            Ok(_) => Ok(()),
            Err(e) => Err(e),
        }
    }
}

} // verus!
