//! The container handle: the identity of one container and where it stands in
//! its life. The handle sends nothing itself. Each operation says which
//! request the backend is to send, and the backend's answers are handed back.
//! The handle sees to it that a container is asked to be removed exactly once.

use crate::address::{Family, IpAddress};
use crate::client::{
    error_view, host, host_of, inspect, network_view, ports, ports_of, removal, rm, start, stop,
    Error, ErrorView, NetworkSettings, NetworkView, Request, RequestView,
};
use crate::image::{DockerImage, DockerImageView};
use crate::ports::lookup;
use vstd::prelude::*;

verus! {

/// Where a container stands in its life.
#[derive(Clone, Copy, Debug, PartialEq, Eq)]
pub enum Lifecycle {
    /// Created and not started.
    Created,
    /// The daemon has started it.
    Started,
    /// The daemon has stopped it.
    Stopped,
    /// Its removal has been asked for. Nothing follows this state.
    Removed,
}

/// An operation that changes where a container stands in its life once the
/// daemon has carried it out.
#[derive(Clone, Copy, Debug, PartialEq, Eq)]
pub enum Operation {
    Start,
    Stop,
}

/// What can happen to a handle.
pub enum Event {
    /// The caller asks to start the container.
    Start,
    /// The caller asks to stop the container.
    Stop,
    /// The caller asks to remove the container.
    Remove,
    /// The caller asks for the network settings of the container.
    Inspect,
    /// The daemon has carried out an operation.
    Acknowledge(Operation),
    /// The handle is given up.
    Release,
}

/// A container handle: the identifier that the daemon gave the container, the
/// descriptor that it was created from, and where it stands in its life.
#[derive(Debug)]
pub struct Container {
    id: String,
    image: DockerImage,
    state: Lifecycle,
}

/// A handle with its strings as text.
pub struct ContainerView {
    pub id: Seq<char>,
    pub image: DockerImageView,
    pub state: Lifecycle,
}

impl View for Container {
    type V = ContainerView;

    closed spec fn view(&self) -> ContainerView {
        ContainerView { id: self.id@, image: self.image@, state: self.state }
    }
}

/// Where a container stands once the daemon has carried out `operation`. A
/// removed container stays removed.
pub open spec fn acknowledged(state: Lifecycle, operation: Operation) -> Lifecycle {
    if state is Removed {
        Lifecycle::Removed
    } else {
        match operation {
            Operation::Start => Lifecycle::Started,
            Operation::Stop => Lifecycle::Stopped,
        }
    }
}

/// Where a container stands after `event`. Asking for its removal and giving
/// the handle up lead to `Removed`, from every state and whatever the daemon
/// answers. Asking to start, to stop or to inspect changes nothing by itself:
/// the state follows what the daemon has carried out.
pub open spec fn next_state(state: Lifecycle, event: Event) -> Lifecycle {
    match event {
        Event::Start | Event::Stop | Event::Inspect => state,
        Event::Remove | Event::Release => Lifecycle::Removed,
        Event::Acknowledge(operation) => acknowledged(state, operation),
    }
}

/// The request that `event` makes the handle of the container `id` issue in
/// the state `state`, if it issues one. A removed container issues none.
pub open spec fn issued(id: Seq<char>, state: Lifecycle, event: Event) -> Option<RequestView> {
    if state is Removed {
        None
    } else {
        match event {
            Event::Start => Some(RequestView::Start { id }),
            Event::Stop => Some(RequestView::Stop { id }),
            Event::Remove | Event::Release => Some(RequestView::Remove(removal(id))),
            Event::Inspect => Some(RequestView::Inspect { id }),
            Event::Acknowledge(_) => None,
        }
    }
}

/// What an operation of the caller returns: the request to send, or the error
/// that the container has been removed.
pub open spec fn asked(id: Seq<char>, state: Lifecycle, event: Event) -> Result<
    RequestView,
    ErrorView,
> {
    match issued(id, state, event) {
        Some(request) => Ok(request),
        None => Err(ErrorView::AlreadyRemoved),
    }
}

/// Where a container stands after the events `events`, one after the other.
pub open spec fn state_after(state: Lifecycle, events: Seq<Event>) -> Lifecycle
    decreases events.len(),
{
    if events.len() == 0 {
        state
    } else {
        next_state(state_after(state, events.drop_last()), events.last())
    }
}

/// The requests that the handle of the container `id` issues over the events
/// `events`, in their order, from the state `state` on.
pub open spec fn requests_over(id: Seq<char>, state: Lifecycle, events: Seq<Event>) -> Seq<
    RequestView,
>
    decreases events.len(),
{
    if events.len() == 0 {
        Seq::empty()
    } else {
        let earlier = requests_over(id, state, events.drop_last());
        match issued(id, state_after(state, events.drop_last()), events.last()) {
            Some(request) => earlier.push(request),
            None => earlier,
        }
    }
}

/// How many of `requests` ask for a removal.
pub open spec fn removals(requests: Seq<RequestView>) -> nat
    decreases requests.len(),
{
    if requests.len() == 0 {
        0
    } else {
        removals(requests.drop_last()) + if requests.last() is Remove {
            1nat
        } else {
            0nat
        }
    }
}

/// A request with its strings as text, or an error with its.
pub open spec fn request_view(result: Result<Request, Error>) -> Result<RequestView, ErrorView> {
    match result {
        Ok(request) => Ok(request@),
        Err(error) => Err(error@),
    }
}

/// What reading a container's address from the network settings gives: the
/// error that the container has been removed, or what the settings say.
pub open spec fn host_read(state: Lifecycle, network: NetworkView) -> Result<
    IpAddress,
    ErrorView,
> {
    if state is Removed {
        Err(ErrorView::AlreadyRemoved)
    } else {
        host_of(network)
    }
}

/// What reading a published port from the network settings gives: the error
/// that the container has been removed, the error of the port table, or the
/// host port under which the container port is published for the family, if
/// it is.
pub open spec fn port_read(
    state: Lifecycle,
    network: NetworkView,
    family: Family,
    internal_port: u16,
) -> Result<Option<u16>, ErrorView> {
    if state is Removed {
        Err(ErrorView::AlreadyRemoved)
    } else {
        match ports_of(network) {
            Ok(published) => Ok(lookup(published.of(family), internal_port)),
            Err(error) => Err(error),
        }
    }
}

impl Container {
    /// The handle of the container that the daemon has created under the
    /// identifier `id` from the descriptor `image`. The container is created
    /// and not started.
    pub fn new(id: String, image: DockerImage) -> (container: Container)
        ensures
            container@ == (ContainerView { id: id@, image: image@, state: Lifecycle::Created }),
    {
        Container { id, image, state: Lifecycle::Created }
    }

    /// The identifier of the container.
    pub fn id(&self) -> (id: &str)
        ensures
            id@ == self@.id,
    {
        self.id.as_str()
    }

    /// The descriptor that the container was created from.
    pub fn image(&self) -> (image: &DockerImage)
        ensures
            image@ == self@.image,
    {
        &self.image
    }

    /// Where the container stands in its life.
    pub fn state(&self) -> (state: Lifecycle)
        ensures
            state == self@.state,
    {
        self.state
    }

    /// Whether the removal of the container has been asked for.
    fn is_removed(&self) -> (removed: bool)
        ensures
            removed == (self@.state is Removed),
    {
        match self.state {
            Lifecycle::Removed => true,
            _ => false,
        }
    }

    /// Asks to start the container: gives the request to send, or fails where
    /// the container has been removed.
    pub fn start(&self) -> (request: Result<Request, Error>)
        ensures
            request_view(request) == asked(self@.id, self@.state, Event::Start),
    {
        if self.is_removed() {
            Err(Error::AlreadyRemoved)
        } else {
            Ok(start(self.id.as_str()))
        }
    }

    /// Asks to stop the container: gives the request to send, or fails where
    /// the container has been removed.
    pub fn stop(&self) -> (request: Result<Request, Error>)
        ensures
            request_view(request) == asked(self@.id, self@.state, Event::Stop),
    {
        if self.is_removed() {
            Err(Error::AlreadyRemoved)
        } else {
            Ok(stop(self.id.as_str()))
        }
    }

    /// Asks to remove the container: gives the request to send, or fails where
    /// the removal has been asked for before. From here on the container
    /// counts as removed, whatever the daemon answers.
    pub fn rm(&mut self) -> (request: Result<Request, Error>)
        ensures
            request_view(request) == asked(old(self)@.id, old(self)@.state, Event::Remove),
            final(self)@ == (ContainerView {
                state: next_state(old(self)@.state, Event::Remove),
                ..old(self)@
            }),
    {
        if self.is_removed() {
            Err(Error::AlreadyRemoved)
        } else {
            self.state = Lifecycle::Removed;
            Ok(Request::Remove(rm(self.id.as_str())))
        }
    }

    /// Gives the handle up: gives the request that removes the container,
    /// unless its removal has been asked for before. This is the cleanup for a
    /// handle that goes out of use; whether the request then fails is of no
    /// consequence to the handle.
    pub fn release(&mut self) -> (request: Option<Request>)
        ensures
            request.deep_view() == issued(old(self)@.id, old(self)@.state, Event::Release),
            final(self)@ == (ContainerView {
                state: next_state(old(self)@.state, Event::Release),
                ..old(self)@
            }),
    {
        if self.is_removed() {
            None
        } else {
            self.state = Lifecycle::Removed;
            Some(Request::Remove(rm(self.id.as_str())))
        }
    }

    /// Takes the daemon's answer to the request of `operation`. Where the
    /// daemon has carried the operation out, the container stands where the
    /// operation leads, unless it has been removed meanwhile; where the daemon
    /// has refused, nothing changes. The answer is handed on as it came.
    pub fn completed<E>(&mut self, operation: Operation, answer: Result<(), E>) -> (outcome: Result<
        (),
        E,
    >)
        ensures
            outcome == answer,
            final(self)@ == (ContainerView {
                state: if answer is Ok {
                    next_state(old(self)@.state, Event::Acknowledge(operation))
                } else {
                    old(self)@.state
                },
                ..old(self)@
            }),
    {
        if answer.is_ok() && !self.is_removed() {
            self.state = match operation {
                Operation::Start => Lifecycle::Started,
                Operation::Stop => Lifecycle::Stopped,
            };
        }
        answer
    }

    /// Asks for the network settings of the container, from which its address
    /// and its published ports are read: gives the request to send, or fails
    /// where the container has been removed.
    pub fn inspect(&self) -> (request: Result<Request, Error>)
        ensures
            request_view(request) == asked(self@.id, self@.state, Event::Inspect),
    {
        if self.is_removed() {
            Err(Error::AlreadyRemoved)
        } else {
            Ok(inspect(self.id.as_str()))
        }
    }

    /// The address of the container, read from the network settings that an
    /// inspection gave.
    pub fn host(&self, network: Option<NetworkSettings>) -> (address: Result<IpAddress, Error>)
        ensures
            error_view(address) == host_read(self@.state, network_view(network)),
    {
        if self.is_removed() {
            Err(Error::AlreadyRemoved)
        } else {
            host(network)
        }
    }

    /// The host port under which the container port `internal_port` is
    /// published for IPv4, read from the network settings that an inspection
    /// gave.
    pub fn mapped_port_ipv4(&self, network: Option<NetworkSettings>, internal_port: u16) -> (host:
        Result<Option<u16>, Error>)
        ensures
            error_view(host) == port_read(
                self@.state,
                network_view(network),
                Family::V4,
                internal_port,
            ),
    {
        if self.is_removed() {
            Err(Error::AlreadyRemoved)
        } else {
            match ports(network) {
                Ok(published) => Ok(published.mapped_port_ipv4(internal_port)),
                Err(error) => Err(error),
            }
        }
    }

    /// The host port under which the container port `internal_port` is
    /// published for IPv6, read from the network settings that an inspection
    /// gave.
    pub fn mapped_port_ipv6(&self, network: Option<NetworkSettings>, internal_port: u16) -> (host:
        Result<Option<u16>, Error>)
        ensures
            error_view(host) == port_read(
                self@.state,
                network_view(network),
                Family::V6,
                internal_port,
            ),
    {
        if self.is_removed() {
            Err(Error::AlreadyRemoved)
        } else {
            match ports(network) {
                Ok(published) => Ok(published.mapped_port_ipv6(internal_port)),
                Err(error) => Err(error),
            }
        }
    }
}

/// `Removed` is terminal: whatever happens to a removed container, it stays
/// removed and its handle issues no request.
pub proof fn lemma_removed_is_terminal(id: Seq<char>, events: Seq<Event>)
    ensures
        state_after(Lifecycle::Removed, events) == Lifecycle::Removed,
        requests_over(id, Lifecycle::Removed, events) == Seq::<RequestView>::empty(),
    decreases events.len(),
{
    if events.len() > 0 {
        lemma_removed_is_terminal(id, events.drop_last());
    }
}

/// Whether a removal has been asked for or the handle given up among the
/// events.
pub open spec fn ends_handle(events: Seq<Event>) -> bool {
    exists|i: int| 0 <= i < events.len() && (#[trigger] events[i] is Remove || events[i] is Release)
}

/// Over any run of events the handle of a container that is not removed
/// issues one request for removal if a removal is asked for or the handle is
/// given up among them, and none otherwise; after such an event the container
/// is removed.
pub proof fn lemma_removals(id: Seq<char>, state: Lifecycle, events: Seq<Event>)
    requires
        !(state is Removed),
    ensures
        removals(requests_over(id, state, events)) == (if ends_handle(events) {
            1nat
        } else {
            0nat
        }),
        state_after(state, events) is Removed <==> ends_handle(events),
    decreases events.len(),
{
    if events.len() > 0 {
        let front = events.drop_last();
        let last = events.last();
        lemma_removals(id, state, front);
        let earlier = requests_over(id, state, front);
        if ends_handle(front) {
            let i = choose|i: int|
                0 <= i < front.len() && (#[trigger] front[i] is Remove || front[i] is Release);
            assert(events[i] == front[i]);
            assert(events[i] is Remove || events[i] is Release);
        } else {
            if last is Remove || last is Release {
                assert(events[events.len() - 1] is Remove || events[events.len() - 1] is Release);
                let request = issued(id, state_after(state, front), last)->0;
                assert(earlier.push(request).drop_last() == earlier);
            } else {
                if ends_handle(events) {
                    let i = choose|i: int|
                        0 <= i < events.len() && (#[trigger] events[i] is Remove
                            || events[i] is Release);
                    assert(front[i] == events[i]);
                    assert(front[i] is Remove || front[i] is Release);
                }
                match issued(id, state_after(state, front), last) {
                    Some(request) => {
                        assert(earlier.push(request).drop_last() == earlier);
                    },
                    None => {},
                }
            }
        }
    }
}

/// Cleanup happens exactly once: however a handle is used, once it has been
/// given up it has issued exactly one request for the removal of its
/// container.
pub proof fn lemma_exactly_one_removal(id: Seq<char>, events: Seq<Event>)
    ensures
        removals(requests_over(id, Lifecycle::Created, events.push(Event::Release))) == 1,
{
    let all = events.push(Event::Release);
    assert(all[all.len() - 1] is Release);
    lemma_removals(id, Lifecycle::Created, all);
}

/// After an explicit removal, giving the handle up issues no request, and
/// neither does anything else.
pub proof fn lemma_no_removal_after_rm(id: Seq<char>, state: Lifecycle, events: Seq<Event>)
    ensures
        requests_over(id, next_state(state, Event::Remove), events) == Seq::<RequestView>::empty(),
        issued(id, state_after(next_state(state, Event::Remove), events), Event::Release) is None,
{
    lemma_removed_is_terminal(id, events);
}

} // verus!
