//! What passes between the core and a container daemon: the requests that a
//! backend is to send, and the reading of what the daemon answers. Nothing here
//! talks to a daemon; a backend sends the requests and hands the answers back.

use crate::address::{HostAddress, IpAddress};
use crate::image::{DockerImage, DockerImageView, Port};
use crate::ports::{resolve, Ports, PortsView, RawPort, RawPortView};
use crate::text::{decimal_text, push_decimal, push_string};
use vstd::prelude::*;
use vstd::string::*;

verus! {

/// The request to create a container.
#[derive(Clone, Debug, PartialEq, Eq)]
pub struct CreateRequest {
    /// The name to give the container, if it is to have one.
    pub name: Option<String>,
    /// The image reference.
    pub image: String,
    /// The command arguments.
    pub cmd: Vec<String>,
    /// The entrypoint.
    pub entrypoint: Vec<String>,
    /// One key for each exposed port, made of the container port and `/tcp`.
    pub exposed_ports: Vec<String>,
    /// One entry for each volume, made of the host path, a colon and the
    /// container path.
    pub volumes: Vec<String>,
    /// The size of the shared memory in bytes.
    pub shm_size: Option<i64>,
}

/// The request to open the log of a container: the chosen streams, from the
/// first line (`all`) or the last `tail` lines on, and kept open for the lines
/// to come where `follow` is set.
#[derive(Clone, Debug, PartialEq, Eq)]
pub struct LogsRequest {
    pub id: String,
    pub follow: bool,
    pub stdout: bool,
    pub stderr: bool,
    pub tail: String,
}

/// The request to remove the container `id`: a running one too where `force`
/// is set, with its volumes where `volumes` is set.
#[derive(Clone, Debug, PartialEq, Eq)]
pub struct RemoveRequest {
    pub id: String,
    pub force: bool,
    pub volumes: bool,
}

/// A request that the handle of a container issues.
#[derive(Clone, Debug, PartialEq, Eq)]
pub enum Request {
    /// Start the container `id`.
    Start { id: String },
    /// Stop the container `id`.
    Stop { id: String },
    /// Remove a container.
    Remove(RemoveRequest),
    /// Report the network settings of the container `id`.
    Inspect { id: String },
}

/// The network settings of a container, as the daemon reports them on
/// inspection.
#[derive(Clone, Debug, PartialEq, Eq)]
pub struct NetworkSettings {
    /// The address of the container.
    pub ip_address: Option<HostAddress>,
    /// The port table of the container.
    pub ports: Option<Vec<RawPort>>,
}

/// What can go wrong between the core and a daemon, as far as the core
/// decides it. The errors of the daemon itself are the backend's.
#[derive(Clone, Debug, PartialEq, Eq)]
pub enum Error {
    /// The daemon reports no address for the container.
    MissingHost,
    /// The daemon reports the address `addr`, which is malformed.
    ParseAddr { addr: String },
    /// The daemon reports the host port `port`, which is no port number.
    UnparseablePort { port: String },
    /// The container has been removed: nothing more can be asked of it.
    AlreadyRemoved,
}

/// An error with every string as its text.
pub enum ErrorView {
    MissingHost,
    ParseAddr { addr: Seq<char> },
    UnparseablePort { port: Seq<char> },
    AlreadyRemoved,
}

impl View for Error {
    type V = ErrorView;

    open spec fn view(&self) -> ErrorView {
        match self {
            Error::MissingHost => ErrorView::MissingHost,
            Error::ParseAddr { addr } => ErrorView::ParseAddr { addr: addr@ },
            Error::UnparseablePort { port } => ErrorView::UnparseablePort { port: port@ },
            Error::AlreadyRemoved => ErrorView::AlreadyRemoved,
        }
    }
}

/// An address as a daemon reports it, with its words as text.
pub enum AddressView {
    Parsed(IpAddress),
    Malformed(Seq<char>),
}

/// What the core reads of the network settings that a daemon reports: the
/// address and the port table.
pub struct NetworkView {
    pub address: Option<AddressView>,
    pub ports: Seq<RawPortView>,
}

/// What the core reads of the network settings that an inspection gave. A
/// container without network settings has no address and an empty port table,
/// and network settings without a port table have an empty one.
pub open spec fn network_view(network: Option<NetworkSettings>) -> NetworkView {
    match network {
        Some(settings) => NetworkView {
            address: match settings.ip_address {
                Some(HostAddress::Parsed(address)) => Some(AddressView::Parsed(address)),
                Some(HostAddress::Malformed(words)) => Some(AddressView::Malformed(words@)),
                None => None,
            },
            ports: match settings.ports {
                Some(ports) => ports.deep_view(),
                None => Seq::empty(),
            },
        },
        None => NetworkView { address: None, ports: Seq::empty() },
    }
}

/// The address of a container with the network settings `network`: the
/// address that the daemon's words write. Without an address the host is
/// missing, and with words that write no address the address is malformed.
pub open spec fn host_of(network: NetworkView) -> Result<IpAddress, ErrorView> {
    match network.address {
        None => Err(ErrorView::MissingHost),
        Some(AddressView::Malformed(words)) => Err(ErrorView::ParseAddr { addr: words }),
        Some(AddressView::Parsed(address)) => Ok(address),
    }
}

/// The published ports of a container with the network settings `network`:
/// what its port table resolves to.
pub open spec fn ports_of(network: NetworkView) -> Result<PortsView, ErrorView> {
    match resolve(network.ports) {
        Ok(ports) => Ok(ports),
        Err(port) => Err(ErrorView::UnparseablePort { port }),
    }
}

/// A result with its error as text.
pub open spec fn error_view<T>(result: Result<T, Error>) -> Result<T, ErrorView> {
    match result {
        Ok(value) => Ok(value),
        Err(error) => Err(error@),
    }
}

/// The published ports that were found, or the error with its text.
pub open spec fn ports_view(result: Result<Ports, Error>) -> Result<PortsView, ErrorView> {
    match result {
        Ok(ports) => Ok(ports@),
        Err(error) => Err(error@),
    }
}

/// A request to create a container, with every string as its text.
pub struct CreateRequestView {
    pub name: Option<Seq<char>>,
    pub image: Seq<char>,
    pub cmd: Seq<Seq<char>>,
    pub entrypoint: Seq<Seq<char>>,
    pub exposed_ports: Seq<Seq<char>>,
    pub volumes: Seq<Seq<char>>,
    pub shm_size: Option<i64>,
}

/// A request to open a log, with every string as its text.
pub struct LogsRequestView {
    pub id: Seq<char>,
    pub follow: bool,
    pub stdout: bool,
    pub stderr: bool,
    pub tail: Seq<char>,
}

/// A request to remove a container, with its identifier as text.
pub struct RemoveRequestView {
    pub id: Seq<char>,
    pub force: bool,
    pub volumes: bool,
}

/// A request of a handle, with every string as its text.
pub enum RequestView {
    Start { id: Seq<char> },
    Stop { id: Seq<char> },
    Remove(RemoveRequestView),
    Inspect { id: Seq<char> },
}

/// The request that removes the container `id`, whether it runs or not, and
/// its volumes with it.
pub open spec fn removal(id: Seq<char>) -> RemoveRequestView {
    RemoveRequestView { id, force: true, volumes: true }
}

impl View for CreateRequest {
    type V = CreateRequestView;

    open spec fn view(&self) -> CreateRequestView {
        CreateRequestView {
            name: self.name.deep_view(),
            image: self.image@,
            cmd: self.cmd.deep_view(),
            entrypoint: self.entrypoint.deep_view(),
            exposed_ports: self.exposed_ports.deep_view(),
            volumes: self.volumes.deep_view(),
            shm_size: self.shm_size,
        }
    }
}

impl View for LogsRequest {
    type V = LogsRequestView;

    open spec fn view(&self) -> LogsRequestView {
        LogsRequestView {
            id: self.id@,
            follow: self.follow,
            stdout: self.stdout,
            stderr: self.stderr,
            tail: self.tail@,
        }
    }
}

impl View for RemoveRequest {
    type V = RemoveRequestView;

    open spec fn view(&self) -> RemoveRequestView {
        RemoveRequestView { id: self.id@, force: self.force, volumes: self.volumes }
    }
}

impl View for Request {
    type V = RequestView;

    open spec fn view(&self) -> RequestView {
        match self {
            Request::Start { id } => RequestView::Start { id: id@ },
            Request::Stop { id } => RequestView::Stop { id: id@ },
            Request::Remove(request) => RequestView::Remove(request@),
            Request::Inspect { id } => RequestView::Inspect { id: id@ },
        }
    }
}

impl DeepView for Request {
    type V = RequestView;

    open spec fn deep_view(&self) -> RequestView {
        self@
    }
}

/// The key under which the container port `port` is exposed: the port in
/// decimal, then `/tcp`.
pub open spec fn exposed_key(port: u16) -> Seq<char> {
    decimal_text(port as nat) + "/tcp"@
}

/// The keys of the exposed ports `ports`, one for each pair, in their order.
pub open spec fn exposed_keys(ports: Seq<Port>) -> Seq<Seq<char>> {
    Seq::new(ports.len(), |i: int| exposed_key(ports[i].container))
}

/// How the volume from the host path `src` to the container path `dest` is
/// written: the two paths with a colon between them.
pub open spec fn volume_entry(src: Seq<char>, dest: Seq<char>) -> Seq<char> {
    src + ":"@ + dest
}

/// The entries of the volumes `volumes`, one for each, in their order.
pub open spec fn volume_entries(volumes: Seq<(Seq<char>, Seq<char>)>) -> Seq<Seq<char>> {
    Seq::new(volumes.len(), |i: int| volume_entry(volumes[i].0, volumes[i].1))
}

/// The request that creates the container that `image` describes. It carries
/// the image reference, the command, the entrypoint, the exposed ports, the
/// volumes, the shared-memory size and the container's name.
pub open spec fn create_request(image: DockerImageView) -> CreateRequestView {
    CreateRequestView {
        name: image.container_name,
        image: image.descriptor(),
        cmd: image.cmd,
        entrypoint: image.entrypoint,
        exposed_ports: exposed_keys(image.exposed_ports),
        volumes: volume_entries(image.volumes),
        shm_size: image.shm_size,
    }
}

/// A copy of `strings`.
fn copy_strings(strings: &Vec<String>) -> (copy: Vec<String>)
    ensures
        copy.deep_view() == strings.deep_view(),
{
    let mut copy: Vec<String> = Vec::new();
    let mut at: usize = 0;
    while at < strings.len()
        invariant
            at <= strings.len(),
            copy.deep_view() == strings.deep_view().take(at as int),
        decreases strings.len() - at,
    {
        push_string(&mut copy, strings[at].clone());
        assert(copy.deep_view() =~= strings.deep_view().take(at + 1));
        at = at + 1;
    }
    assert(strings.deep_view().take(at as int) =~= strings.deep_view());
    copy
}

/// A copy of `string`, if there is one.
fn copy_option(string: &Option<String>) -> (copy: Option<String>)
    ensures
        copy.deep_view() == string.deep_view(),
{
    match string {
        Some(s) => Some(s.clone()),
        None => None,
    }
}

/// The request that creates the container that `image` describes.
pub fn create_container(image: &DockerImage) -> (request: CreateRequest)
    ensures
        request@ == create_request(image@),
{
    let mut exposed_ports: Vec<String> = Vec::new();
    let mut at: usize = 0;
    while at < image.exposed_ports.len()
        invariant
            at <= image.exposed_ports.len(),
            exposed_ports.deep_view() == exposed_keys(image@.exposed_ports).take(at as int),
        decreases image.exposed_ports.len() - at,
    {
        let mut key = String::new();
        push_decimal(&mut key, image.exposed_ports[at].container);
        key.append("/tcp");
        assert(key@ =~= exposed_key(image.exposed_ports[at as int].container));
        push_string(&mut exposed_ports, key);
        assert(exposed_ports.deep_view() =~= exposed_keys(image@.exposed_ports).take(at + 1));
        at = at + 1;
    }
    assert(exposed_keys(image@.exposed_ports).take(at as int) =~= exposed_keys(
        image@.exposed_ports,
    ));

    let mut volumes: Vec<String> = Vec::new();
    let count = image.volumes.len();
    let mut at: usize = 0;
    while at < count
        invariant
            at <= count == image.volumes@.len(),
            volumes.deep_view() == volume_entries(image@.volumes).take(at as int),
        decreases count - at,
    {
        let mut entry = image.volumes.key_at(at).clone();
        entry.append(":");
        entry.append(image.volumes.value_at(at).as_str());
        assert(entry@ =~= volume_entry(image@.volumes[at as int].0, image@.volumes[at as int].1));
        push_string(&mut volumes, entry);
        assert(volumes.deep_view() =~= volume_entries(image@.volumes).take(at + 1));
        at = at + 1;
    }
    assert(volume_entries(image@.volumes).take(at as int) =~= volume_entries(image@.volumes));

    CreateRequest {
        name: copy_option(&image.container_name),
        image: image.descriptor(),
        cmd: copy_strings(&image.cmd),
        entrypoint: copy_strings(&image.entrypoint),
        exposed_ports,
        volumes,
        shm_size: image.shm_size,
    }
}

/// The request that starts the container `id`.
pub fn start(id: &str) -> (request: Request)
    ensures
        request@ == (RequestView::Start { id: id@ }),
{
    Request::Start { id: id.to_owned() }
}

/// The request that stops the container `id`.
pub fn stop(id: &str) -> (request: Request)
    ensures
        request@ == (RequestView::Stop { id: id@ }),
{
    Request::Stop { id: id.to_owned() }
}

/// The request that removes the container `id`, whether it runs or not, and
/// its volumes with it.
pub fn rm(id: &str) -> (request: RemoveRequest)
    ensures
        request@ == removal(id@),
{
    RemoveRequest { id: id.to_owned(), force: true, volumes: true }
}

/// The request that reports the network settings of the container `id`, from
/// which its address and its published ports are read.
pub fn inspect(id: &str) -> (request: Request)
    ensures
        request@ == (RequestView::Inspect { id: id@ }),
{
    Request::Inspect { id: id.to_owned() }
}

/// The address of a container, read from the network settings that an
/// inspection gave.
pub fn host(network: Option<NetworkSettings>) -> (address: Result<IpAddress, Error>)
    ensures
        error_view(address) == host_of(network_view(network)),
{
    match network {
        Some(settings) => match settings.ip_address {
            Some(HostAddress::Parsed(address)) => Ok(address),
            Some(HostAddress::Malformed(words)) => Err(Error::ParseAddr { addr: words }),
            None => Err(Error::MissingHost),
        },
        None => Err(Error::MissingHost),
    }
}

/// The published ports of a container, read from the network settings that
/// an inspection gave.
pub fn ports(network: Option<NetworkSettings>) -> (published: Result<Ports, Error>)
    ensures
        ports_view(published) == ports_of(network_view(network)),
{
    let table = match network {
        Some(settings) => match settings.ports {
            Some(table) => table,
            None => Vec::new(),
        },
        None => Vec::new(),
    };
    assert(table.deep_view() =~= network_view(network).ports);
    match Ports::from(table) {
        Ok(found) => Ok(found),
        Err(error) => Err(Error::UnparseablePort { port: error.port }),
    }
}

/// The request that opens the standard output of the container `id`: every
/// line from the first on, and the lines to come as they are written.
pub fn stdout_logs(id: &str) -> (request: LogsRequest)
    ensures
        request@ == (LogsRequestView {
            id: id@,
            follow: true,
            stdout: true,
            stderr: false,
            tail: "all"@,
        }),
{
    LogsRequest {
        id: id.to_owned(),
        follow: true,
        stdout: true,
        stderr: false,
        tail: "all".to_owned(),
    }
}

/// The request that opens the standard error of the container `id`: every
/// line from the first on, and the lines to come as they are written.
pub fn stderr_logs(id: &str) -> (request: LogsRequest)
    ensures
        request@ == (LogsRequestView {
            id: id@,
            follow: true,
            stdout: false,
            stderr: true,
            tail: "all"@,
        }),
{
    LogsRequest {
        id: id.to_owned(),
        follow: true,
        stdout: false,
        stderr: true,
        tail: "all".to_owned(),
    }
}

} // verus!
