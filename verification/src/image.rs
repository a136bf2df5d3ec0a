//! The image descriptor: a value that says which container to create and how.
//! It is built step by step; each step takes a descriptor and returns a new
//! one that differs in one attribute.

use crate::string_map::{distinct_keys, put, StringMap};
use crate::wait::{WaitFor, WaitForView};
use vstd::prelude::*;
use vstd::string::*;

verus! {

/// A port of the host paired with a port of the container.
#[derive(Clone, Copy, Debug, PartialEq, Eq)]
pub struct Port {
    pub host: u16,
    pub container: u16,
}

/// Describes a container to create.
#[must_use]
#[derive(Clone, Debug)]
pub struct DockerImage {
    pub image: String,
    pub image_tag: Option<String>,
    pub entrypoint: Vec<String>,
    pub exposed_ports: Vec<Port>,
    pub port_mapping: Vec<Port>,
    pub cmd: Vec<String>,
    pub labels: StringMap<String>,
    pub tmpfs: StringMap<String>,
    pub registry_credentials: Option<String>,
    pub hostname: Vec<String>,
    pub extra_hosts: Vec<String>,
    pub container_name: Option<String>,
    pub networks: Vec<String>,
    pub network_aliases: StringMap<Vec<String>>,
    pub network_mode: Option<String>,
    pub env_vars: StringMap<String>,
    pub volumes: StringMap<String>,
    pub privileged: bool,
    pub shm_size: Option<i64>,
    pub waiting_for: Vec<WaitFor>,
}

/// What a descriptor says, with every string as its text. The maps are given
/// by their entries, in the order of insertion.
pub struct DockerImageView {
    pub image: Seq<char>,
    pub image_tag: Option<Seq<char>>,
    pub entrypoint: Seq<Seq<char>>,
    pub exposed_ports: Seq<Port>,
    pub port_mapping: Seq<Port>,
    pub cmd: Seq<Seq<char>>,
    pub labels: Seq<(Seq<char>, Seq<char>)>,
    pub tmpfs: Seq<(Seq<char>, Seq<char>)>,
    pub registry_credentials: Option<Seq<char>>,
    pub hostname: Seq<Seq<char>>,
    pub extra_hosts: Seq<Seq<char>>,
    pub container_name: Option<Seq<char>>,
    pub networks: Seq<Seq<char>>,
    pub network_aliases: Seq<(Seq<char>, Seq<Seq<char>>)>,
    pub network_mode: Option<Seq<char>>,
    pub env_vars: Seq<(Seq<char>, Seq<char>)>,
    pub volumes: Seq<(Seq<char>, Seq<char>)>,
    pub privileged: bool,
    pub shm_size: Option<i64>,
    pub waiting_for: Seq<WaitForView>,
}

impl DockerImageView {
    /// The descriptor of the image `image` with nothing else set.
    pub open spec fn named(image: Seq<char>) -> DockerImageView {
        DockerImageView {
            image,
            image_tag: None,
            entrypoint: Seq::empty(),
            exposed_ports: Seq::empty(),
            port_mapping: Seq::empty(),
            cmd: Seq::empty(),
            labels: Seq::empty(),
            tmpfs: Seq::empty(),
            registry_credentials: None,
            hostname: Seq::empty(),
            extra_hosts: Seq::empty(),
            container_name: None,
            networks: Seq::empty(),
            network_aliases: Seq::empty(),
            network_mode: None,
            env_vars: Seq::empty(),
            volumes: Seq::empty(),
            privileged: false,
            shm_size: None,
            waiting_for: Seq::empty(),
        }
    }

    /// The tag under which the image is asked for: the one that was set, or
    /// `latest`.
    pub open spec fn tag(self) -> Seq<char> {
        match self.image_tag {
            Some(tag) => tag,
            None => "latest"@,
        }
    }

    /// The image reference: the name, a colon and the tag.
    pub open spec fn descriptor(self) -> Seq<char> {
        self.image + ":"@ + self.tag()
    }
}

/// `ports` with `port` in it: unchanged where it holds the pair already, with
/// the pair at the end where it does not.
pub open spec fn with_port(ports: Seq<Port>, port: Port) -> Seq<Port> {
    if ports.contains(port) {
        ports
    } else {
        ports.push(port)
    }
}

/// The image reference of a descriptor that was made for a name and given a
/// tag is the name, a colon and that tag; the reference of one that was given
/// no tag ends in `latest`.
pub proof fn lemma_descriptor(name: Seq<char>, tag: Seq<char>)
    ensures
        (DockerImageView { image_tag: Some(tag), ..DockerImageView::named(name) }).descriptor()
            == name + ":"@ + tag,
        DockerImageView::named(name).descriptor() == name + ":"@ + "latest"@,
{
}

impl View for DockerImage {
    type V = DockerImageView;

    open spec fn view(&self) -> DockerImageView {
        DockerImageView {
            image: self.image@,
            image_tag: self.image_tag.deep_view(),
            entrypoint: self.entrypoint.deep_view(),
            exposed_ports: self.exposed_ports@,
            port_mapping: self.port_mapping@,
            cmd: self.cmd.deep_view(),
            labels: self.labels@,
            tmpfs: self.tmpfs@,
            registry_credentials: self.registry_credentials.deep_view(),
            hostname: self.hostname.deep_view(),
            extra_hosts: self.extra_hosts.deep_view(),
            container_name: self.container_name.deep_view(),
            networks: self.networks.deep_view(),
            network_aliases: self.network_aliases@,
            network_mode: self.network_mode.deep_view(),
            env_vars: self.env_vars@,
            volumes: self.volumes@,
            privileged: self.privileged,
            shm_size: self.shm_size,
            waiting_for: self.waiting_for.deep_view(),
        }
    }
}

impl Default for DockerImage {
    /// The descriptor with an empty image name and nothing else set.
    fn default() -> (image: DockerImage)
        ensures
            image@ == DockerImageView::named(Seq::empty()),
    {
        let image = DockerImage {
            image: String::new(),
            image_tag: None,
            entrypoint: Vec::new(),
            exposed_ports: Vec::new(),
            port_mapping: Vec::new(),
            cmd: Vec::new(),
            labels: StringMap::new(),
            tmpfs: StringMap::new(),
            registry_credentials: None,
            hostname: Vec::new(),
            extra_hosts: Vec::new(),
            container_name: None,
            networks: Vec::new(),
            network_aliases: StringMap::new(),
            network_mode: None,
            env_vars: StringMap::new(),
            volumes: StringMap::new(),
            privileged: false,
            shm_size: None,
            waiting_for: Vec::new(),
        };
        assert(image@.entrypoint =~= Seq::empty());
        assert(image@.cmd =~= Seq::empty());
        assert(image@.hostname =~= Seq::empty());
        assert(image@.extra_hosts =~= Seq::empty());
        assert(image@.networks =~= Seq::empty());
        assert(image@.waiting_for =~= Seq::empty());
        image
    }
}

impl DockerImage {
    /// The image reference that the daemon is asked for: the image name, a
    /// colon and the tag, where the tag is `latest` if none was set.
    pub fn descriptor(&self) -> (reference: String)
        ensures
            reference@ == self@.descriptor(),
    {
        let mut reference = self.image.clone();
        reference.append(":");
        match &self.image_tag {
            Some(tag) => {
                reference.append(tag.as_str());
            },
            None => {
                reference.append("latest");
            },
        }
        reference
    }

    /// The descriptor of the image `image`, with no tag and nothing else set.
    pub fn new(image: &str) -> (created: DockerImage)
        ensures
            created@ == DockerImageView::named(image@),
    {
        let mut created = DockerImage::default();
        created.image = image.to_owned();
        created
    }

    /// This descriptor with the tag `tag`.
    pub fn with_tag(self, tag: &str) -> (changed: DockerImage)
        ensures
            changed@ == (DockerImageView { image_tag: Some(tag@), ..self@ }),
    {
        let mut changed = self;
        changed.image_tag = Some(tag.to_owned());
        changed
    }

    /// This descriptor with the container name `name`.
    pub fn with_container_name(self, name: &str) -> (changed: DockerImage)
        ensures
            changed@ == (DockerImageView { container_name: Some(name@), ..self@ }),
    {
        let mut changed = self;
        changed.container_name = Some(name.to_owned());
        changed
    }

    /// This descriptor with `network` added after the networks it is a member
    /// of.
    pub fn with_network(self, network: &str) -> (changed: DockerImage)
        ensures
            changed@ == (DockerImageView { networks: self@.networks.push(network@), ..self@ }),
    {
        let mut changed = self;
        changed.networks.push(network.to_owned());
        assert(changed@.networks =~= self@.networks.push(network@));
        changed
    }

    /// This descriptor with the environment variable `key` set to `value`; a
    /// variable that was set before takes the new value.
    pub fn with_env_var(self, key: &str, value: &str) -> (changed: DockerImage)
        ensures
            changed@ == (DockerImageView {
                env_vars: put(self@.env_vars, key@, value@),
                ..self@
            }),
            distinct_keys(changed@.env_vars),
    {
        let mut changed = self;
        changed.env_vars.insert(key.to_owned(), value.to_owned());
        changed
    }

    /// This descriptor with the host path `src` mounted at the container path
    /// `dest`; a host path that was mounted before is mounted at the new place.
    pub fn with_volume(self, src: &str, dest: &str) -> (changed: DockerImage)
        ensures
            changed@ == (DockerImageView { volumes: put(self@.volumes, src@, dest@), ..self@ }),
            distinct_keys(changed@.volumes),
    {
        let mut changed = self;
        changed.volumes.insert(src.to_owned(), dest.to_owned());
        changed
    }

    /// This descriptor with the container port `container_port` exposed and
    /// mapped to the host port `host_port`. The exposed ports are a set: a pair
    /// that is listed already is not listed again.
    pub fn with_mapped_port(self, host_port: u16, container_port: u16) -> (changed: DockerImage)
        ensures
            changed@ == (DockerImageView {
                exposed_ports: with_port(
                    self@.exposed_ports,
                    Port { host: host_port, container: container_port },
                ),
                ..self@
            }),
            self@.exposed_ports.no_duplicates() ==> changed@.exposed_ports.no_duplicates(),
    {
        let port = Port { host: host_port, container: container_port };
        let mut changed = self;
        let mut at: usize = 0;
        while at < changed.exposed_ports.len()
            invariant
                at <= changed.exposed_ports.len(),
                changed == self,
                port == (Port { host: host_port, container: container_port }),
                forall|i: int| 0 <= i < at ==> changed.exposed_ports[i] != port,
            decreases changed.exposed_ports.len() - at,
        {
            let listed = &changed.exposed_ports[at];
            if listed.host == host_port && listed.container == container_port {
                assert(self@.exposed_ports[at as int] == port);
                return changed;
            }
            at = at + 1;
        }
        changed.exposed_ports.push(port);
        changed
    }

    /// This descriptor with the privileged flag set to `privileged`.
    pub fn with_privileged(self, privileged: bool) -> (changed: DockerImage)
        ensures
            changed@ == (DockerImageView { privileged, ..self@ }),
    {
        let mut changed = self;
        changed.privileged = privileged;
        changed
    }

    /// This descriptor with a shared-memory size of `bytes` bytes.
    pub fn with_shm_size(self, bytes: i64) -> (changed: DockerImage)
        ensures
            changed@ == (DockerImageView { shm_size: Some(bytes), ..self@ }),
    {
        let mut changed = self;
        changed.shm_size = Some(bytes);
        changed
    }
}

} // verus!
