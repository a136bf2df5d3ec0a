//! The port resolver: from the port table that a daemon reports to the host
//! ports under which a container's ports are published, by address family.

use crate::address::{Family, HostAddress};
use crate::text::{find_char, parse_digits, port_number, prefix_before, to_chars};
use std::collections::HashMap;
use vstd::prelude::*;

verus! {

/// One binding of a container port to the host, as the daemon reports it.
#[derive(Clone, Debug, PartialEq, Eq)]
pub struct PortBinding {
    /// The host address that the port is bound to.
    pub host_ip: Option<HostAddress>,
    /// The host port, in the daemon's words.
    pub host_port: Option<String>,
}

/// One entry of the port table that a daemon reports: a key made of a
/// container port and a protocol, such as `80/tcp`, and the bindings of that
/// port.
#[derive(Clone, Debug, PartialEq, Eq)]
pub struct RawPort {
    pub key: String,
    pub bindings: Option<Vec<PortBinding>>,
}

/// A host port that is present and is no port number.
#[derive(Clone, Debug, PartialEq, Eq)]
pub struct UnparseablePort {
    /// The host port in the daemon's words.
    pub port: String,
}

/// What the resolver reads of a binding: the family of its host address,
/// where the address is present and well formed, and the text of its host
/// port, where that is present.
pub struct BindingView {
    pub family: Option<Family>,
    pub host_port: Option<Seq<char>>,
}

/// What the resolver reads of an entry: the key's text and the bindings. An
/// entry without a list of bindings has none.
pub struct RawPortView {
    pub key: Seq<char>,
    pub bindings: Seq<BindingView>,
}

impl View for PortBinding {
    type V = BindingView;

    open spec fn view(&self) -> BindingView {
        BindingView {
            family: match self.host_ip {
                Some(address) => address.family_of(),
                None => None,
            },
            host_port: self.host_port.deep_view(),
        }
    }
}

impl DeepView for PortBinding {
    type V = BindingView;

    open spec fn deep_view(&self) -> BindingView {
        self@
    }
}

impl View for RawPort {
    type V = RawPortView;

    open spec fn view(&self) -> RawPortView {
        RawPortView {
            key: self.key@,
            bindings: match self.bindings {
                Some(bindings) => bindings.deep_view(),
                None => Seq::empty(),
            },
        }
    }
}

impl DeepView for RawPort {
    type V = RawPortView;

    open spec fn deep_view(&self) -> RawPortView {
        self@
    }
}

/// The container port that a key names: the number written before the first
/// `/`, or by the whole key where it has no `/`. A key whose port part is no
/// port number names none.
pub open spec fn internal_port(key: Seq<char>) -> Option<u16> {
    port_number(prefix_before(key, '/'))
}

/// The bindings of one entry, each with the container port of the entry. An
/// entry whose key names no port has none.
pub open spec fn entry_bindings(entry: RawPortView) -> Seq<(u16, BindingView)> {
    match internal_port(entry.key) {
        Some(port) => Seq::new(entry.bindings.len(), |i: int| (port, entry.bindings[i])),
        None => Seq::empty(),
    }
}

/// The bindings of a table in the order of the table, each with its container
/// port. The entries whose key names no port are left out.
pub open spec fn table_bindings(table: Seq<RawPortView>) -> Seq<(u16, BindingView)>
    decreases table.len(),
{
    if table.len() == 0 {
        Seq::empty()
    } else {
        table_bindings(table.drop_last()) + entry_bindings(table.last())
    }
}

/// Whether the binding has a host port that is no port number.
pub open spec fn malformed(binding: BindingView) -> bool {
    binding.host_port matches Some(text) && port_number(text) is None
}

/// The host port of the first binding that has one that is no port number.
pub open spec fn first_malformed(bindings: Seq<(u16, BindingView)>) -> Option<Seq<char>>
    decreases bindings.len(),
{
    if bindings.len() == 0 {
        None
    } else if malformed(bindings[0].1) {
        bindings[0].1.host_port
    } else {
        first_malformed(bindings.drop_first())
    }
}

/// Whether the binding publishes a port for the family `family`: its host
/// address is of that family and its host port is a port number.
pub open spec fn publishes(binding: BindingView, family: Family) -> bool {
    &&& binding.family == Some(family)
    &&& binding.host_port matches Some(text)
    &&& port_number(text) is Some
}

/// The host port that a binding names.
pub open spec fn host_port(binding: BindingView) -> u16
    recommends
        binding.host_port is Some,
        port_number(binding.host_port->0) is Some,
{
    port_number(binding.host_port->0)->0
}

/// The mapping from container ports to host ports that the bindings give for
/// one family: each container port goes to the host port of the last binding
/// that publishes it for that family.
pub open spec fn mapping(bindings: Seq<(u16, BindingView)>, family: Family) -> Map<u16, u16>
    decreases bindings.len(),
{
    if bindings.len() == 0 {
        Map::empty()
    } else {
        let earlier = mapping(bindings.drop_last(), family);
        if publishes(bindings.last().1, family) {
            earlier.insert(bindings.last().0, host_port(bindings.last().1))
        } else {
            earlier
        }
    }
}

/// The published ports of a container: for each address family, the host
/// port of each container port that is published for it.
pub struct PortsView {
    pub ipv4: Map<u16, u16>,
    pub ipv6: Map<u16, u16>,
}

impl PortsView {
    /// The mapping for the family `family`.
    pub open spec fn of(self, family: Family) -> Map<u16, u16> {
        match family {
            Family::V4 => self.ipv4,
            Family::V6 => self.ipv6,
        }
    }
}

/// The published ports that the bindings give: the mapping of each family.
pub open spec fn mappings(bindings: Seq<(u16, BindingView)>) -> PortsView {
    PortsView { ipv4: mapping(bindings, Family::V4), ipv6: mapping(bindings, Family::V6) }
}

/// The published ports `ports` with one more binding of the container port
/// `internal` taken in: where the binding publishes the port for a family, the
/// port goes to the binding's host port for that family.
pub open spec fn published(ports: PortsView, internal: u16, binding: BindingView) -> PortsView {
    PortsView {
        ipv4: if publishes(binding, Family::V4) {
            ports.ipv4.insert(internal, host_port(binding))
        } else {
            ports.ipv4
        },
        ipv6: if publishes(binding, Family::V6) {
            ports.ipv6.insert(internal, host_port(binding))
        } else {
            ports.ipv6
        },
    }
}

/// What a port table resolves to: the published ports, or the first host port
/// that is no port number.
pub open spec fn resolve(table: Seq<RawPortView>) -> Result<PortsView, Seq<char>> {
    let bindings = table_bindings(table);
    match first_malformed(bindings) {
        Some(text) => Err(text),
        None => Ok(mappings(bindings)),
    }
}

/// The first malformed host port of two runs of bindings is that of the
/// first run, and that of the second where the first has none.
pub proof fn lemma_first_malformed_concat(
    first: Seq<(u16, BindingView)>,
    second: Seq<(u16, BindingView)>,
)
    ensures
        first_malformed(first + second) == (if first_malformed(first) is Some {
            first_malformed(first)
        } else {
            first_malformed(second)
        }),
    decreases first.len(),
{
    if first.len() == 0 {
        assert(first + second == second);
    } else {
        assert((first + second).drop_first() == first.drop_first() + second);
        lemma_first_malformed_concat(first.drop_first(), second);
    }
}

/// The first malformed host port of a run of bindings with one more binding
/// after it.
pub proof fn lemma_first_malformed_push(
    bindings: Seq<(u16, BindingView)>,
    last: (u16, BindingView),
)
    ensures
        first_malformed(bindings.push(last)) == (if first_malformed(bindings) is Some {
            first_malformed(bindings)
        } else if malformed(last.1) {
            last.1.host_port
        } else {
            None
        }),
{
    let one = seq![last];
    assert(bindings.push(last) == bindings + one);
    lemma_first_malformed_concat(bindings, one);
    assert(one.drop_first() == Seq::<(u16, BindingView)>::empty());
    assert(first_malformed(one.drop_first()) is None);
}

/// The bindings of two tables, one after the other, are those of the first
/// followed by those of the second.
pub proof fn lemma_table_bindings_concat(first: Seq<RawPortView>, second: Seq<RawPortView>)
    ensures
        table_bindings(first + second) == table_bindings(first) + table_bindings(second),
    decreases second.len(),
{
    if second.len() == 0 {
        assert(first + second == first);
        assert(table_bindings(first) + Seq::empty() == table_bindings(first));
    } else {
        let front = second.drop_last();
        lemma_table_bindings_concat(first, front);
        assert((first + second).drop_last() == first + front);
        assert((first + second).last() == second.last());
        assert(table_bindings(first) + (table_bindings(front) + entry_bindings(second.last()))
            == (table_bindings(first) + table_bindings(front)) + entry_bindings(second.last()));
    }
}

/// The bindings of a table are those of its first `k` entries followed by
/// those of the rest.
pub proof fn lemma_table_bindings_split(table: Seq<RawPortView>, k: int)
    requires
        0 <= k <= table.len(),
    ensures
        table_bindings(table) == table_bindings(table.take(k)) + table_bindings(table.skip(k)),
{
    assert(table == table.take(k) + table.skip(k));
    lemma_table_bindings_concat(table.take(k), table.skip(k));
}

/// The bindings of the first `k + 1` entries are those of the first `k`
/// followed by those of entry `k`.
pub proof fn lemma_table_bindings_step(table: Seq<RawPortView>, k: int)
    requires
        0 <= k < table.len(),
    ensures
        table_bindings(table.take(k + 1)) == table_bindings(table.take(k)) + entry_bindings(
            table[k],
        ),
{
    assert(table.take(k + 1).drop_last() == table.take(k));
    assert(table.take(k + 1).last() == table[k]);
}

/// The published ports of a container, one mapping for each address family. A
/// container port may be published for neither family, for one or for both.
#[derive(Clone, Debug, PartialEq, Eq)]
pub struct Ports {
    ipv4_mapping: HashMap<u16, u16>,
    ipv6_mapping: HashMap<u16, u16>,
}

impl View for Ports {
    type V = PortsView;

    closed spec fn view(&self) -> PortsView {
        PortsView { ipv4: self.ipv4_mapping@, ipv6: self.ipv6_mapping@ }
    }
}

impl Default for Ports {
    /// No port is published.
    fn default() -> (ports: Ports)
        ensures
            ports@ == (PortsView { ipv4: Map::empty(), ipv6: Map::empty() }),
    {
        Ports { ipv4_mapping: HashMap::new(), ipv6_mapping: HashMap::new() }
    }
}

/// The value that `map` holds for `key`, if it holds one.
pub open spec fn lookup(map: Map<u16, u16>, key: u16) -> Option<u16> {
    if map.contains_key(key) {
        Some(map[key])
    } else {
        None
    }
}

/// Reads a port number from `port`. The text must write one: this is for a
/// text that is known to be a port number.
pub fn parse_port(port: &str) -> (number: u16)
    requires
        port_number(port@) is Some,
    ensures
        Some(number) == port_number(port@),
{
    let chars = to_chars(port);
    assert(chars@.subrange(0, chars@.len() as int) == chars@);
    parse_digits(&chars, 0, chars.len()).unwrap()
}

/// Reads a port number from `port`, if it writes one.
pub fn try_parse_port(port: &str) -> (number: Option<u16>)
    ensures
        number == port_number(port@),
{
    let chars = to_chars(port);
    assert(chars@.subrange(0, chars@.len() as int) == chars@);
    parse_digits(&chars, 0, chars.len())
}

/// Reads the container port that `key` names, if it names one.
pub fn parse_key(key: &str) -> (port: Option<u16>)
    ensures
        port == internal_port(key@),
{
    let chars = to_chars(key);
    let end = find_char(&chars, '/');
    assert(chars@.subrange(0, end as int) == chars@.take(end as int));
    parse_digits(&chars, 0, end)
}

impl Ports {
    /// The host port under which the container port `internal_port` is
    /// published for IPv4, if it is.
    pub fn mapped_port_ipv4(&self, internal_port: u16) -> (host: Option<u16>)
        ensures
            host == lookup(self@.ipv4, internal_port),
    {
        match self.ipv4_mapping.get(&internal_port) {
            Some(port) => Some(*port),
            None => None,
        }
    }

    /// The host port under which the container port `internal_port` is
    /// published for IPv6, if it is.
    pub fn mapped_port_ipv6(&self, internal_port: u16) -> (host: Option<u16>)
        ensures
            host == lookup(self@.ipv6, internal_port),
    {
        match self.ipv6_mapping.get(&internal_port) {
            Some(port) => Some(*port),
            None => None,
        }
    }

    /// Takes one binding of the container port `internal` into the published
    /// ports, or fails where its host port is no port number.
    fn publish(&mut self, internal: u16, binding: &PortBinding) -> (taken: Result<
        (),
        UnparseablePort,
    >)
        ensures
            match taken {
                Ok(()) => !malformed(binding@) && final(self)@ == published(
                    old(self)@,
                    internal,
                    binding@,
                ),
                Err(error) => malformed(binding@) && binding@.host_port == Some(error.port@)
                    && final(self)@ == old(self)@,
            },
    {
        match &binding.host_port {
            Some(text) => match try_parse_port(text.as_str()) {
                Some(external) => {
                    match &binding.host_ip {
                        Some(HostAddress::Parsed(address)) => match address.family() {
                            Family::V4 => {
                                self.ipv4_mapping.insert(internal, external);
                            },
                            Family::V6 => {
                                self.ipv6_mapping.insert(internal, external);
                            },
                        },
                        Some(HostAddress::Malformed(_)) => {},
                        None => {},
                    }
                    Ok(())
                },
                None => Err(UnparseablePort { port: text.clone() }),
            },
            None => Ok(()),
        }
    }

    /// Resolves the port table that a daemon reports.
    ///
    /// The entries are read in their order, and the bindings of each entry in
    /// theirs. An entry whose key names no container port is left out with all
    /// its bindings. A binding without a host port is left out, and so is one
    /// whose host address is absent or malformed. Of two bindings that publish
    /// one container port for one family the later one counts. A host port
    /// that is present and is no port number fails the whole table: the first
    /// such port is returned.
    pub fn from(ports: Vec<RawPort>) -> (resolved: Result<Ports, UnparseablePort>)
        ensures
            match resolved {
                Ok(found) => resolve(ports.deep_view()) == Ok::<PortsView, Seq<char>>(found@),
                Err(error) => resolve(ports.deep_view()) == Err::<PortsView, Seq<char>>(
                    error.port@,
                ),
            },
    {
        let ghost table = ports.deep_view();
        let mut found = Ports::default();
        let mut at: usize = 0;
        while at < ports.len()
            invariant
                at <= ports.len(),
                table == ports.deep_view(),
                first_malformed(table_bindings(table.take(at as int))) is None,
                found@ == mappings(table_bindings(table.take(at as int))),
            decreases ports.len() - at,
        {
            let entry = &ports[at];
            let ghost before = table_bindings(table.take(at as int));
            let ghost all = entry_bindings(table[at as int]);
            proof {
                lemma_table_bindings_step(table, at as int);
                assert(table[at as int] == entry@);
                assert(before + all.take(0) == before);
            }
            if let Some(internal) = parse_key(entry.key.as_str()) {
                if let Some(bindings) = &entry.bindings {
                    let mut next: usize = 0;
                    while next < bindings.len()
                        invariant
                            next <= bindings.len(),
                            at < ports.len(),
                            table == ports.deep_view(),
                            entry@ == table[at as int],
                            entry.bindings == Some(*bindings),
                            internal_port(entry@.key) == Some(internal),
                            all == entry_bindings(table[at as int]),
                            before == table_bindings(table.take(at as int)),
                            table_bindings(table.take(at + 1)) == before + all,
                            first_malformed(before + all.take(next as int)) is None,
                            found@ == mappings(before + all.take(next as int)),
                        decreases bindings.len() - next,
                    {
                        let binding = &bindings[next];
                        let ghost seen = before + all.take(next as int);
                        proof {
                            assert(all[next as int] == (internal, binding@));
                            assert(before + all.take(next + 1) == seen.push(all[next as int]));
                            assert(seen.push(all[next as int]).drop_last() == seen);
                            lemma_first_malformed_push(seen, all[next as int]);
                        }
                        match found.publish(internal, binding) {
                            Ok(()) => {},
                            Err(error) => {
                                proof {
                                    let rest = all.skip(next + 1) + table_bindings(
                                        table.skip(at + 1),
                                    );
                                    lemma_table_bindings_split(table, at + 1);
                                    assert(table_bindings(table) == seen.push(all[next as int])
                                        + rest);
                                    lemma_first_malformed_concat(
                                        seen.push(all[next as int]),
                                        rest,
                                    );
                                }
                                return Err(error);
                            },
                        }
                        next = next + 1;
                    }
                    proof {
                        assert(all.take(next as int) == all);
                    }
                }
            }
            proof {
                assert(found@ == mappings(before + all));
            }
            at = at + 1;
        }
        proof {
            assert(table.take(at as int) == table);
        }
        Ok(found)
    }
}

} // verus!
