//! The configuration: upstreams, groups and rules, and how it is built and
//! checked at load time.
use crate::dispatcher::{
    all_patterns_known, any_name_known, distinct_names, group_names, names_distinct, names_some_group,
    patterns_known,
};
use crate::domain::{regexes_of, set_compiles, Domains, DomainsConf};
use crate::ip::{empty_view, with_block, Cidr, IpAddress, IpRange, RangeView};
use crate::pattern::{collect_entries, line_entries, views};
use ipnet::IpNet;
use std::str::FromStr;
use trust_dns_proto::rr::record_type::RecordType;
use vstd::prelude::*;

verus! {

/// Why a configuration was refused.
#[derive(Clone, Copy, Debug, PartialEq, Eq, Structural)]
pub enum ConfigError {
    /// No upstream is marked default.
    NoDefaultUpstream,
    /// An upstream's address is neither `ip:port` nor a bare IP.
    InvalidAddress,
    /// A TLS upstream has no `tls-host`.
    MissingTlsHost,
    /// An entry of a range group is not a CIDR block.
    InvalidCidr,
    /// A domain group does not compile.
    InvalidRegex,
    /// A request rule names a record type that does not exist.
    UnknownRecordType,
    /// A rule lists no upstream.
    EmptyUpstreams,
    /// A rule pattern names a group that is not configured.
    UnknownGroup,
    /// Two upstreams, two domain groups or two range groups share a name.
    DuplicateName,
    /// A request rule names no configured upstream.
    UnknownUpstream,
}

/// What a response rule decides.
#[derive(Clone, Copy, Debug, PartialEq, Eq, Structural)]
pub enum RuleAction {
    Accept,
    Drop,
}

/// Picks the upstreams of the queries that it matches.
pub struct RequestRule {
    /// Domain group patterns; absent matches every name.
    pub domains: Option<Vec<String>>,
    /// Record type codes; absent matches every type.
    pub types: Option<Vec<u16>>,
    /// The upstreams to ask.
    pub upstreams: Vec<String>,
}

/// Accepts or drops the responses that it matches.
pub struct ResponseRule {
    /// Upstream names; absent matches every upstream.
    pub upstreams: Option<Vec<String>>,
    /// Range group patterns; absent matches every response.
    pub ranges: Option<Vec<String>>,
    /// Domain group patterns; absent matches every name.
    pub domains: Option<Vec<String>>,
    pub action: RuleAction,
}

/// The transport of an upstream.
#[derive(Clone, Copy, Debug, PartialEq, Eq, Structural)]
pub enum NetworkType {
    Tcp,
    Udp,
    Tls,
}

/// The port an upstream listens on when its address gives none.
pub open spec fn default_port_of(n: NetworkType) -> u16 {
    match n {
        NetworkType::Tcp | NetworkType::Udp => 53,
        NetworkType::Tls => 853,
    }
}

impl NetworkType {
    /// 53 for TCP and UDP, 853 for TLS.
    pub fn default_port(&self) -> (r: u16)
        ensures
            r == default_port_of(*self),
    {
        match self {
            NetworkType::Tcp | NetworkType::Udp => 53,
            NetworkType::Tls => 853,
        }
    }
}

/// An IP address and a port.
#[derive(Clone, Copy, Debug, PartialEq, Eq, Structural)]
pub struct SocketAddress {
    pub ip: IpAddress,
    pub port: u16,
}

/// What an upstream's address text reads as.
#[derive(Clone, Copy, Debug, PartialEq, Eq, Structural)]
pub enum AddressForm {
    /// `ip:port`.
    WithPort(SocketAddress),
    /// A bare IP address.
    Bare(IpAddress),
    /// Neither.
    Invalid,
}

/// A configured upstream server.
#[derive(Debug)]
pub enum Upstream {
    TcpUpstream { address: SocketAddress },
    UdpUpstream { address: SocketAddress },
    TlsUpstream { address: SocketAddress, tls_host: String },
}

/// The configuration of one upstream.
pub struct UpstreamConfig {
    /// The address text, as configured.
    pub address: String,
    /// What the address text reads as.
    pub parsed_address: AddressForm,
    pub network: NetworkType,
    /// The TLS server name; needed for TLS.
    pub tls_host: Option<String>,
    /// Whether queries that no request rule routes go to this upstream.
    pub default: bool,
}

impl UpstreamConfig {
    /// The socket address of the upstream: the configured one, or the bare
    /// IP with the transport's default port.
    pub open spec fn socket_address(&self) -> Option<SocketAddress> {
        match self.parsed_address {
            AddressForm::WithPort(a) => Some(a),
            AddressForm::Bare(ip) => Some(SocketAddress { ip, port: default_port_of(self.network) }),
            AddressForm::Invalid => None,
        }
    }

    /// Why the upstream is refused, if it is.
    pub open spec fn error(&self) -> Option<ConfigError> {
        if self.socket_address() is None {
            Some(ConfigError::InvalidAddress)
        } else if self.network == NetworkType::Tls && self.tls_host is None {
            Some(ConfigError::MissingTlsHost)
        } else {
            None
        }
    }

    /// Whether `u` is the upstream that this configuration describes.
    pub open spec fn describes(&self, u: Upstream) -> bool {
        match u {
            Upstream::TcpUpstream { address } => self.network == NetworkType::Tcp && self.socket_address() == Some(address),
            Upstream::UdpUpstream { address } => self.network == NetworkType::Udp && self.socket_address() == Some(address),
            Upstream::TlsUpstream { address, tls_host } => self.network == NetworkType::Tls
                && self.socket_address() == Some(address) && self.tls_host == Some(tls_host),
        }
    }

    /// Upstreams are default unless configured otherwise.
    pub fn default_default() -> (r: bool)
        ensures
            r,
    {
        true
    }

    /// Builds the upstream; fails on an address that is neither `ip:port`
    /// nor a bare IP, and on a TLS upstream without a server name.
    pub fn build(&self) -> (r: Result<Upstream, ConfigError>)
        ensures
            r is Err <==> self.error() is Some,
            r matches Err(e) ==> self.error() == Some(e),
            r matches Ok(u) ==> self.describes(u),
    {
        let address = match self.parsed_address {
            AddressForm::WithPort(a) => a,
            AddressForm::Bare(ip) => SocketAddress { ip, port: self.network.default_port() },
            AddressForm::Invalid => {
                return Err(ConfigError::InvalidAddress);
            },
        };
        match self.network {
            NetworkType::Tcp => Ok(Upstream::TcpUpstream { address }),
            NetworkType::Udp => Ok(Upstream::UdpUpstream { address }),
            NetworkType::Tls => match &self.tls_host {
                Some(h) => Ok(Upstream::TlsUpstream { address, tls_host: h.clone() }),
                None => Err(ConfigError::MissingTlsHost),
            },
        }
    }
}

/// The code of a record type name, as trust-dns-proto reads it.
pub open spec fn record_code_of(s: Seq<char>) -> Option<u16> {
    if s == seq!['A'] {
        Some(1)
    } else if s == seq!['A', 'A', 'A', 'A'] {
        Some(28)
    } else if s == seq!['C', 'A', 'A'] {
        Some(257)
    } else if s == seq!['C', 'N', 'A', 'M', 'E'] {
        Some(5)
    } else if s == seq!['N', 'U', 'L', 'L'] {
        Some(10)
    } else if s == seq!['M', 'X'] {
        Some(15)
    } else if s == seq!['N', 'S'] {
        Some(2)
    } else if s == seq!['P', 'T', 'R'] {
        Some(12)
    } else if s == seq!['S', 'O', 'A'] {
        Some(6)
    } else if s == seq!['S', 'R', 'V'] {
        Some(33)
    } else if s == seq!['T', 'L', 'S', 'A'] {
        Some(52)
    } else if s == seq!['T', 'X', 'T'] {
        Some(16)
    } else if s == seq!['A', 'N', 'Y'] || s == seq!['*'] {
        Some(255)
    } else if s == seq!['A', 'X', 'F', 'R'] {
        Some(252)
    } else {
        None
    }
}

/// Relies on trust_dns_proto's RecordType::from_str and its conversion to
/// the numeric code: the names it knows and their codes.
#[verifier::external_body]
fn record_type_code(s: &str) -> (r: Option<u16>)
    ensures
        r == record_code_of(s@),
{
    RecordType::from_str(s).ok().map(u16::from)
}

/// Turns an optional result into a result of an option.
pub fn transpose<T, E>(o: Option<Result<T, E>>) -> (r: Result<Option<T>, E>)
    ensures
        match o {
            Some(Ok(x)) => r == Ok::<Option<T>, E>(Some(x)),
            Some(Err(e)) => r == Err::<Option<T>, E>(e),
            None => r == Ok::<Option<T>, E>(None),
        },
{
    match o {
        Some(Ok(x)) => Ok(Some(x)),
        Some(Err(e)) => Err(e),
        None => Ok(None),
    }
}

/// The codes of a list of record type names, if all are known.
pub open spec fn record_codes_of(names: Seq<Seq<char>>) -> Option<Seq<u16>>
    decreases names.len(),
{
    if names.len() == 0 {
        Some(Seq::empty())
    } else {
        match (record_codes_of(names.drop_last()), record_code_of(names.last())) {
            (Some(prev), Some(c)) => Some(prev.push(c)),
            _ => None,
        }
    }
}

/// The codes of a list of record type names; fails on an unknown name.
pub fn record_codes(names: &Vec<String>) -> (r: Result<Vec<u16>, ConfigError>)
    ensures
        r is Ok <==> record_codes_of(views(names@)) is Some,
        r matches Ok(v) ==> record_codes_of(views(names@)) == Some(v@),
        r matches Err(e) ==> e == ConfigError::UnknownRecordType,
{
    let mut out: Vec<u16> = Vec::new();
    let mut i: usize = 0;
    while i < names.len()
        invariant
            i <= names@.len(),
            record_codes_of(views(names@.subrange(0, i as int))) == Some(out@),
        decreases names@.len() - i,
    {
        let ghost sub = views(names@.subrange(0, i + 1));
        assert(sub.drop_last() =~= views(names@.subrange(0, i as int)));
        assert(sub.last() == names@[i as int]@);
        match record_type_code(names[i].as_str()) {
            Some(c) => out.push(c),
            None => {
                proof { lemma_codes_fail_extend(views(names@), i + 1); }
                assert(names@.subrange(0, names@.len() as int) =~= names@);
                return Err(ConfigError::UnknownRecordType);
            },
        }
        i = i + 1;
    }
    assert(names@.subrange(0, i as int) =~= names@);
    Ok(out)
}

/// A prefix with an unknown name makes the whole list unknown.
proof fn lemma_codes_fail_extend(names: Seq<Seq<char>>, k: int)
    requires
        0 <= k <= names.len(),
        record_codes_of(names.subrange(0, k)) is None,
    ensures
        record_codes_of(names) is None,
    decreases names.len() - k,
{
    if k < names.len() {
        assert(names.subrange(0, k + 1).drop_last() =~= names.subrange(0, k));
        lemma_codes_fail_extend(names, k + 1);
    } else {
        assert(names.subrange(0, k) =~= names);
    }
}

/// The block that ipnet reads from a CIDR text, if any.
pub uninterp spec fn parsed_cidr(s: Seq<char>) -> Option<Cidr>;

/// Relies on ipnet's `FromStr` for `IpNet`: an IPv4 or IPv6 `addr/len`
/// text gives that block, whose prefix length fits its family.
#[verifier::external_body]
pub(crate) fn parse_cidr(s: &str) -> (r: Option<Cidr>)
    ensures
        r == parsed_cidr(s@),
        r is Some ==> r->0.wf(),
{
    match s.parse::<IpNet>() {
        Ok(IpNet::V4(n)) => Some(Cidr::V4 { addr: u32::from(n.addr()), len: n.prefix_len() }),
        Ok(IpNet::V6(n)) => Some(Cidr::V6 { addr: u128::from(n.addr()), len: n.prefix_len() }),
        Err(_) => None,
    }
}

/// Whether every entry reads as a CIDR block.
pub open spec fn all_parse(entries: Seq<Seq<char>>) -> bool {
    forall|i: int| 0 <= i < entries.len() ==> (#[trigger] parsed_cidr(entries[i])) is Some
}

/// The coverage after adding the block of each entry, in order.
pub open spec fn with_entries(v: RangeView, entries: Seq<Seq<char>>) -> RangeView
    decreases entries.len(),
{
    if entries.len() == 0 {
        v
    } else {
        with_block(with_entries(v, entries.drop_last()), parsed_cidr(entries.last())->0)
    }
}

/// The configuration of a range group: the lines of its list files, as
/// read, and its inline list.
pub struct IpRangeConf {
    pub file_lines: Vec<String>,
    pub list: Vec<String>,
}

impl IpRangeConf {
    /// The CIDR texts that the group lists, in order.
    pub open spec fn entries(&self) -> Seq<Seq<char>> {
        line_entries(views(self.file_lines@)) + line_entries(views(self.list@))
    }

    /// Adds every block of the group to `range`, then simplifies it; fails
    /// on an entry that is not a CIDR block.
    pub fn read_to(&self, range: &mut IpRange) -> (r: Result<(), ConfigError>)
        ensures
            r is Ok <==> all_parse(self.entries()),
            r is Ok ==> final(range)@ == with_entries(old(range)@, self.entries()),
            r is Ok ==> final(range).is_simplified() && final(range).blocks_cover(),
            r matches Err(e) ==> e == ConfigError::InvalidCidr,
    {
        let entries = collect_entries(&self.file_lines, &self.list);
        let mut i: usize = 0;
        while i < entries.len()
            invariant
                i <= entries@.len(),
                views(entries@) == self.entries(),
                all_parse(views(entries@.subrange(0, i as int))),
                range@ == with_entries(old(range)@, views(entries@.subrange(0, i as int))),
            decreases entries@.len() - i,
        {
            let ghost sub = views(entries@.subrange(0, i + 1));
            assert(sub.drop_last() =~= views(entries@.subrange(0, i as int)));
            assert(sub.last() == entries@[i as int]@);
            match parse_cidr(entries[i].as_str()) {
                Some(c) => {
                    range.add(c);
                    assert(all_parse(sub)) by {
                        assert forall|j: int| 0 <= j < sub.len() implies (#[trigger] parsed_cidr(sub[j])) is Some by {
                            if j < i {
                                assert(sub[j] == sub.drop_last()[j]);
                            }
                        }
                    }
                },
                None => {
                    assert(!all_parse(self.entries())) by {
                        assert(self.entries()[i as int] == entries@[i as int]@);
                    }
                    return Err(ConfigError::InvalidCidr);
                },
            }
            i = i + 1;
        }
        assert(entries@.subrange(0, i as int) =~= entries@);
        range.simplify();
        Ok(())
    }
}

/// The configuration of a request rule, with record types by name.
pub struct RequestRuleConfig {
    pub domains: Option<Vec<String>>,
    pub types: Option<Vec<String>>,
    pub upstreams: Vec<String>,
}

impl RequestRuleConfig {
    /// Whether every record type name is known.
    pub open spec fn types_known(&self) -> bool {
        match self.types {
            Some(t) => record_codes_of(views(t@)) is Some,
            None => true,
        }
    }

    /// Whether `rule` is the rule this configuration describes.
    pub open spec fn describes(&self, rule: RequestRule) -> bool {
        &&& match (self.domains, rule.domains) {
            (Some(a), Some(b)) => views(a@) == views(b@),
            (None, None) => true,
            _ => false,
        }
        &&& match (self.types, rule.types) {
            (Some(a), Some(b)) => record_codes_of(views(a@)) == Some(b@),
            (None, None) => true,
            _ => false,
        }
        &&& views(self.upstreams@) == views(rule.upstreams@)
    }

    /// Builds the rule, reading record types by name; fails on an unknown
    /// type name.
    pub fn build(&self) -> (r: Result<RequestRule, ConfigError>)
        ensures
            r is Ok <==> self.types_known(),
            r matches Ok(rule) ==> self.describes(rule),
            r matches Err(e) ==> e == ConfigError::UnknownRecordType,
    {
        let types = match &self.types {
            Some(t) => Some(record_codes(t)),
            None => None,
        };
        let types = match transpose(types) {
            Ok(t) => t,
            Err(e) => {
                return Err(e);
            },
        };
        let domains = match &self.domains {
            Some(d) => Some(crate::dispatcher::clone_names(d)),
            None => None,
        };
        Ok(RequestRule { domains, types, upstreams: crate::dispatcher::clone_names(&self.upstreams) })
    }
}

/// The first refusal among a list of upstream configurations.
pub open spec fn first_upstream_error(us: Seq<(String, UpstreamConfig)>) -> Option<ConfigError>
    decreases us.len(),
{
    if us.len() == 0 {
        None
    } else {
        match first_upstream_error(us.drop_last()) {
            Some(e) => Some(e),
            None => us.last().1.error(),
        }
    }
}

/// The names of the upstreams marked default, in order.
pub open spec fn default_names(us: Seq<(String, UpstreamConfig)>) -> Seq<Seq<char>>
    decreases us.len(),
{
    if us.len() == 0 {
        Seq::empty()
    } else {
        let prev = default_names(us.drop_last());
        if us.last().1.default {
            prev.push(us.last().0@)
        } else {
            prev
        }
    }
}

/// The configuration as read, before it is checked and compiled.
pub struct ConfigBuilder {
    pub bind: SocketAddress,
    pub upstreams: Vec<(String, UpstreamConfig)>,
    pub domains: Vec<(String, DomainsConf)>,
    pub ranges: Vec<(String, IpRangeConf)>,
    pub requests: Vec<RequestRuleConfig>,
    pub responses: Vec<ResponseRule>,
}

/// The built configuration.
pub struct Config {
    pub bind: SocketAddress,
    pub default_upstreams: Vec<String>,
    pub upstreams: Vec<(String, Upstream)>,
    pub domains: Vec<(String, Domains)>,
    pub ranges: Vec<(String, IpRange)>,
    pub request_rules: Vec<RequestRule>,
    pub response_rules: Vec<ResponseRule>,
}

impl ConfigBuilder {
    /// Whether every domain group compiles.
    pub open spec fn domains_compile(&self) -> bool {
        forall|i: int| 0 <= i < self.domains@.len() ==> set_compiles(regexes_of(#[trigger] self.domains@[i].1.entries()))
    }

    /// Whether every entry of every range group is a CIDR block.
    pub open spec fn ranges_parse(&self) -> bool {
        forall|i: int| 0 <= i < self.ranges@.len() ==> all_parse(#[trigger] self.ranges@[i].1.entries())
    }

    /// Whether every record type name of the request rules is known.
    pub open spec fn types_known(&self) -> bool {
        forall|i: int| 0 <= i < self.requests@.len() ==> (#[trigger] self.requests@[i]).types_known()
    }

    /// Whether no rule has an empty upstream list.
    pub open spec fn upstream_lists_nonempty(&self) -> bool {
        &&& forall|i: int| 0 <= i < self.requests@.len() ==> (#[trigger] self.requests@[i]).upstreams@.len() > 0
        &&& forall|i: int| 0 <= i < self.responses@.len() ==> match (#[trigger] self.responses@[i]).upstreams {
            Some(u) => u@.len() > 0,
            None => true,
        }
    }

    /// Whether every rule pattern names a configured group.
    pub open spec fn groups_known(&self) -> bool {
        &&& forall|i: int| 0 <= i < self.requests@.len() ==> patterns_known(group_names(self.domains@), (#[trigger] self.requests@[i]).domains)
        &&& forall|i: int| 0 <= i < self.responses@.len() ==> patterns_known(group_names(self.domains@), (#[trigger] self.responses@[i]).domains)
            && patterns_known(group_names(self.ranges@), self.responses@[i].ranges)
    }

    /// Whether names are unique among the upstreams, among the domain
    /// groups and among the range groups.
    pub open spec fn names_unique(&self) -> bool {
        &&& distinct_names(self.upstreams@)
        &&& distinct_names(self.domains@)
        &&& distinct_names(self.ranges@)
    }

    /// Whether every request rule routes to at least one configured upstream.
    pub open spec fn routes_known(&self) -> bool {
        forall|i: int| 0 <= i < self.requests@.len() ==> names_some_group((#[trigger] self.requests@[i]).upstreams@, self.upstreams@)
    }

    /// Why the configuration is refused, if it is: the checks in order.
    pub open spec fn error(&self) -> Option<ConfigError> {
        if !self.names_unique() {
            Some(ConfigError::DuplicateName)
        } else if first_upstream_error(self.upstreams@) is Some {
            first_upstream_error(self.upstreams@)
        } else if default_names(self.upstreams@).len() == 0 {
            Some(ConfigError::NoDefaultUpstream)
        } else if !self.domains_compile() {
            Some(ConfigError::InvalidRegex)
        } else if !self.ranges_parse() {
            Some(ConfigError::InvalidCidr)
        } else if !self.types_known() {
            Some(ConfigError::UnknownRecordType)
        } else if !self.upstream_lists_nonempty() {
            Some(ConfigError::EmptyUpstreams)
        } else if !self.routes_known() {
            Some(ConfigError::UnknownUpstream)
        } else if !self.groups_known() {
            Some(ConfigError::UnknownGroup)
        } else {
            None
        }
    }
}

impl Config {
    /// Whether this is the configuration that `b` describes.
    pub open spec fn built_from(&self, b: ConfigBuilder) -> bool {
        &&& self.bind == b.bind
        &&& views(self.default_upstreams@) == default_names(b.upstreams@)
        &&& self.upstreams@.len() == b.upstreams@.len()
        &&& forall|i: int| 0 <= i < b.upstreams@.len() ==> (#[trigger] self.upstreams@[i]).0@ == b.upstreams@[i].0@
            && b.upstreams@[i].1.describes(self.upstreams@[i].1)
        &&& group_names(self.domains@) == group_names(b.domains@)
        &&& forall|i: int| 0 <= i < b.domains@.len() ==> (#[trigger] self.domains@[i]).1@ == regexes_of(b.domains@[i].1.entries())
        &&& group_names(self.ranges@) == group_names(b.ranges@)
        &&& forall|i: int| 0 <= i < b.ranges@.len() ==> (#[trigger] self.ranges@[i]).1@ == with_entries(empty_view(), b.ranges@[i].1.entries())
        &&& self.request_rules@.len() == b.requests@.len()
        &&& forall|i: int| 0 <= i < b.requests@.len() ==> b.requests@[i].describes(#[trigger] self.request_rules@[i])
        &&& self.response_rules == b.responses
    }
}

proof fn lemma_upstream_error_prefix(us: Seq<(String, UpstreamConfig)>, k: int)
    requires
        0 <= k <= us.len(),
        first_upstream_error(us.subrange(0, k)) is Some,
    ensures
        first_upstream_error(us) == first_upstream_error(us.subrange(0, k)),
    decreases us.len() - k,
{
    if k < us.len() {
        assert(us.subrange(0, k + 1).drop_last() =~= us.subrange(0, k));
        lemma_upstream_error_prefix(us, k + 1);
    } else {
        assert(us.subrange(0, k) =~= us);
    }
}

impl ConfigBuilder {
    /// Checks and compiles the configuration. The checks come in this
    /// order, and the first that fails gives the error: unique names of
    /// upstreams and of groups; each upstream's
    /// address and TLS name; at least one default upstream; each domain
    /// group's regexes; each range group's CIDR blocks; each request rule's
    /// record types; no empty upstream list in a rule; every request rule
    /// names a configured upstream; no rule pattern that names an unknown
    /// group.
    #[verifier::loop_isolation(false)]
    pub fn build(self) -> (r: Result<Config, ConfigError>)
        ensures
            r is Err <==> self.error() is Some,
            r matches Err(e) ==> self.error() == Some(e),
            r matches Ok(c) ==> c.built_from(self),
    {
        if !names_distinct(&self.upstreams) || !names_distinct(&self.domains) || !names_distinct(&self.ranges) {
            return Err(ConfigError::DuplicateName);
        }
        let mut defaults: Vec<String> = Vec::new();
        let mut upstreams: Vec<(String, Upstream)> = Vec::new();
        let mut i: usize = 0;
        while i < self.upstreams.len()
            invariant
                i <= self.upstreams@.len(),
                first_upstream_error(self.upstreams@.subrange(0, i as int)) is None,
                views(defaults@) == default_names(self.upstreams@.subrange(0, i as int)),
                upstreams@.len() == i,
                forall|k: int| 0 <= k < i ==> (#[trigger] upstreams@[k]).0@ == self.upstreams@[k].0@
                    && self.upstreams@[k].1.describes(upstreams@[k].1),
            decreases self.upstreams@.len() - i,
        {
            let ghost sub = self.upstreams@.subrange(0, i + 1);
            assert(sub.drop_last() =~= self.upstreams@.subrange(0, i as int));
            assert(sub.last() == self.upstreams@[i as int]);
            let (name, conf) = &self.upstreams[i];
            match conf.build() {
                Ok(u) => {
                    if conf.default {
                        let ghost prev = defaults@;
                        defaults.push(name.clone());
                        assert(views(defaults@) =~= views(prev).push(name@));
                    }
                    upstreams.push((name.clone(), u));
                },
                Err(e) => {
                    proof { lemma_upstream_error_prefix(self.upstreams@, i + 1); }
                    return Err(e);
                },
            }
            i = i + 1;
        }
        assert(self.upstreams@.subrange(0, i as int) =~= self.upstreams@);
        if defaults.len() == 0 {
            return Err(ConfigError::NoDefaultUpstream);
        }
        let mut domains: Vec<(String, Domains)> = Vec::new();
        let mut i: usize = 0;
        while i < self.domains.len()
            invariant
                i <= self.domains@.len(),
                domains@.len() == i,
                forall|k: int| 0 <= k < i ==> set_compiles(regexes_of(#[trigger] self.domains@[k].1.entries())),
                forall|k: int| 0 <= k < i ==> (#[trigger] domains@[k]).0@ == self.domains@[k].0@
                    && domains@[k].1@ == regexes_of(self.domains@[k].1.entries()),
            decreases self.domains@.len() - i,
        {
            let (name, conf) = &self.domains[i];
            match conf.build() {
                Ok(d) => domains.push((name.clone(), d)),
                Err(_) => {
                    assert(!set_compiles(regexes_of(self.domains@[i as int].1.entries())));
                    return Err(ConfigError::InvalidRegex);
                },
            }
            i = i + 1;
        }
        assert(group_names(domains@) =~= group_names(self.domains@));
        let mut ranges: Vec<(String, IpRange)> = Vec::new();
        let mut i: usize = 0;
        while i < self.ranges.len()
            invariant
                i <= self.ranges@.len(),
                ranges@.len() == i,
                forall|k: int| 0 <= k < i ==> all_parse(#[trigger] self.ranges@[k].1.entries()),
                forall|k: int| 0 <= k < i ==> (#[trigger] ranges@[k]).0@ == self.ranges@[k].0@
                    && ranges@[k].1@ == with_entries(empty_view(), self.ranges@[k].1.entries()),
            decreases self.ranges@.len() - i,
        {
            let (name, conf) = &self.ranges[i];
            let mut range = IpRange::new();
            match conf.read_to(&mut range) {
                Ok(()) => ranges.push((name.clone(), range)),
                Err(_) => {
                    assert(!all_parse(self.ranges@[i as int].1.entries()));
                    return Err(ConfigError::InvalidCidr);
                },
            }
            i = i + 1;
        }
        assert(group_names(ranges@) =~= group_names(self.ranges@));
        let mut request_rules: Vec<RequestRule> = Vec::new();
        let mut i: usize = 0;
        while i < self.requests.len()
            invariant
                i <= self.requests@.len(),
                request_rules@.len() == i,
                forall|k: int| 0 <= k < i ==> (#[trigger] self.requests@[k]).types_known(),
                forall|k: int| 0 <= k < i ==> self.requests@[k].describes(#[trigger] request_rules@[k]),
            decreases self.requests@.len() - i,
        {
            match self.requests[i].build() {
                Ok(rule) => request_rules.push(rule),
                Err(_) => {
                    assert(!self.requests@[i as int].types_known());
                    return Err(ConfigError::UnknownRecordType);
                },
            }
            i = i + 1;
        }
        let mut i: usize = 0;
        while i < self.requests.len()
            invariant
                i <= self.requests@.len(),
                forall|k: int| 0 <= k < i ==> (#[trigger] self.requests@[k]).upstreams@.len() > 0,
            decreases self.requests@.len() - i,
        {
            if self.requests[i].upstreams.len() == 0 {
                return Err(ConfigError::EmptyUpstreams);
            }
            i = i + 1;
        }
        let mut i: usize = 0;
        while i < self.responses.len()
            invariant
                i <= self.responses@.len(),
                forall|k: int| 0 <= k < i ==> match (#[trigger] self.responses@[k]).upstreams {
                    Some(u) => u@.len() > 0,
                    None => true,
                },
            decreases self.responses@.len() - i,
        {
            match &self.responses[i].upstreams {
                Some(u) => {
                    if u.len() == 0 {
                        return Err(ConfigError::EmptyUpstreams);
                    }
                },
                None => {},
            }
            i = i + 1;
        }
        let mut i: usize = 0;
        while i < self.requests.len()
            invariant
                i <= self.requests@.len(),
                forall|k: int| 0 <= k < i ==> names_some_group((#[trigger] self.requests@[k]).upstreams@, self.upstreams@),
            decreases self.requests@.len() - i,
        {
            if !any_name_known(&self.requests[i].upstreams, &self.upstreams) {
                return Err(ConfigError::UnknownUpstream);
            }
            i = i + 1;
        }
        let mut i: usize = 0;
        while i < self.requests.len()
            invariant
                i <= self.requests@.len(),
                forall|k: int| 0 <= k < i ==> patterns_known(group_names(self.domains@), (#[trigger] self.requests@[k]).domains),
            decreases self.requests@.len() - i,
        {
            if !all_patterns_known(&self.domains, &self.requests[i].domains) {
                return Err(ConfigError::UnknownGroup);
            }
            i = i + 1;
        }
        let mut i: usize = 0;
        while i < self.responses.len()
            invariant
                i <= self.responses@.len(),
                forall|k: int| 0 <= k < i ==> patterns_known(group_names(self.domains@), (#[trigger] self.responses@[k]).domains)
                    && patterns_known(group_names(self.ranges@), self.responses@[k].ranges),
            decreases self.responses@.len() - i,
        {
            if !all_patterns_known(&self.domains, &self.responses[i].domains) {
                return Err(ConfigError::UnknownGroup);
            }
            if !all_patterns_known(&self.ranges, &self.responses[i].ranges) {
                return Err(ConfigError::UnknownGroup);
            }
            i = i + 1;
        }
        Ok(Config {
            bind: self.bind,
            default_upstreams: defaults,
            upstreams,
            domains,
            ranges,
            request_rules,
            response_rules: self.responses,
        })
    }
}

} // verus!
