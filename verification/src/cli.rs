//! What the command line asks for: which servers to run, where they listen, and
//! how requests to their targets are made.

use vstd::prelude::*;

verus! {

/// The listen address where the command line gives none.
pub const DEFAULT_LISTEN: &'static str = "127.0.0.1:18080";

/// The request timeout where the command line gives none, in seconds.
pub const DEFAULT_TIMEOUT_SECS: u64 = 200;

/// The arguments of the command line.
#[derive(Debug)]
pub struct Cli {
    /// Target base URL, such as `https://example.com`.
    pub target: String,
    /// Local listen address.
    pub listen: String,
    /// Second target base URL. When set, a second proxy is started.
    pub target2: Option<String>,
    /// Second local listen address. Ignored unless `target2` is set. Defaults to
    /// the port after that of `listen` on the same host.
    pub listen2: Option<String>,
    /// Request timeout in seconds; zero for none.
    pub timeout: u64,
    /// Request timeout for `target2` in seconds; zero for none. Defaults to
    /// `timeout`.
    pub timeout2: Option<u64>,
}

/// A socket address: the bits of its IP address, its port and, for version six,
/// its flow information and scope.
#[derive(Clone, Copy, Debug, PartialEq, Eq, Structural)]
pub enum ListenAddr {
    V4 { ip: u32, port: u16 },
    V6 { ip6: u128, port: u16, flowinfo: u32, scope_id: u32 },
}

/// The port of a socket address.
pub open spec fn port_of(addr: ListenAddr) -> u16 {
    match addr {
        ListenAddr::V4 { port, .. } => port,
        ListenAddr::V6 { port, .. } => port,
    }
}

/// The socket address with the same IP address and another port. Nothing but the
/// IP address is taken over.
pub open spec fn at_port(addr: ListenAddr, port: u16) -> ListenAddr {
    match addr {
        ListenAddr::V4 { ip, .. } => ListenAddr::V4 { ip, port },
        ListenAddr::V6 { ip6, .. } => ListenAddr::V6 { ip6, port, flowinfo: 0, scope_id: 0 },
    }
}

impl ListenAddr {
    /// The port of this address.
    pub fn port(&self) -> (port: u16)
        ensures
            port == port_of(*self),
            match *self {
                ListenAddr::V4 { port: own, .. } => port == own,
                ListenAddr::V6 { port: own, .. } => port == own,
            },
    {
        match *self {
            ListenAddr::V4 { port, .. } => port,
            ListenAddr::V6 { port, .. } => port,
        }
    }

    /// The address of the next port on the same host, if there is a next port.
    pub fn next_port(&self) -> (next: Option<ListenAddr>)
        ensures
            match next {
                Some(addr) => port_of(*self) < u16::MAX && addr == at_port(
                    *self,
                    (port_of(*self) + 1) as u16,
                ),
                None => port_of(*self) == u16::MAX,
            },
            match *self {
                ListenAddr::V4 { ip, port } => match next {
                    Some(ListenAddr::V4 { ip: same, port: after }) => same == ip && after == port
                        + 1,
                    Some(_) => false,
                    None => port == 65535,
                },
                ListenAddr::V6 { ip6, port, .. } => match next {
                    Some(ListenAddr::V6 { ip6: same, port: after, flowinfo, scope_id }) => {
                        &&& same == ip6
                        &&& after == port + 1
                        &&& flowinfo == 0
                        &&& scope_id == 0
                    },
                    Some(_) => false,
                    None => port == 65535,
                },
            },
    {
        match self.port().checked_add(1) {
            Some(port) => Some(
                match *self {
                    ListenAddr::V4 { ip, .. } => ListenAddr::V4 { ip, port },
                    ListenAddr::V6 { ip6, .. } => ListenAddr::V6 {
                        ip6,
                        port,
                        flowinfo: 0,
                        scope_id: 0,
                    },
                },
            ),
            None => None,
        }
    }
}

/// One proxy server: the target it forwards to and the address it listens on.
#[derive(Debug)]
pub struct Server {
    pub target: String,
    pub addr: ListenAddr,
}

/// The proxy servers to run.
#[derive(Debug)]
pub struct Servers {
    pub primary: Server,
    pub secondary: Option<Server>,
}

/// Why no servers can be run.
#[derive(Clone, Copy, Debug, PartialEq, Eq, Structural)]
pub enum StartupError {
    /// The listen address is not one.
    InvalidListen,
    /// The second listen address is not one.
    InvalidListen2,
    /// There is no port after that of the listen address.
    NoNextPort { port: u16 },
}

impl View for Server {
    type V = (Seq<char>, ListenAddr);

    open spec fn view(&self) -> (Seq<char>, ListenAddr) {
        (self.target@, self.addr)
    }
}

impl View for Servers {
    type V = ((Seq<char>, ListenAddr), Option<(Seq<char>, ListenAddr)>);

    open spec fn view(&self) -> ((Seq<char>, ListenAddr), Option<(Seq<char>, ListenAddr)>) {
        (
            self.primary@,
            match self.secondary {
                Some(server) => Some(server@),
                None => None,
            },
        )
    }
}

/// The address of the second server, given that of the first one and what the
/// second listen address of the command line was read as.
pub open spec fn second_addr(
    first: ListenAddr,
    listen2: Option<Option<ListenAddr>>,
) -> Result<ListenAddr, StartupError> {
    match listen2 {
        Some(Some(addr)) => Ok(addr),
        Some(None) => Err(StartupError::InvalidListen2),
        None => if port_of(first) == u16::MAX {
            Err(StartupError::NoNextPort { port: port_of(first) })
        } else {
            Ok(at_port(first, (port_of(first) + 1) as u16))
        },
    }
}

/// What the second listen address of the command line was read as: nothing where
/// it is not given.
pub open spec fn read_listen2(cli: Cli, listen2: Option<ListenAddr>) -> Option<
    Option<ListenAddr>,
> {
    match cli.listen2 {
        Some(_) => Some(listen2),
        None => None,
    }
}

/// The servers to run, each with its target and its address.
pub open spec fn planned(
    cli: Cli,
    listen: Option<ListenAddr>,
    listen2: Option<ListenAddr>,
) -> Result<((Seq<char>, ListenAddr), Option<(Seq<char>, ListenAddr)>), StartupError> {
    match listen {
        None => Err(StartupError::InvalidListen),
        Some(first) => match cli.target2 {
            None => Ok(((cli.target@, first), None)),
            Some(target2) => match second_addr(first, read_listen2(cli, listen2)) {
                Ok(second) => Ok(((cli.target@, first), Some((target2@, second)))),
                Err(error) => Err(error),
            },
        },
    }
}

/// Finds out which servers to run. `listen` and `listen2` are the addresses that
/// were read out of the arguments of these names, `None` where that failed or
/// there was nothing to read.
pub fn plan_servers(cli: &Cli, listen: Option<ListenAddr>, listen2: Option<ListenAddr>) -> (plan:
    Result<Servers, StartupError>)
    ensures
        match plan {
            Ok(servers) => planned(*cli, listen, listen2) == Ok::<_, StartupError>(servers@),
            Err(error) => planned(*cli, listen, listen2) == Err::<
                ((Seq<char>, ListenAddr), Option<(Seq<char>, ListenAddr)>),
                _,
            >(error),
        },
        plan is Ok <==> listen is Some && match (cli.target2, cli.listen2) {
            (None, _) => true,
            (Some(_), Some(_)) => listen2 is Some,
            (Some(_), None) => port_of(listen.unwrap()) < 65535,
        },
        plan matches Ok(servers) ==> {
            &&& servers.primary.target@ == cli.target@
            &&& listen == Some(servers.primary.addr)
            &&& match (servers.secondary, cli.target2) {
                (Some(server), Some(target2)) => {
                    &&& server.target@ == target2@
                    &&& cli.listen2 is Some ==> listen2 == Some(server.addr)
                    &&& cli.listen2 is None ==> port_of(server.addr) == port_of(
                        servers.primary.addr,
                    ) + 1
                },
                (None, None) => true,
                _ => false,
            }
        },
        plan matches Err(error) ==> match error {
            StartupError::InvalidListen => listen is None,
            StartupError::InvalidListen2 => listen is Some && cli.target2 is Some
                && cli.listen2 is Some && listen2 is None,
            StartupError::NoNextPort { port } => listen is Some && cli.target2 is Some
                && cli.listen2 is None && port == 65535 && port_of(listen.unwrap()) == port,
        },
{
    let first = match listen {
        Some(addr) => addr,
        None => {
            return Err(StartupError::InvalidListen);
        },
    };
    let secondary = match &cli.target2 {
        Some(target2) => {
            let addr = match &cli.listen2 {
                Some(_) => match listen2 {
                    Some(addr) => addr,
                    None => {
                        return Err(StartupError::InvalidListen2);
                    },
                },
                None => match first.next_port() {
                    Some(addr) => addr,
                    None => {
                        return Err(StartupError::NoNextPort { port: first.port() });
                    },
                },
            };
            Some(Server { target: target2.clone(), addr })
        },
        None => None,
    };
    Ok(Servers { primary: Server { target: cli.target.clone(), addr: first }, secondary })
}

/// How requests to a target are made.
#[derive(Clone, Copy, Debug, PartialEq, Eq, Structural)]
pub struct ClientPolicy {
    /// Idle connections kept for each host.
    pub pool_max_idle_per_host: usize,
    /// Seconds after which an idle connection is dropped.
    pub pool_idle_timeout_secs: u64,
    /// Seconds between two keepalive probes of a connection.
    pub tcp_keepalive_secs: u64,
    /// Whether small packets are sent at once.
    pub tcp_nodelay: bool,
    /// Whether redirects are followed rather than handed to the client.
    pub follow_redirects: bool,
    /// Whether bodies are decompressed rather than handed on as they are.
    pub decompress: bool,
    /// Seconds after which a request is given up, if ever.
    pub timeout_secs: Option<u64>,
}

/// The timeout that a number of seconds on the command line stands for: zero
/// switches it off.
pub open spec fn timeout_of(secs: u64) -> Option<u64> {
    if secs == 0 {
        None
    } else {
        Some(secs)
    }
}

/// The policy for requests with the timeout `secs`: connections are kept alive
/// and pooled, and what the target answers is handed on as it is.
pub open spec fn policy_with(secs: u64) -> ClientPolicy {
    ClientPolicy {
        pool_max_idle_per_host: 64,
        pool_idle_timeout_secs: 90,
        tcp_keepalive_secs: 60,
        tcp_nodelay: true,
        follow_redirects: false,
        decompress: false,
        timeout_secs: timeout_of(secs),
    }
}

/// Lays down how requests with the timeout `timeout_secs` are made.
pub fn build_client(timeout_secs: u64) -> (policy: ClientPolicy)
    ensures
        policy == policy_with(timeout_secs),
        policy.timeout_secs is None <==> timeout_secs == 0,
        timeout_secs != 0 ==> policy.timeout_secs == Some(timeout_secs),
        policy.pool_max_idle_per_host == 64,
        policy.pool_idle_timeout_secs == 90,
        policy.tcp_keepalive_secs == 60,
        policy.tcp_nodelay,
        !policy.follow_redirects,
        !policy.decompress,
{
    ClientPolicy {
        pool_max_idle_per_host: 64,
        pool_idle_timeout_secs: 90,
        tcp_keepalive_secs: 60,
        tcp_nodelay: true,
        follow_redirects: false,
        decompress: false,
        timeout_secs: if timeout_secs > 0 {
            Some(timeout_secs)
        } else {
            None
        },
    }
}

impl Cli {
    /// Lays down how requests to the first target are made, and how those to the
    /// second one, if there is one.
    pub fn client_policies(&self) -> (policies: (ClientPolicy, Option<ClientPolicy>))
        ensures
            policies.0 == policy_with(self.timeout),
            policies.1 is Some <==> self.target2 is Some,
            policies.1 matches Some(second) ==> second == policy_with(
                match self.timeout2 {
                    Some(secs) => secs,
                    None => self.timeout,
                },
            ),
            policies.0.timeout_secs == if self.timeout == 0 {
                None
            } else {
                Some(self.timeout)
            },
            policies.1 matches Some(second) ==> match (self.timeout2, second.timeout_secs) {
                (Some(secs), Some(limit)) => limit == secs && secs != 0,
                (Some(secs), None) => secs == 0,
                (None, limit) => limit == policies.0.timeout_secs,
            },
    {
        let second = match self.target2 {
            Some(_) => {
                let secs: u64 = match self.timeout2 {
                    Some(secs) => secs,
                    None => self.timeout,
                };
                Some(build_client(secs))
            },
            None => None,
        };
        (build_client(self.timeout), second)
    }
}

/// Without a second target there is one server, and the second listen address is
/// ignored: it may be anything, or nothing that can be read.
pub proof fn law_listen2_ignored_without_target2(
    cli: Cli,
    first: ListenAddr,
    listen2: Option<ListenAddr>,
)
    requires
        cli.target2 is None,
    ensures
        planned(cli, Some(first), listen2) == Ok::<_, StartupError>(
            ((cli.target@, first), None::<(Seq<char>, ListenAddr)>),
        ),
{
}

/// With a second target and no second listen address, the second server listens
/// on the next port of the same host.
pub proof fn law_second_port_follows_first(
    cli: Cli,
    first: ListenAddr,
    listen2: Option<ListenAddr>,
)
    requires
        cli.target2 is Some,
        cli.listen2 is None,
        port_of(first) < u16::MAX,
    ensures
        ({
            let second = at_port(first, (port_of(first) + 1) as u16);
            &&& port_of(second) == port_of(first) + 1
            &&& planned(cli, Some(first), listen2) == Ok::<_, StartupError>(
                ((cli.target@, first), Some((cli.target2.unwrap()@, second))),
            )
        }),
{
}

/// Whatever the timeout, redirects and compressed bodies are handed on as they
/// are.
pub proof fn law_answers_are_not_touched(secs: u64)
    ensures
        !policy_with(secs).follow_redirects,
        !policy_with(secs).decompress,
{
}

/// Servers are planned exactly if the listen address was read and, with a second
/// target, there is an address for it: the second listen address where one is
/// given, or else a next port. Otherwise the error tells which of these is
/// missing.
pub proof fn law_when_servers_are_planned(
    cli: Cli,
    listen: Option<ListenAddr>,
    listen2: Option<ListenAddr>,
)
    ensures
        planned(cli, listen, listen2) is Ok <==> match (listen, cli.target2, cli.listen2) {
            (None, _, _) => false,
            (Some(_), None, _) => true,
            (Some(_), Some(_), Some(_)) => listen2 is Some,
            (Some(ListenAddr::V4 { port, .. }), Some(_), None) => port < 65535,
            (Some(ListenAddr::V6 { port, .. }), Some(_), None) => port < 65535,
        },
        planned(cli, listen, listen2) matches Err(error) ==> {
            &&& error is InvalidListen <==> listen is None
            &&& error is InvalidListen2 <==> listen is Some && cli.listen2 is Some
            &&& error is NoNextPort <==> listen is Some && cli.listen2 is None
            &&& error matches StartupError::NoNextPort { port } ==> port == 65535
        },
{
}

/// Whenever servers are planned: the first one has the target and the listen
/// address of the command line. There is a second one exactly if a second target
/// is given, and that is its target, with or without a second listen address; its
/// address is the second listen address where one is given.
pub proof fn law_servers_have_their_own_targets(
    cli: Cli,
    listen: Option<ListenAddr>,
    listen2: Option<ListenAddr>,
)
    requires
        planned(cli, listen, listen2) is Ok,
    ensures
        ({
            let (primary, secondary) = planned(cli, listen, listen2).unwrap();
            &&& primary.0 == cli.target@
            &&& listen == Some(primary.1)
            &&& secondary is Some <==> cli.target2 is Some
            &&& secondary matches Some(server) ==> server.0 == cli.target2.unwrap()@
            &&& secondary matches Some(server) ==> cli.listen2 is Some ==> listen2 == Some(server.1)
        }),
{
}

/// Without a second listen address, the second server has the IP address of the
/// first one and the port after its port; of an address of version six nothing
/// else is taken over.
pub proof fn law_second_server_is_a_neighbour(
    cli: Cli,
    first: ListenAddr,
    listen2: Option<ListenAddr>,
)
    requires
        cli.target2 is Some,
        cli.listen2 is None,
        planned(cli, Some(first), listen2) is Ok,
    ensures
        ({
            let second = planned(cli, Some(first), listen2).unwrap().1.unwrap().1;
            match (first, second) {
                (ListenAddr::V4 { ip, port }, ListenAddr::V4 { ip: same, port: next }) => same == ip
                    && next == port + 1,
                (
                    ListenAddr::V6 { ip6, port, .. },
                    ListenAddr::V6 { ip6: same, port: next, flowinfo, scope_id },
                ) => same == ip6 && next == port + 1 && flowinfo == 0 && scope_id == 0,
                _ => false,
            }
        }),
{
}

/// Planned servers show their targets and addresses.
pub proof fn law_servers_show_targets_and_addresses(servers: Servers)
    ensures
        servers@.0 == (servers.primary.target@, servers.primary.addr),
        servers@.1 is Some <==> servers.secondary is Some,
        servers.secondary matches Some(server) ==> servers@.1 == Some((server.target@, server.addr)),
{
}

/// A request is given up after exactly the seconds that the command line says, and
/// never where it says zero. All else is the same for every timeout.
pub proof fn law_timeouts_are_taken_as_given(secs: u64, other: u64)
    ensures
        policy_with(secs).timeout_secs is None <==> secs == 0,
        secs != 0 ==> policy_with(secs).timeout_secs == Some(secs),
        policy_with(secs) == (ClientPolicy {
            timeout_secs: policy_with(secs).timeout_secs,
            ..policy_with(other)
        }),
        policy_with(secs).pool_max_idle_per_host == 64,
        policy_with(secs).pool_idle_timeout_secs == 90,
        policy_with(secs).tcp_keepalive_secs == 60,
        policy_with(secs).tcp_nodelay,
{
}

} // verus!
