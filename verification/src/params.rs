//! How to reach a database: the parameters of a connection as plain data,
//! and their way into and out of the driver's configuration.

use crate::error::report;
use crate::error::ErrorView;
use crate::error::PostgresError;
use std::path::PathBuf;
use std::time::Duration;
use tokio_postgres::Config;
use vstd::prelude::*;
use vstd::std_specs::convert::FromSpecImpl;

verus! {

/// `std::path::PathBuf`: an owned path of the file system.
#[verifier::external_type_specification]
#[verifier::external_body]
pub struct ExPathBuf(PathBuf);

/// `tokio_postgres::Config`: the driver's configuration of a connection.
#[verifier::external_type_specification]
#[verifier::external_body]
pub struct ExConfig(Config);

/// Where a database listens.
#[derive(Debug, PartialEq, Eq)]
pub enum Host {
    /// The name or address of a machine.
    Tcp(String),
    /// The directory of a local socket.
    Unix(PathBuf),
}

/// What a `Host` stands for.
pub enum HostView {
    Tcp(Seq<char>),
    Unix(PathBuf),
}

impl View for Host {
    type V = HostView;

    open spec fn view(&self) -> HostView {
        match self {
            Host::Tcp(name) => HostView::Tcp(name@),
            Host::Unix(path) => HostView::Unix(*path),
        }
    }
}

/// The parameters of a connection.
///
/// Hosts and ports are lists: the driver tries the hosts in order and
/// matches the ports to them by position.
#[derive(Debug, PartialEq, Eq)]
pub struct ConnectParams {
    hosts: Vec<Host>,
    ports: Vec<u16>,
    user: Option<String>,
    password: Option<Vec<u8>>,
    dbname: Option<String>,
    options: Option<String>,
    connect_timeout: Option<Duration>,
}

/// What a `ConnectParams` stands for, and what a configuration holds of it.
pub struct ParamsView {
    pub hosts: Seq<HostView>,
    pub ports: Seq<u16>,
    pub user: Option<Seq<char>>,
    pub password: Option<Seq<u8>>,
    pub dbname: Option<Seq<char>>,
    pub options: Option<Seq<char>>,
    pub connect_timeout: Option<Duration>,
}

/// The text that an optional string holds.
pub open spec fn text_of(text: Option<String>) -> Option<Seq<char>> {
    match text {
        Some(text) => Some(text@),
        None => None,
    }
}

impl View for ConnectParams {
    type V = ParamsView;

    closed spec fn view(&self) -> ParamsView {
        ParamsView {
            hosts: self.hosts@.map_values(|host: Host| host@),
            ports: self.ports@,
            user: text_of(self.user),
            password: match self.password {
                Some(password) => Some(password@),
                None => None,
            },
            dbname: text_of(self.dbname),
            options: text_of(self.options),
            connect_timeout: self.connect_timeout,
        }
    }
}

/// The hosts, ports, user, password, database, options and connect timeout
/// that a configuration holds.
pub uninterp spec fn described(config: Config) -> ParamsView;

/// Whether a text opens with a slash, as the path of a socket does.
pub open spec fn is_path(name: Seq<char>) -> bool {
    name.len() > 0 && name[0] == '/'
}

/// The directory of a socket that a name which opens with a slash stands
/// for: the path that spells as the name does.
pub uninterp spec fn socket_directory(name: Seq<char>) -> PathBuf;

/// Whether a configuration took a host as `taken` when given it as `given`:
/// as it was given, but that a name that opens with a slash is taken for
/// the directory of a socket.
pub open spec fn taken_as(given: HostView, taken: HostView) -> bool {
    match given {
        HostView::Tcp(name) => if is_path(name) {
            taken == HostView::Unix(socket_directory(name))
        } else {
            taken == given
        },
        HostView::Unix(_) => taken == given,
    }
}

/// Whether `config` holds what `params` holds.
pub open spec fn configures(params: ParamsView, config: ParamsView) -> bool {
    &&& config.hosts.len() == params.hosts.len()
    &&& forall|i: int|
        0 <= i < params.hosts.len() ==> taken_as(params.hosts[i], #[trigger] config.hosts[i])
    &&& config.ports == params.ports
    &&& config.user == params.user
    &&& config.password == params.password
    &&& config.dbname == params.dbname
    &&& config.options == params.options
    &&& config.connect_timeout == params.connect_timeout
}

/// No hosts, no ports, and nothing else set.
pub open spec fn no_params() -> ParamsView {
    ParamsView {
        hosts: Seq::empty(),
        ports: Seq::empty(),
        user: None,
        password: None,
        dbname: None,
        options: None,
        connect_timeout: None,
    }
}

/// `Config::new`: a configuration without hosts, ports, user, password,
/// database, options or connect timeout.
#[verifier::external_body]
fn new_config() -> (config: Config)
    ensures
        described(config) == no_params(),
{
    Config::new()
}

/// `Config::host`: adds a host behind those that the configuration holds.
/// The host is added under its name; where there are local sockets, which
/// are the systems that this library is built for, a name that opens with a
/// slash is added as the directory of a socket, the path made from the name.
#[verifier::external_body]
fn add_host(config: &mut Config, name: &str)
    ensures
        described(*final(config)).hosts.len() == described(*old(config)).hosts.len() + 1,
        described(*final(config)).hosts.drop_last() == described(*old(config)).hosts,
        described(*final(config)).hosts.last() == (if is_path(name@) {
            HostView::Unix(socket_directory(name@))
        } else {
            HostView::Tcp(name@)
        }),
        described(*final(config)) == (ParamsView {
            hosts: described(*final(config)).hosts,
            ..described(*old(config))
        }),
{
    let _ = config.host(name);
}

/// `Config::host_path`: adds the directory of a local socket behind the
/// hosts that the configuration holds.
#[verifier::external_body]
fn add_host_path(config: &mut Config, path: &PathBuf)
    ensures
        described(*final(config)) == (ParamsView {
            hosts: described(*old(config)).hosts.push(HostView::Unix(*path)),
            ..described(*old(config))
        }),
{
    let _ = config.host_path(path);
}

/// `Config::port`: adds a port behind those that the configuration holds.
#[verifier::external_body]
fn add_port(config: &mut Config, port: u16)
    ensures
        described(*final(config)) == (ParamsView {
            ports: described(*old(config)).ports.push(port),
            ..described(*old(config))
        }),
{
    let _ = config.port(port);
}

/// `Config::user`: sets the user to authenticate as.
#[verifier::external_body]
fn set_user(config: &mut Config, user: &str)
    ensures
        described(*final(config)) == (ParamsView { user: Some(user@), ..described(*old(config)) }),
{
    let _ = config.user(user);
}

/// `Config::password`: sets the password to authenticate with.
#[verifier::external_body]
fn set_password(config: &mut Config, password: &Vec<u8>)
    ensures
        described(*final(config)) == (ParamsView {
            password: Some(password@),
            ..described(*old(config))
        }),
{
    let _ = config.password(password);
}

/// `Config::dbname`: sets the database to connect to.
#[verifier::external_body]
fn set_dbname(config: &mut Config, dbname: &str)
    ensures
        described(*final(config)) == (ParamsView {
            dbname: Some(dbname@),
            ..described(*old(config))
        }),
{
    let _ = config.dbname(dbname);
}

/// `Config::options`: sets the command line options for the server.
#[verifier::external_body]
fn set_options(config: &mut Config, options: &str)
    ensures
        described(*final(config)) == (ParamsView {
            options: Some(options@),
            ..described(*old(config))
        }),
{
    let _ = config.options(options);
}

/// `Config::connect_timeout`: sets the limit on each attempt to connect.
#[verifier::external_body]
fn set_connect_timeout(config: &mut Config, connect_timeout: Duration)
    ensures
        described(*final(config)) == (ParamsView {
            connect_timeout: Some(connect_timeout),
            ..described(*old(config))
        }),
{
    let _ = config.connect_timeout(connect_timeout);
}

/// `Config::get_hosts`: the hosts that the configuration holds, in order,
/// each copied into a `Host` of the same kind.
#[verifier::external_body]
fn get_hosts(config: &Config) -> (hosts: Vec<Host>)
    ensures
        hosts@.map_values(|host: Host| host@) == described(*config).hosts,
{
    config.get_hosts().iter().map(
        |host| match host {
            tokio_postgres::config::Host::Tcp(name) => Host::Tcp(name.clone()),
            tokio_postgres::config::Host::Unix(path) => Host::Unix(path.clone()),
        },
    ).collect()
}

/// `Config::get_ports`: the ports that the configuration holds, in order.
#[verifier::external_body]
fn get_ports(config: &Config) -> (ports: Vec<u16>)
    ensures
        ports@ == described(*config).ports,
{
    config.get_ports().to_owned()
}

/// `Config::get_user`: the user, if one is set.
#[verifier::external_body]
fn get_user(config: &Config) -> (user: Option<String>)
    ensures
        text_of(user) == described(*config).user,
{
    config.get_user().map(ToOwned::to_owned)
}

/// `Config::get_password`: the password, if one is set.
#[verifier::external_body]
fn get_password(config: &Config) -> (password: Option<Vec<u8>>)
    ensures
        match password {
            Some(bytes) => described(*config).password == Some(bytes@),
            None => described(*config).password is None,
        },
{
    config.get_password().map(ToOwned::to_owned)
}

/// `Config::get_dbname`: the database, if one is set.
#[verifier::external_body]
fn get_dbname(config: &Config) -> (dbname: Option<String>)
    ensures
        text_of(dbname) == described(*config).dbname,
{
    config.get_dbname().map(ToOwned::to_owned)
}

/// `Config::get_options`: the command line options, if any are set.
#[verifier::external_body]
fn get_options(config: &Config) -> (options: Option<String>)
    ensures
        text_of(options) == described(*config).options,
{
    config.get_options().map(ToOwned::to_owned)
}

/// `Config::get_connect_timeout`: the connect timeout, if one is set.
#[verifier::external_body]
fn get_connect_timeout(config: &Config) -> (connect_timeout: Option<Duration>)
    ensures
        connect_timeout == described(*config).connect_timeout,
{
    config.get_connect_timeout().cloned()
}

/// What the driver reads from a connection string, in key-value or in URL
/// form: the parameters that the string sets, or the text of the driver's
/// report where it refuses the string. The driver reads the text alone; it
/// differs only between kinds of system, in that it takes a host that opens
/// with a slash for the directory of a socket where there are local
/// sockets, which are the systems that this library is built for.
pub uninterp spec fn connection_string(text: Seq<char>) -> Result<ParamsView, Seq<char>>;

/// `str::parse::<Config>`: reads a configuration from a connection string.
/// The configuration holds what `connection_string` gives for the text; an
/// error is returned where that is a refusal, and reports it.
#[verifier::external_body]
fn parse_config(s: &str) -> (parsed: Result<Config, tokio_postgres::Error>)
    ensures
        match parsed {
            Ok(config) => connection_string(s@) == Ok::<ParamsView, Seq<char>>(described(config)),
            Err(error) => connection_string(s@) == Err::<ParamsView, Seq<char>>(report(error)),
        },
{
    s.parse()
}

impl From<ConnectParams> for Config {
    /// The configuration that holds the parameters and is otherwise as the
    /// driver makes it.
    fn from(from: ConnectParams) -> (config: Config)
        ensures
            configures(from@, described(config)),
    {
        let mut config = new_config();
        let mut next: usize = 0;
        while next < from.hosts.len()
            invariant
                next <= from.hosts.len(),
                described(config).hosts.len() == next,
                forall|i: int|
                    0 <= i < next ==> taken_as(from@.hosts[i], #[trigger] described(config).hosts[i]),
                described(config) == (ParamsView {
                    hosts: described(config).hosts,
                    ..no_params()
                }),
            decreases from.hosts.len() - next,
        {
            let ghost before = described(config).hosts;
            match &from.hosts[next] {
                Host::Tcp(addr) => add_host(&mut config, addr.as_str()),
                Host::Unix(path) => add_host_path(&mut config, path),
            }
            proof {
                let after = described(config).hosts;
                assert(after.drop_last() == before);
                assert forall|i: int| 0 <= i <= next implies taken_as(
                    from@.hosts[i],
                    #[trigger] after[i],
                ) by {
                    if i < next {
                        assert(after[i] == after.drop_last()[i]);
                    } else {
                        assert(after[i] == after.last());
                        assert(from@.hosts[i] == from.hosts@[i]@);
                    }
                }
            }
            next = next + 1;
        }
        let ghost hosts = described(config).hosts;
        let mut next: usize = 0;
        while next < from.ports.len()
            invariant
                next <= from.ports.len(),
                described(config).hosts == hosts,
                described(config).ports == from.ports@.take(next as int),
                described(config) == (ParamsView {
                    hosts: described(config).hosts,
                    ports: described(config).ports,
                    ..no_params()
                }),
            decreases from.ports.len() - next,
        {
            add_port(&mut config, from.ports[next]);
            proof {
                assert(from.ports@.take(next as int).push(from.ports@[next as int])
                    =~= from.ports@.take(next as int + 1));
            }
            next = next + 1;
        }
        proof {
            assert(from.ports@.take(from.ports@.len() as int) =~= from.ports@);
        }
        if let Some(user) = &from.user {
            set_user(&mut config, user.as_str());
        }
        if let Some(password) = &from.password {
            set_password(&mut config, password);
        }
        if let Some(dbname) = &from.dbname {
            set_dbname(&mut config, dbname.as_str());
        }
        if let Some(options) = &from.options {
            set_options(&mut config, options.as_str());
        }
        if let Some(connect_timeout) = from.connect_timeout {
            set_connect_timeout(&mut config, connect_timeout);
        }
        config
    }
}

impl FromSpecImpl<ConnectParams> for Config {
    open spec fn obeys_from_spec() -> bool {
        false
    }

    open spec fn from_spec(from: ConnectParams) -> Config {
        arbitrary()
    }
}

impl From<Config> for ConnectParams {
    /// The parameters that the configuration holds; what else it holds is
    /// left behind.
    fn from(from: Config) -> (params: ConnectParams)
        ensures
            params@ == described(from),
    {
        ConnectParams {
            hosts: get_hosts(&from),
            ports: get_ports(&from),
            user: get_user(&from),
            password: get_password(&from),
            dbname: get_dbname(&from),
            options: get_options(&from),
            connect_timeout: get_connect_timeout(&from),
        }
    }
}

impl FromSpecImpl<Config> for ConnectParams {
    open spec fn obeys_from_spec() -> bool {
        false
    }

    open spec fn from_spec(from: Config) -> ConnectParams {
        arbitrary()
    }
}

impl ConnectParams {
    /// Reads the parameters from a connection string, in key-value or in
    /// URL form: the parameters are those that the driver reads from the
    /// string. A string that the driver cannot read is refused with the
    /// driver's report.
    pub fn from_str(s: &str) -> (parsed: Result<ConnectParams, PostgresError>)
        ensures
            match parsed {
                Ok(params) => connection_string(s@) == Ok::<ParamsView, Seq<char>>(params@),
                Err(error) => connection_string(s@) matches Err(text) && error@
                    == ErrorView::Postgres(text),
            },
    {
        match parse_config(s) {
            Ok(config) => Ok(ConnectParams::from(config)),
            Err(error) => Err(PostgresError::from(error)),
        }
    }
}

impl std::str::FromStr for ConnectParams {
    type Err = PostgresError;

    /// Reads the parameters from a connection string, as the function of
    /// the same name on `ConnectParams` does.
    fn from_str(s: &str) -> (parsed: Result<ConnectParams, PostgresError>)
        ensures
            match parsed {
                Ok(params) => connection_string(s@) == Ok::<ParamsView, Seq<char>>(params@),
                Err(error) => connection_string(s@) matches Err(text) && error@
                    == ErrorView::Postgres(text),
            },
    {
        ConnectParams::from_str(s)
    }
}

/// Parameters come back from a configuration as they went in, where no
/// host is named like a path.
pub proof fn lemma_params_come_back(params: ParamsView, config: ParamsView)
    requires
        configures(params, config),
        forall|i: int|
            0 <= i < params.hosts.len() ==> (#[trigger] params.hosts[i] matches HostView::Tcp(
                name,
            ) ==> !is_path(name)),
    ensures
        config == params,
{
    assert(config.hosts =~= params.hosts) by {
        assert forall|i: int| 0 <= i < params.hosts.len() implies config.hosts[i]
            == params.hosts[i] by {
            assert(taken_as(params.hosts[i], config.hosts[i]));
        }
    }
}

} // verus!
