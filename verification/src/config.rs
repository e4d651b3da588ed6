//! What the server reports about itself: its build, its place in a
//! replication set-up and its connection counters.

use vstd::prelude::*;
use vstd::string::*;
use crate::text::{decimal_text, u64_to_string};

verus! {

/// The part a server plays in a replication set-up.
#[derive(Clone, Copy, Debug, PartialEq, Eq)]
pub enum Role {
    Master,
    Replica,
}

/// One line of a report: a label, a value and the line end.
pub open spec fn line(label: Seq<char>, value: Seq<char>) -> Seq<char> {
    label + value + "\r\n"@
}

/// Appends one line of a report to `out`.
fn push_line(out: &mut String, label: &str, value: &str)
    ensures
        final(out)@ == old(out)@ + line(label@, value@),
{
    out.append(label);
    out.append(value);
    out.append("\r\n");
    assert(out@ =~= old(out)@ + line(label@, value@));
}

/// The server's build and where it listens.
#[derive(Clone, Debug, PartialEq, Eq)]
pub struct ServerInfo {
    pub redis_version: String,
    pub os: String,
    pub arch_bits: String,
    pub tcp_port: u32,
}

impl ServerInfo {
    /// The text of the server section.
    pub open spec fn report(&self) -> Seq<char> {
        "# Server\r\n"@ + line("redis_version: "@, self.redis_version@) + line("os: "@, self.os@)
            + line("arch_bits: "@, self.arch_bits@) + line(
            "tcp_port: "@,
            decimal_text(self.tcp_port as nat),
        )
    }

    /// Writes the server section.
    pub fn to_string(&self) -> (text: String)
        ensures
            text@ == self.report(),
    {
        let mut builder = "# Server\r\n".to_owned();
        push_line(&mut builder, "redis_version: ", self.redis_version.as_str());
        push_line(&mut builder, "os: ", self.os.as_str());
        push_line(&mut builder, "arch_bits: ", self.arch_bits.as_str());
        let port = u64_to_string(self.tcp_port as u64);
        push_line(&mut builder, "tcp_port: ", port.as_str());
        builder
    }
}

/// The server's place in a replication set-up.
#[derive(Clone, Debug, PartialEq, Eq)]
pub struct ReplicationInfo {
    pub role: Role,
    pub master_host: Option<String>,
    pub master_port: Option<u32>,
    pub connected_slaves: usize,
    pub master_replid: String,
    pub master_repl_offset: u64,
}

impl ReplicationInfo {
    /// The name under which the role is reported.
    pub open spec fn role_name(&self) -> Seq<char> {
        match self.role {
            Role::Master => "master"@,
            Role::Replica => "slave"@,
        }
    }

    /// The line that counts the connected replicas; only a master has it.
    pub open spec fn replicas_line(&self) -> Seq<char> {
        match self.role {
            Role::Master => line("connected_slaves:"@, decimal_text(self.connected_slaves as nat)),
            Role::Replica => Seq::empty(),
        }
    }

    /// The two lines that name the master; present where both its host and
    /// its port are known.
    pub open spec fn master_lines(&self) -> Seq<char> {
        match (self.master_host, self.master_port) {
            (Some(host), Some(port)) => line("master_host:"@, host@) + line(
                "master_port:"@,
                decimal_text(port as nat),
            ),
            _ => Seq::empty(),
        }
    }

    /// The text of the replication section.
    pub open spec fn report(&self) -> Seq<char> {
        "# Replication\r\n"@ + line("role:"@, self.role_name()) + self.replicas_line() + line(
            "master_replid:"@,
            self.master_replid@,
        ) + line("master_repl_offset:"@, decimal_text(self.master_repl_offset as nat))
            + self.master_lines()
    }

    /// Writes the replication section.
    pub fn to_string(&self) -> (text: String)
        ensures
            text@ == self.report(),
    {
        let mut builder = "# Replication\r\n".to_owned();
        match self.role {
            Role::Master => {
                push_line(&mut builder, "role:", "master");
                let replicas = u64_to_string(self.connected_slaves as u64);
                push_line(&mut builder, "connected_slaves:", replicas.as_str());
            },
            Role::Replica => {
                push_line(&mut builder, "role:", "slave");
                assert(builder@ =~= builder@ + self.replicas_line());
            },
        }
        push_line(&mut builder, "master_replid:", self.master_replid.as_str());
        let offset = u64_to_string(self.master_repl_offset);
        push_line(&mut builder, "master_repl_offset:", offset.as_str());
        let ghost head = builder@;
        match (&self.master_host, self.master_port) {
            (Some(host), Some(port)) => {
                push_line(&mut builder, "master_host:", host.as_str());
                let port_text = u64_to_string(port as u64);
                push_line(&mut builder, "master_port:", port_text.as_str());
                assert(builder@ =~= head + self.master_lines());
            },
            _ => {
                assert(builder@ =~= head + self.master_lines());
            },
        }
        builder
    }
}

/// The server's counters.
#[derive(Clone, Debug, PartialEq, Eq)]
pub struct StatsInfo {
    pub total_connections_received: usize,
    pub total_commands_processed: usize,
}

impl StatsInfo {
    /// The text of the counters.
    pub open spec fn report(&self) -> Seq<char> {
        line("total_connections_received:"@, decimal_text(self.total_connections_received as nat))
            + line("total_commands_processed:"@, decimal_text(self.total_commands_processed as nat))
    }

    /// Writes the counters.
    pub fn to_string(&self) -> (text: String)
        ensures
            text@ == self.report(),
    {
        let mut builder = String::new();
        let received = u64_to_string(self.total_connections_received as u64);
        push_line(&mut builder, "total_connections_received:", received.as_str());
        assert(builder@ =~= line(
            "total_connections_received:"@,
            decimal_text(self.total_connections_received as nat),
        ));
        let processed = u64_to_string(self.total_commands_processed as u64);
        push_line(&mut builder, "total_commands_processed:", processed.as_str());
        builder
    }
}

/// Everything the server reports about itself.
#[derive(Clone, Debug, PartialEq, Eq)]
pub struct Config {
    pub server: ServerInfo,
    pub replication: ReplicationInfo,
    pub stats: StatsInfo,
}

/// The counter after one more: counters wrap round at the top.
pub open spec fn one_more(n: usize) -> usize {
    if n < usize::MAX {
        (n + 1) as usize
    } else {
        0
    }
}

/// The counter after one less: counters wrap round at zero.
pub open spec fn one_less(n: usize) -> usize {
    if n > 0 {
        (n - 1) as usize
    } else {
        usize::MAX
    }
}

/// The symbols that a replication id is made of: the small letters, the
/// capitals and the digits, in this order.
pub open spec fn charset() -> Seq<char> {
    "abcdefghijklmnopqrstuvwxyzABCDEFGHIJKLMNOPQRSTUVWXYZ0123456789"@
}

/// How many symbols [`charset`] holds.
pub const CHARSET_LEN: usize = 62;

/// `rand::Rng::gen_range` on the generator that `rand::thread_rng` hands
/// out, for the range from zero up to and without `bound`. All that is
/// claimed of the result is that it lies in that range; which index it is
/// differs from call to call. The range must hold a number, since
/// `gen_range` panics on an empty one.
#[verifier::external_body]
fn random_below(bound: usize) -> (index: usize)
    requires
        bound > 0,
    ensures
        index < bound,
{
    rand::Rng::gen_range(&mut rand::thread_rng(), 0..bound)
}

/// The symbol at place `index` of [`charset`], as a string of its own.
pub fn alphanumeric_at(index: usize) -> (symbol: &'static str)
    requires
        index < CHARSET_LEN,
    ensures
        symbol@ == seq![charset()[index as int]],
{
    let symbols: &'static str = "abcdefghijklmnopqrstuvwxyzABCDEFGHIJKLMNOPQRSTUVWXYZ0123456789";
    proof {
        reveal_strlit("abcdefghijklmnopqrstuvwxyzABCDEFGHIJKLMNOPQRSTUVWXYZ0123456789");
    }
    let symbol = symbols.substring_ascii(index, index + 1);
    assert(symbol@ =~= seq![charset()[index as int]]);
    symbol
}

/// A string of `length` symbols of [`charset`], each drawn at random.
pub fn generate_random_alphanumeric(length: usize) -> (text: String)
    ensures
        text@.len() == length,
        forall|i: int| 0 <= i < length ==> charset().contains(#[trigger] text@[i]),
{
    let mut text = String::new();
    let mut i: usize = 0;
    proof {
        reveal_strlit("abcdefghijklmnopqrstuvwxyzABCDEFGHIJKLMNOPQRSTUVWXYZ0123456789");
    }
    while i < length
        invariant
            i <= length,
            charset().len() == CHARSET_LEN,
            text@.len() == i,
            forall|k: int| 0 <= k < i ==> charset().contains(#[trigger] text@[k]),
        decreases length - i,
    {
        let index = random_below(CHARSET_LEN);
        let ghost before = text@;
        text.append(alphanumeric_at(index));
        proof {
            assert(text@ =~= before.push(charset()[index as int]));
            assert forall|k: int| 0 <= k < i + 1 implies charset().contains(#[trigger] text@[k]) by {
                if k < i {
                    assert(text@[k] == before[k]);
                }
            }
        }
        i += 1;
    }
    text
}

/// How many symbols a replication id has.
pub const REPLID_LEN: usize = 40;

impl Config {
    /// The configuration of a server that starts with the replication id
    /// `replid`: version `0.1.0`, the operating system's name as given, the
    /// machine's word size, and every counter at zero.
    pub fn with_replid(
        role: Role,
        port: u32,
        master_host: Option<String>,
        master_port: Option<u32>,
        os: String,
        replid: String,
    ) -> (config: Self)
        ensures
            config.server.redis_version@ == "0.1.0"@,
            config.server.os == os,
            config.server.arch_bits@ == if usize::BITS == 64 {
                "64"@
            } else {
                "32"@
            },
            config.server.tcp_port == port,
            config.replication.role == role,
            config.replication.master_host == master_host,
            config.replication.master_port == master_port,
            config.replication.connected_slaves == 0,
            config.replication.master_replid == replid,
            config.replication.master_repl_offset == 0,
            config.stats.total_connections_received == 0,
            config.stats.total_commands_processed == 0,
    {
        let arch_bits = if usize::BITS == 64 {
            "64".to_owned()
        } else {
            "32".to_owned()
        };
        Config {
            server: ServerInfo {
                redis_version: "0.1.0".to_owned(),
                os,
                arch_bits,
                tcp_port: port,
            },
            replication: ReplicationInfo {
                role,
                master_host,
                master_port,
                connected_slaves: 0,
                master_replid: replid,
                master_repl_offset: 0,
            },
            stats: StatsInfo { total_connections_received: 0, total_commands_processed: 0 },
        }
    }

    /// The configuration of a server that starts, as [`Config::with_replid`]
    /// makes it, with a fresh replication id of [`REPLID_LEN`] symbols of
    /// [`charset`], drawn at random.
    pub fn new(
        role: Role,
        port: u32,
        master_host: Option<String>,
        master_port: Option<u32>,
        os: String,
    ) -> (config: Self)
        ensures
            config.server.redis_version@ == "0.1.0"@,
            config.server.os == os,
            config.server.arch_bits@ == if usize::BITS == 64 {
                "64"@
            } else {
                "32"@
            },
            config.server.tcp_port == port,
            config.replication.role == role,
            config.replication.master_host == master_host,
            config.replication.master_port == master_port,
            config.replication.connected_slaves == 0,
            config.replication.master_replid@.len() == REPLID_LEN,
            forall|i: int|
                0 <= i < REPLID_LEN ==> charset().contains(
                    #[trigger] config.replication.master_replid@[i],
                ),
            config.replication.master_repl_offset == 0,
            config.stats.total_connections_received == 0,
            config.stats.total_commands_processed == 0,
    {
        let replid = generate_random_alphanumeric(REPLID_LEN);
        Config::with_replid(role, port, master_host, master_port, os, replid)
    }

    /// The whole report: the server section, the replication section and
    /// the counters.
    pub open spec fn report(&self) -> Seq<char> {
        self.server.report() + self.replication.report() + self.stats.report()
    }

    /// Counts a connection that was accepted: one more replica is
    /// connected and one more connection was received. Nothing else changes.
    pub fn increment_connections(&mut self)
        ensures
            *final(self) == (Config {
                replication: ReplicationInfo {
                    connected_slaves: one_more(old(self).replication.connected_slaves),
                    ..old(self).replication
                },
                stats: StatsInfo {
                    total_connections_received: one_more(
                        old(self).stats.total_connections_received,
                    ),
                    ..old(self).stats
                },
                ..*old(self)
            }),
    {
        self.replication.connected_slaves = self.replication.connected_slaves.wrapping_add(1);
        self.stats.total_connections_received = self.stats.total_connections_received.wrapping_add(
            1,
        );
    }

    /// Counts a connection that was closed: one replica less is connected.
    /// Nothing else changes.
    pub fn decrement_connections(&mut self)
        ensures
            *final(self) == (Config {
                replication: ReplicationInfo {
                    connected_slaves: one_less(old(self).replication.connected_slaves),
                    ..old(self).replication
                },
                ..*old(self)
            }),
    {
        self.replication.connected_slaves = self.replication.connected_slaves.wrapping_sub(1);
    }

    /// Writes the whole report, in the layout of the `INFO` command.
    pub fn to_string(&self) -> (text: String)
        ensures
            text@ == self.report(),
    {
        let mut builder = String::new();
        builder.append(self.server.to_string().as_str());
        builder.append(self.replication.to_string().as_str());
        builder.append(self.stats.to_string().as_str());
        assert(builder@ =~= self.report());
        builder
    }
}

} // verus!
