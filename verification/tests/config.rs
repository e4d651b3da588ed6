use respkv::config::{
    alphanumeric_at, generate_random_alphanumeric, Config, ReplicationInfo, Role, ServerInfo,
    StatsInfo,
};

fn sample_config(role: Role, host: Option<&str>, port: Option<u32>) -> Config {
    Config {
        server: ServerInfo {
            redis_version: "0.1.0".to_string(),
            os: "linux".to_string(),
            arch_bits: "64".to_string(),
            tcp_port: 6379,
        },
        replication: ReplicationInfo {
            role,
            master_host: host.map(|h| h.to_string()),
            master_port: port,
            connected_slaves: 2,
            master_replid: "abc123".to_string(),
            master_repl_offset: 17,
        },
        stats: StatsInfo { total_connections_received: 5, total_commands_processed: 120 },
    }
}

#[test]
fn server_section() {
    let config = sample_config(Role::Master, None, None);
    assert_eq!(
        config.server.to_string(),
        "# Server\r\nredis_version: 0.1.0\r\nos: linux\r\narch_bits: 64\r\ntcp_port: 6379\r\n"
    );
}

#[test]
fn replication_section_of_a_master() {
    let config = sample_config(Role::Master, None, None);
    assert_eq!(
        config.replication.to_string(),
        "# Replication\r\nrole:master\r\nconnected_slaves:2\r\nmaster_replid:abc123\r\nmaster_repl_offset:17\r\n"
    );
}

#[test]
fn replication_section_of_a_replica() {
    let config = sample_config(Role::Replica, Some("localhost"), Some(6380));
    assert_eq!(
        config.replication.to_string(),
        "# Replication\r\nrole:slave\r\nmaster_replid:abc123\r\nmaster_repl_offset:17\r\nmaster_host:localhost\r\nmaster_port:6380\r\n"
    );
}

#[test]
fn replication_section_names_the_master_only_with_host_and_port() {
    let only_host = sample_config(Role::Replica, Some("localhost"), None);
    let only_port = sample_config(Role::Replica, None, Some(6380));
    let expected =
        "# Replication\r\nrole:slave\r\nmaster_replid:abc123\r\nmaster_repl_offset:17\r\n";
    assert_eq!(only_host.replication.to_string(), expected);
    assert_eq!(only_port.replication.to_string(), expected);
}

#[test]
fn replication_section_of_a_master_that_has_a_master() {
    let config = sample_config(Role::Master, Some("h"), Some(1));
    assert_eq!(
        config.replication.to_string(),
        "# Replication\r\nrole:master\r\nconnected_slaves:2\r\nmaster_replid:abc123\r\nmaster_repl_offset:17\r\nmaster_host:h\r\nmaster_port:1\r\n"
    );
}

#[test]
fn counters_section() {
    let config = sample_config(Role::Master, None, None);
    assert_eq!(
        config.stats.to_string(),
        "total_connections_received:5\r\ntotal_commands_processed:120\r\n"
    );
}

#[test]
fn whole_report_is_the_three_sections() {
    let config = sample_config(Role::Replica, Some("10.0.0.1"), Some(7000));
    let expected = format!(
        "{}{}{}",
        config.server.to_string(),
        config.replication.to_string(),
        config.stats.to_string()
    );
    assert_eq!(config.to_string(), expected);
    assert_eq!(
        config.to_string(),
        "# Server\r\nredis_version: 0.1.0\r\nos: linux\r\narch_bits: 64\r\ntcp_port: 6379\r\n# Replication\r\nrole:slave\r\nmaster_replid:abc123\r\nmaster_repl_offset:17\r\nmaster_host:10.0.0.1\r\nmaster_port:7000\r\ntotal_connections_received:5\r\ntotal_commands_processed:120\r\n"
    );
}

#[test]
fn report_writes_the_largest_numbers() {
    let mut config = sample_config(Role::Master, None, None);
    config.server.tcp_port = u32::MAX;
    config.replication.master_repl_offset = u64::MAX;
    assert!(config.to_string().contains("tcp_port: 4294967295\r\n"));
    assert!(config.to_string().contains("master_repl_offset:18446744073709551615\r\n"));
}

#[test]
fn a_connection_is_counted_twice_over() {
    let mut config = sample_config(Role::Master, None, None);
    config.increment_connections();
    assert_eq!(config.replication.connected_slaves, 3);
    assert_eq!(config.stats.total_connections_received, 6);
    assert_eq!(config.stats.total_commands_processed, 120);
    let mut expected = sample_config(Role::Master, None, None);
    expected.replication.connected_slaves = 3;
    expected.stats.total_connections_received = 6;
    assert_eq!(config, expected);
}

#[test]
fn a_closed_connection_is_taken_off() {
    let mut config = sample_config(Role::Master, None, None);
    config.decrement_connections();
    let mut expected = sample_config(Role::Master, None, None);
    expected.replication.connected_slaves = 1;
    assert_eq!(config, expected);
}

#[test]
fn counters_wrap_round() {
    let mut config = sample_config(Role::Master, None, None);
    config.replication.connected_slaves = 0;
    config.decrement_connections();
    assert_eq!(config.replication.connected_slaves, usize::MAX);
    config.stats.total_connections_received = usize::MAX;
    config.increment_connections();
    assert_eq!(config.replication.connected_slaves, 0);
    assert_eq!(config.stats.total_connections_received, 0);
}

#[test]
fn a_new_configuration() {
    let config = Config::new(Role::Replica, 6380, Some("localhost".to_string()), Some(6379),
        "linux".to_string());
    assert_eq!(config.server.redis_version, "0.1.0");
    assert_eq!(config.server.os, "linux");
    assert_eq!(config.server.arch_bits, if usize::BITS == 64 { "64" } else { "32" });
    assert_eq!(config.server.tcp_port, 6380);
    assert_eq!(config.replication.role, Role::Replica);
    assert_eq!(config.replication.master_host, Some("localhost".to_string()));
    assert_eq!(config.replication.master_port, Some(6379));
    assert_eq!(config.replication.connected_slaves, 0);
    assert_eq!(config.replication.master_repl_offset, 0);
    assert_eq!(config.stats.total_connections_received, 0);
    assert_eq!(config.stats.total_commands_processed, 0);
    assert_eq!(config.replication.master_replid.len(), 40);
    assert!(config.replication.master_replid.chars().all(|c| c.is_ascii_alphanumeric()));
}

#[test]
fn a_configuration_with_a_given_id() {
    let config = Config::with_replid(
        Role::Replica,
        7000,
        Some("10.0.0.1".to_string()),
        Some(6379),
        "freebsd".to_string(),
        "0123456789abcdefghijABCDEFGHIJ0123456789".to_string(),
    );
    let expected = Config {
        server: ServerInfo {
            redis_version: "0.1.0".to_string(),
            os: "freebsd".to_string(),
            arch_bits: if usize::BITS == 64 { "64".to_string() } else { "32".to_string() },
            tcp_port: 7000,
        },
        replication: ReplicationInfo {
            role: Role::Replica,
            master_host: Some("10.0.0.1".to_string()),
            master_port: Some(6379),
            connected_slaves: 0,
            master_replid: "0123456789abcdefghijABCDEFGHIJ0123456789".to_string(),
            master_repl_offset: 0,
        },
        stats: StatsInfo { total_connections_received: 0, total_commands_processed: 0 },
    };
    assert_eq!(config, expected);
}

#[test]
fn a_new_master_has_no_master() {
    let config = Config::new(Role::Master, 6379, None, None, "macos".to_string());
    assert_eq!(config.replication.role, Role::Master);
    assert_eq!(config.replication.master_host, None);
    assert_eq!(config.replication.master_port, None);
    assert!(config.to_string().starts_with("# Server\r\nredis_version: 0.1.0\r\nos: macos\r\n"));
    assert!(config.to_string().contains("role:master\r\nconnected_slaves:0\r\nmaster_replid:"));
}

#[test]
fn random_strings_have_the_length_asked_for() {
    for length in [0usize, 1, 2, 40, 257] {
        let text = generate_random_alphanumeric(length);
        assert_eq!(text.len(), length);
        assert_eq!(text.chars().count(), length);
        assert!(text.chars().all(|c| c.is_ascii_alphanumeric()));
    }
}

#[test]
fn random_strings_differ() {
    let one = generate_random_alphanumeric(40);
    let other = generate_random_alphanumeric(40);
    assert_ne!(one, other);
}

#[test]
fn symbols_by_place() {
    assert_eq!(alphanumeric_at(0), "a");
    assert_eq!(alphanumeric_at(1), "b");
    assert_eq!(alphanumeric_at(25), "z");
    assert_eq!(alphanumeric_at(26), "A");
    assert_eq!(alphanumeric_at(51), "Z");
    assert_eq!(alphanumeric_at(52), "0");
    assert_eq!(alphanumeric_at(61), "9");
    let all: String = (0..62).map(alphanumeric_at).collect();
    assert_eq!(all, "abcdefghijklmnopqrstuvwxyzABCDEFGHIJKLMNOPQRSTUVWXYZ0123456789");
}
