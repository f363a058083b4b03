use madis::models::stats::ClientStats;
use madis::models::stats::CpuStats;
use madis::models::stats::KeyspaceStats;
use madis::models::stats::MemoryStats;
use madis::models::stats::RedisServerStatistics;
use madis::models::stats::ServerStats;
use madis::models::stats::Stats;

fn s(text: &str) -> String {
    text.to_string()
}

fn nothing() -> RedisServerStatistics {
    RedisServerStatistics {
        server: ServerStats {
            version: s(""),
            mode: s(""),
            os: s(""),
            arch_bits: 0,
            uptime_in_seconds: 0,
            uptime_in_days: 0,
        },
        clients: ClientStats { connected_clients: 0, blocked_clients: 0 },
        memory: MemoryStats {
            used_memory: 0,
            used_memory_human: s(""),
            used_memory_rss: 0,
            used_memory_peak: 0,
            used_memory_peak_human: s(""),
            used_memory_lua: 0,
            maxmemory: 0,
            maxmemory_policy: s(""),
        },
        stats: Stats {
            total_connections_received: 0,
            total_commands_processed: 0,
            instantaneous_ops_per_sec: 0,
            total_net_input_bytes: 0,
            total_net_output_bytes: 0,
            keyspace_hits: 0,
            keyspace_misses: 0,
        },
        cpu: CpuStats {
            used_cpu_sys: s(""),
            used_cpu_user: s(""),
            used_cpu_sys_children: s(""),
            used_cpu_user_children: s(""),
        },
        keyspace: vec![],
    }
}

#[test]
fn an_empty_report_says_nothing() {
    assert_eq!(RedisServerStatistics::parse(""), nothing());
    assert_eq!(RedisServerStatistics::from(s("")), nothing());
}

#[test]
fn a_report_is_read_section_by_section() {
    let report = "# Server\r\nredis_version:7.2.4\r\nredis_mode:standalone\r\n\
os:Linux 6.1 x86_64\r\narch_bits:64\r\nuptime_in_seconds:86500\r\nuptime_in_days:1\r\n\
tcp_port:6379\r\n\r\n# Clients\r\nconnected_clients:3\r\nblocked_clients:1\r\n\r\n\
# Memory\r\nused_memory:1048576\r\nused_memory_human:1.00M\r\nused_memory_rss:2097152\r\n\
used_memory_peak:3145728\r\nused_memory_peak_human:3.00M\r\nused_memory_lua:31744\r\n\
maxmemory:0\r\nmaxmemory_policy:noeviction\r\n\r\n# Stats\r\n\
total_connections_received:10\r\ntotal_commands_processed:200\r\n\
instantaneous_ops_per_sec:5\r\ntotal_net_input_bytes:4096\r\n\
total_net_output_bytes:8192\r\nkeyspace_hits:7\r\nkeyspace_misses:2\r\n\r\n\
# CPU\r\nused_cpu_sys:1.25\r\nused_cpu_user:2.5\r\nused_cpu_sys_children:0.000000\r\n\
used_cpu_user_children:0.01\r\n\r\n# Keyspace\r\n\
db0:keys=12,expires=3,avg_ttl=4500\r\ndb3:keys=1,expires=0,avg_ttl=0\r\n";
    let expected = RedisServerStatistics {
        server: ServerStats {
            version: s("7.2.4"),
            mode: s("standalone"),
            os: s("Linux 6.1 x86_64"),
            arch_bits: 64,
            uptime_in_seconds: 86500,
            uptime_in_days: 1,
        },
        clients: ClientStats { connected_clients: 3, blocked_clients: 1 },
        memory: MemoryStats {
            used_memory: 1048576,
            used_memory_human: s("1.00M"),
            used_memory_rss: 2097152,
            used_memory_peak: 3145728,
            used_memory_peak_human: s("3.00M"),
            used_memory_lua: 31744,
            maxmemory: 0,
            maxmemory_policy: s("noeviction"),
        },
        stats: Stats {
            total_connections_received: 10,
            total_commands_processed: 200,
            instantaneous_ops_per_sec: 5,
            total_net_input_bytes: 4096,
            total_net_output_bytes: 8192,
            keyspace_hits: 7,
            keyspace_misses: 2,
        },
        cpu: CpuStats {
            used_cpu_sys: s("1.25"),
            used_cpu_user: s("2.5"),
            used_cpu_sys_children: s("0.000000"),
            used_cpu_user_children: s("0.01"),
        },
        keyspace: vec![
            KeyspaceStats { database: s("db0"), keys: 12, expires: 3, avg_ttl: 4500 },
            KeyspaceStats { database: s("db3"), keys: 1, expires: 0, avg_ttl: 0 },
        ],
    };
    assert_eq!(RedisServerStatistics::parse(report), expected);
    assert_eq!(RedisServerStatistics::from(s(report)), expected);
}

#[test]
fn a_value_counts_in_its_own_section_only() {
    let stats = RedisServerStatistics::parse("redis_version:1\n# Clients\nredis_version:2\n");
    assert_eq!(stats.server.version, "");
    let stats = RedisServerStatistics::parse("# Server\nconnected_clients:4\n");
    assert_eq!(stats.clients.connected_clients, 0);
}

#[test]
fn the_last_value_of_a_name_counts() {
    let stats = RedisServerStatistics::parse(
        "# Server\nredis_version:1\narch_bits:32\n# Server\nredis_version:2\narch_bits:x\n",
    );
    assert_eq!(stats.server.version, "2");
    assert_eq!(stats.server.arch_bits, 0);
}

#[test]
fn lines_without_exactly_one_colon_are_passed_over() {
    let stats = RedisServerStatistics::parse(
        "# Server\nos:Linux:x\nredis_mode\nredis_version:6\n\n# Keyspace\ndb0\ndb1:a:b\n",
    );
    assert_eq!(stats.server.os, "");
    assert_eq!(stats.server.mode, "");
    assert_eq!(stats.server.version, "6");
    assert_eq!(stats.keyspace, vec![]);
}

#[test]
fn numbers_that_cannot_be_read_are_zero() {
    let stats = RedisServerStatistics::parse(
        "# Server\narch_bits:4294967296\nuptime_in_seconds:-5\nuptime_in_days:+5\n\
# Clients\nconnected_clients:4294967295\nblocked_clients:1.5\n",
    );
    assert_eq!(stats.server.arch_bits, 0);
    assert_eq!(stats.server.uptime_in_seconds, 0);
    assert_eq!(stats.server.uptime_in_days, 5);
    assert_eq!(stats.clients.connected_clients, 4294967295);
    assert_eq!(stats.clients.blocked_clients, 0);
}

#[test]
fn a_header_gives_the_section_its_name() {
    let stats = RedisServerStatistics::parse("# # Server\nos:a\n#Server\nos:b\n# Server \nos:c\n");
    assert_eq!(stats.server.os, "a");
    let stats = RedisServerStatistics::parse("# Server\n#\nos:a\n");
    assert_eq!(stats.server.os, "");
}

#[test]
fn a_database_lists_its_numbers_with_commas() {
    let stats = RedisServerStatistics::parse(
        "# Keyspace\ndb0:keys=1,keys=2,expires,avg_ttl=9=9,other=3\ndb1:\n",
    );
    assert_eq!(
        stats.keyspace,
        vec![
            KeyspaceStats { database: s("db0"), keys: 2, expires: 0, avg_ttl: 0 },
            KeyspaceStats { database: s("db1"), keys: 0, expires: 0, avg_ttl: 0 },
        ]
    );
}
