//! What a server reports about itself, read from its report text.
//!
//! The report is a text of lines. A line that starts with `#` names the
//! section that the following lines belong to. A line with exactly one colon
//! gives a value under a name. Every other line is passed over.

use vstd::prelude::*;
use vstd::string::StringExecFns;
use vstd::string::StrSliceExecFns;
use crate::text::chars_of;
use crate::text::lines_of;
use crate::text::number_or_zero;
use crate::text::parse_number;
use crate::text::split_on;
use crate::text::split_text;
use crate::text::text_eq;
use crate::text::text_lines;

verus! {

/// The server itself.
#[derive(Debug, Clone, PartialEq, Eq)]
pub struct ServerStats {
    pub version: String,
    pub mode: String,
    pub os: String,
    pub arch_bits: u32,
    pub uptime_in_seconds: u64,
    pub uptime_in_days: u64,
}

/// The clients of the server.
#[derive(Debug, Clone, PartialEq, Eq)]
pub struct ClientStats {
    pub connected_clients: u32,
    pub blocked_clients: u32,
}

/// The memory of the server.
#[derive(Debug, Clone, PartialEq, Eq)]
pub struct MemoryStats {
    pub used_memory: u64,
    pub used_memory_human: String,
    pub used_memory_rss: u64,
    pub used_memory_peak: u64,
    pub used_memory_peak_human: String,
    pub used_memory_lua: u64,
    pub maxmemory: u64,
    pub maxmemory_policy: String,
}

/// The traffic of the server.
#[derive(Debug, Clone, PartialEq, Eq)]
pub struct Stats {
    pub total_connections_received: u64,
    pub total_commands_processed: u64,
    pub instantaneous_ops_per_sec: u64,
    pub total_net_input_bytes: u64,
    pub total_net_output_bytes: u64,
    pub keyspace_hits: u64,
    pub keyspace_misses: u64,
}

/// The processor time of the server, each value as the report words it.
#[derive(Debug, Clone, PartialEq, Eq)]
pub struct CpuStats {
    pub used_cpu_sys: String,
    pub used_cpu_user: String,
    pub used_cpu_sys_children: String,
    pub used_cpu_user_children: String,
}

/// One database of the server.
#[derive(Debug, Clone, PartialEq, Eq)]
pub struct KeyspaceStats {
    pub database: String,
    pub keys: u64,
    pub expires: u64,
    pub avg_ttl: u64,
}

/// All that a server reports about itself.
#[derive(Debug, Clone, PartialEq, Eq)]
pub struct RedisServerStatistics {
    pub server: ServerStats,
    pub clients: ClientStats,
    pub memory: MemoryStats,
    pub stats: Stats,
    pub cpu: CpuStats,
    pub keyspace: Vec<KeyspaceStats>,
}

/// The name of the section that a header line opens: the line without every
/// `# ` at its start.
pub open spec fn section_of(header: Seq<char>) -> Seq<char>
    decreases header.len(),
{
    if header.len() >= 2 && header[0] == '#' && header[1] == ' ' {
        section_of(header.skip(2))
    } else {
        header
    }
}

/// What was read of a report: the section that the next line belongs to, and
/// the values so far, each with its section and its name.
pub struct Scan {
    pub section: Seq<char>,
    pub entries: Seq<(Seq<char>, Seq<char>, Seq<char>)>,
}

/// What was read once `line` is read too.
pub open spec fn scan_line(before: Scan, line: Seq<char>) -> Scan {
    if line.len() > 0 && line[0] == '#' {
        Scan { section: section_of(line), entries: before.entries }
    } else if split_on(line, ':').len() == 2 {
        Scan {
            section: before.section,
            entries: before.entries.push(
                (before.section, split_on(line, ':')[0], split_on(line, ':')[1]),
            ),
        }
    } else {
        before
    }
}

/// What was read of the lines, from the first on.
pub open spec fn scan_lines(lines: Seq<Seq<char>>) -> Scan
    decreases lines.len(),
{
    if lines.len() == 0 {
        Scan { section: Seq::empty(), entries: Seq::empty() }
    } else {
        scan_line(scan_lines(lines.drop_last()), lines.last())
    }
}

/// The values of a report, each with its section and its name, in the order
/// of their lines.
pub open spec fn info_entries(text: Seq<char>) -> Seq<(Seq<char>, Seq<char>, Seq<char>)> {
    scan_lines(lines_of(text)).entries
}

/// The values of one section, each with its name.
pub open spec fn in_section(entries: Seq<(Seq<char>, Seq<char>, Seq<char>)>, section: Seq<char>)
    -> Seq<(Seq<char>, Seq<char>)>
    decreases entries.len(),
{
    if entries.len() == 0 {
        Seq::empty()
    } else if entries.last().0 == section {
        in_section(entries.drop_last(), section).push((entries.last().1, entries.last().2))
    } else {
        in_section(entries.drop_last(), section)
    }
}

/// The value of the last pair under `name`; the empty text where there is
/// none.
pub open spec fn last_of(pairs: Seq<(Seq<char>, Seq<char>)>, name: Seq<char>) -> Seq<char>
    decreases pairs.len(),
{
    if pairs.len() == 0 {
        Seq::empty()
    } else if pairs.last().0 == name {
        pairs.last().1
    } else {
        last_of(pairs.drop_last(), name)
    }
}

/// The number under `name`: that of the last pair under it, zero where there
/// is none or its value is no number up to `max`.
pub open spec fn number_of(pairs: Seq<(Seq<char>, Seq<char>)>, name: Seq<char>, max: nat) -> nat {
    number_or_zero(last_of(pairs, name), max)
}

/// The pairs among the first `n` pieces: a piece with exactly one `=` gives
/// the name before it with the value after it.
pub open spec fn pairs_upto(pieces: Seq<Seq<char>>, n: nat) -> Seq<(Seq<char>, Seq<char>)>
    decreases n,
{
    if n == 0 || n > pieces.len() {
        Seq::empty()
    } else if split_on(pieces[n - 1], '=').len() == 2 {
        pairs_upto(pieces, (n - 1) as nat).push(
            (split_on(pieces[n - 1], '=')[0], split_on(pieces[n - 1], '=')[1]),
        )
    } else {
        pairs_upto(pieces, (n - 1) as nat)
    }
}

/// The pairs of a value that lists them with commas between.
pub open spec fn fields_of(value: Seq<char>) -> Seq<(Seq<char>, Seq<char>)> {
    pairs_upto(split_on(value, ','), split_on(value, ',').len())
}

/// `stats` is what the pairs of the section `Server` say.
pub open spec fn is_server(stats: ServerStats, pairs: Seq<(Seq<char>, Seq<char>)>) -> bool {
    &&& stats.version@ == last_of(pairs, "redis_version"@)
    &&& stats.mode@ == last_of(pairs, "redis_mode"@)
    &&& stats.os@ == last_of(pairs, "os"@)
    &&& stats.arch_bits == number_of(pairs, "arch_bits"@, u32::MAX as nat)
    &&& stats.uptime_in_seconds == number_of(pairs, "uptime_in_seconds"@, u64::MAX as nat)
    &&& stats.uptime_in_days == number_of(pairs, "uptime_in_days"@, u64::MAX as nat)
}

/// `stats` is what the pairs of the section `Clients` say.
pub open spec fn is_clients(stats: ClientStats, pairs: Seq<(Seq<char>, Seq<char>)>) -> bool {
    &&& stats.connected_clients == number_of(pairs, "connected_clients"@, u32::MAX as nat)
    &&& stats.blocked_clients == number_of(pairs, "blocked_clients"@, u32::MAX as nat)
}

/// `stats` is what the pairs of the section `Memory` say.
pub open spec fn is_memory(stats: MemoryStats, pairs: Seq<(Seq<char>, Seq<char>)>) -> bool {
    &&& stats.used_memory == number_of(pairs, "used_memory"@, u64::MAX as nat)
    &&& stats.used_memory_human@ == last_of(pairs, "used_memory_human"@)
    &&& stats.used_memory_rss == number_of(pairs, "used_memory_rss"@, u64::MAX as nat)
    &&& stats.used_memory_peak == number_of(pairs, "used_memory_peak"@, u64::MAX as nat)
    &&& stats.used_memory_peak_human@ == last_of(pairs, "used_memory_peak_human"@)
    &&& stats.used_memory_lua == number_of(pairs, "used_memory_lua"@, u64::MAX as nat)
    &&& stats.maxmemory == number_of(pairs, "maxmemory"@, u64::MAX as nat)
    &&& stats.maxmemory_policy@ == last_of(pairs, "maxmemory_policy"@)
}

/// `stats` is what the pairs of the section `Stats` say.
pub open spec fn is_traffic(stats: Stats, pairs: Seq<(Seq<char>, Seq<char>)>) -> bool {
    &&& stats.total_connections_received == number_of(
        pairs,
        "total_connections_received"@,
        u64::MAX as nat,
    )
    &&& stats.total_commands_processed == number_of(
        pairs,
        "total_commands_processed"@,
        u64::MAX as nat,
    )
    &&& stats.instantaneous_ops_per_sec == number_of(
        pairs,
        "instantaneous_ops_per_sec"@,
        u64::MAX as nat,
    )
    &&& stats.total_net_input_bytes == number_of(pairs, "total_net_input_bytes"@, u64::MAX as nat)
    &&& stats.total_net_output_bytes == number_of(
        pairs,
        "total_net_output_bytes"@,
        u64::MAX as nat,
    )
    &&& stats.keyspace_hits == number_of(pairs, "keyspace_hits"@, u64::MAX as nat)
    &&& stats.keyspace_misses == number_of(pairs, "keyspace_misses"@, u64::MAX as nat)
}

/// `stats` is what the pairs of the section `CPU` say.
pub open spec fn is_cpu(stats: CpuStats, pairs: Seq<(Seq<char>, Seq<char>)>) -> bool {
    &&& stats.used_cpu_sys@ == last_of(pairs, "used_cpu_sys"@)
    &&& stats.used_cpu_user@ == last_of(pairs, "used_cpu_user"@)
    &&& stats.used_cpu_sys_children@ == last_of(pairs, "used_cpu_sys_children"@)
    &&& stats.used_cpu_user_children@ == last_of(pairs, "used_cpu_user_children"@)
}

/// `stats` is what one pair of the section `Keyspace` says: the name is the
/// database, the value lists its numbers.
pub open spec fn is_database(stats: KeyspaceStats, pair: (Seq<char>, Seq<char>)) -> bool {
    &&& stats.database@ == pair.0
    &&& stats.keys == number_of(fields_of(pair.1), "keys"@, u64::MAX as nat)
    &&& stats.expires == number_of(fields_of(pair.1), "expires"@, u64::MAX as nat)
    &&& stats.avg_ttl == number_of(fields_of(pair.1), "avg_ttl"@, u64::MAX as nat)
}

/// `stats` is what the pairs of the section `Keyspace` say, one database for
/// each pair, in their order.
pub open spec fn is_keyspace(stats: Seq<KeyspaceStats>, pairs: Seq<(Seq<char>, Seq<char>)>)
    -> bool {
    &&& stats.len() == pairs.len()
    &&& forall|i: int| 0 <= i < stats.len() ==> is_database(#[trigger] stats[i], pairs[i])
}

/// `stats` is what the report says. A value that comes twice counts as it
/// comes last; one that does not come is empty or zero, and so is a number
/// that cannot be read.
pub open spec fn describes(stats: RedisServerStatistics, text: Seq<char>) -> bool {
    let entries = info_entries(text);
    &&& is_server(stats.server, in_section(entries, "Server"@))
    &&& is_clients(stats.clients, in_section(entries, "Clients"@))
    &&& is_memory(stats.memory, in_section(entries, "Memory"@))
    &&& is_traffic(stats.stats, in_section(entries, "Stats"@))
    &&& is_cpu(stats.cpu, in_section(entries, "CPU"@))
    &&& is_keyspace(stats.keyspace@, in_section(entries, "Keyspace"@))
}

/// The name of the section that a header line opens.
fn section_name(header: &str) -> (name: String)
    ensures
        name@ == section_of(header@),
{
    let chars = chars_of(header);
    let n: usize = chars.len();
    let mut i: usize = 0;
    assert(header@.skip(0) =~= header@);
    while n - i >= 2 && chars[i] == '#' && chars[i + 1] == ' '
        invariant
            chars@ == header@,
            n == chars.len(),
            i <= n,
            section_of(header@) == section_of(header@.skip(i as int)),
        decreases n - i,
    {
        assert(header@.skip(i as int).skip(2) =~= header@.skip(i + 2));
        i = i + 2;
    }
    assert(header@.subrange(i as int, n as int) =~= header@.skip(i as int));
    String::from_str(header.substring_char(i, n))
}

/// The values of a report, each with its section and its name.
fn read_entries(text: &str) -> (entries: Vec<(String, String, String)>)
    ensures
        entries.deep_view() == info_entries(text@),
{
    let lines = text_lines(text);
    let n: usize = lines.len();
    let mut section = String::new();
    let mut entries: Vec<(String, String, String)> = Vec::new();
    let mut i: usize = 0;
    assert(lines.deep_view().take(0) =~= Seq::empty());
    assert(entries.deep_view() =~= Seq::empty());
    while i < n
        invariant
            n == lines.len(),
            i <= n,
            scan_lines(lines.deep_view().take(i as int)) == (Scan {
                section: section@,
                entries: entries.deep_view(),
            }),
        decreases n - i,
    {
        let line = lines[i].as_str();
        proof {
            let upto = lines.deep_view().take(i + 1);
            assert(upto.drop_last() =~= lines.deep_view().take(i as int));
            assert(upto.last() == line@);
        }
        let chars = chars_of(line);
        if chars.len() > 0 && chars[0] == '#' {
            section = section_name(line);
        } else {
            let mut parts = split_text(line, ':');
            if parts.len() == 2 {
                let value = parts.pop().unwrap();
                let name = parts.pop().unwrap();
                let ghost before = entries.deep_view();
                entries.push((section.clone(), name, value));
                assert(entries.deep_view() =~= before.push((section@, name@, value@)));
            }
        }
        i = i + 1;
    }
    assert(lines.deep_view().take(n as int) =~= lines.deep_view());
    entries
}

/// The values of one section, each with its name.
fn section_pairs(entries: &Vec<(String, String, String)>, section: &str) -> (pairs: Vec<
    (String, String),
>)
    ensures
        pairs.deep_view() == in_section(entries.deep_view(), section@),
{
    let n: usize = entries.len();
    let mut pairs: Vec<(String, String)> = Vec::new();
    let mut i: usize = 0;
    assert(entries.deep_view().take(0) =~= Seq::empty());
    assert(pairs.deep_view() =~= Seq::empty());
    while i < n
        invariant
            n == entries.len(),
            i <= n,
            pairs.deep_view() == in_section(entries.deep_view().take(i as int), section@),
        decreases n - i,
    {
        proof {
            let upto = entries.deep_view().take(i + 1);
            assert(upto.drop_last() =~= entries.deep_view().take(i as int));
            assert(upto.last() == entries.deep_view()[i as int]);
        }
        if text_eq(entries[i].0.as_str(), section) {
            let ghost before = pairs.deep_view();
            pairs.push((entries[i].1.clone(), entries[i].2.clone()));
            assert(pairs.deep_view() =~= before.push((entries[i as int].1@, entries[i as int].2@)));
        }
        i = i + 1;
    }
    assert(entries.deep_view().take(n as int) =~= entries.deep_view());
    pairs
}

/// The value of the last pair under `name`, or the empty text.
fn lookup(pairs: &Vec<(String, String)>, name: &str) -> (value: String)
    ensures
        value@ == last_of(pairs.deep_view(), name@),
{
    let mut i: usize = pairs.len();
    assert(pairs.deep_view().take(i as int) =~= pairs.deep_view());
    while i > 0
        invariant
            i <= pairs.len(),
            last_of(pairs.deep_view(), name@) == last_of(pairs.deep_view().take(i as int), name@),
        decreases i,
    {
        proof {
            let upto = pairs.deep_view().take(i as int);
            assert(upto.drop_last() =~= pairs.deep_view().take(i - 1));
            assert(upto.last() == pairs.deep_view()[i - 1]);
        }
        if text_eq(pairs[i - 1].0.as_str(), name) {
            return pairs[i - 1].1.clone();
        }
        i = i - 1;
    }
    String::new()
}

/// The number under `name`, or zero.
fn lookup_number(pairs: &Vec<(String, String)>, name: &str, max: u64) -> (n: u64)
    ensures
        n == number_of(pairs.deep_view(), name@, max as nat),
        n <= max,
{
    let text = lookup(pairs, name);
    match parse_number(text.as_str(), max) {
        Some(n) => n,
        None => 0,
    }
}

/// The pairs of a value that lists them with commas between.
fn value_fields(value: &str) -> (pairs: Vec<(String, String)>)
    ensures
        pairs.deep_view() == fields_of(value@),
{
    let pieces = split_text(value, ',');
    let n: usize = pieces.len();
    let mut pairs: Vec<(String, String)> = Vec::new();
    let mut i: usize = 0;
    assert(pairs.deep_view() =~= Seq::empty());
    while i < n
        invariant
            n == pieces.len(),
            i <= n,
            pairs.deep_view() == pairs_upto(pieces.deep_view(), i as nat),
        decreases n - i,
    {
        let mut halves = split_text(pieces[i].as_str(), '=');
        assert(pieces.deep_view()[i as int] == pieces[i as int]@);
        if halves.len() == 2 {
            let value = halves.pop().unwrap();
            let name = halves.pop().unwrap();
            let ghost before = pairs.deep_view();
            pairs.push((name, value));
            assert(pairs.deep_view() =~= before.push((name@, value@)));
        }
        i = i + 1;
    }
    pairs
}

/// The databases that the pairs of the section `Keyspace` name.
fn databases(pairs: &Vec<(String, String)>) -> (stats: Vec<KeyspaceStats>)
    ensures
        is_keyspace(stats@, pairs.deep_view()),
{
    let n: usize = pairs.len();
    let mut stats: Vec<KeyspaceStats> = Vec::new();
    let mut i: usize = 0;
    while i < n
        invariant
            n == pairs.len(),
            i <= n,
            stats.len() == i,
            forall|j: int| 0 <= j < i ==> is_database(#[trigger] stats@[j], pairs.deep_view()[j]),
        decreases n - i,
    {
        let fields = value_fields(pairs[i].1.as_str());
        stats.push(
            KeyspaceStats {
                database: pairs[i].0.clone(),
                keys: lookup_number(&fields, "keys", u64::MAX),
                expires: lookup_number(&fields, "expires", u64::MAX),
                avg_ttl: lookup_number(&fields, "avg_ttl", u64::MAX),
            },
        );
        i = i + 1;
    }
    stats
}

impl RedisServerStatistics {
    /// Reads a report.
    pub fn parse(info: &str) -> (stats: RedisServerStatistics)
        ensures
            describes(stats, info@),
    {
        let entries = read_entries(info);
        let server = section_pairs(&entries, "Server");
        let clients = section_pairs(&entries, "Clients");
        let memory = section_pairs(&entries, "Memory");
        let traffic = section_pairs(&entries, "Stats");
        let cpu = section_pairs(&entries, "CPU");
        let keyspace = section_pairs(&entries, "Keyspace");
        RedisServerStatistics {
            server: ServerStats {
                version: lookup(&server, "redis_version"),
                mode: lookup(&server, "redis_mode"),
                os: lookup(&server, "os"),
                arch_bits: lookup_number(&server, "arch_bits", 0xffff_ffff) as u32,
                uptime_in_seconds: lookup_number(&server, "uptime_in_seconds", u64::MAX),
                uptime_in_days: lookup_number(&server, "uptime_in_days", u64::MAX),
            },
            clients: ClientStats {
                connected_clients: lookup_number(&clients, "connected_clients", 0xffff_ffff) as u32,
                blocked_clients: lookup_number(&clients, "blocked_clients", 0xffff_ffff) as u32,
            },
            memory: MemoryStats {
                used_memory: lookup_number(&memory, "used_memory", u64::MAX),
                used_memory_human: lookup(&memory, "used_memory_human"),
                used_memory_rss: lookup_number(&memory, "used_memory_rss", u64::MAX),
                used_memory_peak: lookup_number(&memory, "used_memory_peak", u64::MAX),
                used_memory_peak_human: lookup(&memory, "used_memory_peak_human"),
                used_memory_lua: lookup_number(&memory, "used_memory_lua", u64::MAX),
                maxmemory: lookup_number(&memory, "maxmemory", u64::MAX),
                maxmemory_policy: lookup(&memory, "maxmemory_policy"),
            },
            stats: Stats {
                total_connections_received: lookup_number(
                    &traffic,
                    "total_connections_received",
                    u64::MAX,
                ),
                total_commands_processed: lookup_number(
                    &traffic,
                    "total_commands_processed",
                    u64::MAX,
                ),
                instantaneous_ops_per_sec: lookup_number(
                    &traffic,
                    "instantaneous_ops_per_sec",
                    u64::MAX,
                ),
                total_net_input_bytes: lookup_number(&traffic, "total_net_input_bytes", u64::MAX),
                total_net_output_bytes: lookup_number(&traffic, "total_net_output_bytes", u64::MAX),
                keyspace_hits: lookup_number(&traffic, "keyspace_hits", u64::MAX),
                keyspace_misses: lookup_number(&traffic, "keyspace_misses", u64::MAX),
            },
            cpu: CpuStats {
                used_cpu_sys: lookup(&cpu, "used_cpu_sys"),
                used_cpu_user: lookup(&cpu, "used_cpu_user"),
                used_cpu_sys_children: lookup(&cpu, "used_cpu_sys_children"),
                used_cpu_user_children: lookup(&cpu, "used_cpu_user_children"),
            },
            keyspace: databases(&keyspace),
        }
    }
}

impl From<String> for RedisServerStatistics {
    /// Reads a report.
    fn from(info: String) -> (stats: RedisServerStatistics)
        ensures
            describes(stats, info@),
    {
        RedisServerStatistics::parse(info.as_str())
    }
}

/// What `from` returns is stated by `describes`, a relation between the report
/// and the statistics; no function from the one to the other is given.
impl vstd::std_specs::convert::FromSpecImpl<String> for RedisServerStatistics {
    open spec fn obeys_from_spec() -> bool {
        false
    }

    open spec fn from_spec(info: String) -> RedisServerStatistics {
        arbitrary()
    }
}

} // verus!
