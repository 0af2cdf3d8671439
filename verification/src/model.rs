//! The server-wide and per-tube statistics that the dashboard shows, read
//! from the bodies of `stats` and `stats-tube` replies.
use vstd::prelude::*;
use crate::yaml::{
    parse_yaml_map, get_str, get_u64, get_bool, entries_of, lines_of, spec_get_str, spec_get_u64,
    spec_get_bool, lookup, empty_body_has_no_entries, ends_line, entry_line, plain_key,
    number_line_reads_back, text_line_reads_back, writable_value,
};
use crate::text::decimal;

verus! {
/// Server-wide statistics (the `stats` reply).
///
/// `rusage_utime` and `rusage_stime` hold the text of the server's CPU
/// times in seconds, as the reply writes them (empty when absent); the
/// dashboard reads them as decimal fractions.
#[derive(Clone, Debug)]
pub struct ServerStats {
    pub version: String,
    pub uptime: u64,
    pub current_connections: u64,
    pub current_producers: u64,
    pub current_workers: u64,
    pub current_waiting: u64,
    pub current_jobs_ready: u64,
    pub current_jobs_reserved: u64,
    pub current_jobs_delayed: u64,
    pub current_jobs_buried: u64,
    pub cmd_put: u64,
    pub cmd_reserve: u64,
    pub cmd_delete: u64,
    pub job_timeouts: u64,
    pub total_jobs: u64,
    pub rusage_utime: String,
    pub rusage_stime: String,
    pub draining: bool,
}

/// The mathematical value of a `ServerStats`.
pub struct ServerStatsView {
    pub version: Seq<char>,
    pub uptime: u64,
    pub current_connections: u64,
    pub current_producers: u64,
    pub current_workers: u64,
    pub current_waiting: u64,
    pub current_jobs_ready: u64,
    pub current_jobs_reserved: u64,
    pub current_jobs_delayed: u64,
    pub current_jobs_buried: u64,
    pub cmd_put: u64,
    pub cmd_reserve: u64,
    pub cmd_delete: u64,
    pub job_timeouts: u64,
    pub total_jobs: u64,
    pub rusage_utime: Seq<char>,
    pub rusage_stime: Seq<char>,
    pub draining: bool,
}

impl View for ServerStats {
    type V = ServerStatsView;

    open spec fn view(&self) -> ServerStatsView {
        ServerStatsView {
            version: self.version@,
            uptime: self.uptime,
            current_connections: self.current_connections,
            current_producers: self.current_producers,
            current_workers: self.current_workers,
            current_waiting: self.current_waiting,
            current_jobs_ready: self.current_jobs_ready,
            current_jobs_reserved: self.current_jobs_reserved,
            current_jobs_delayed: self.current_jobs_delayed,
            current_jobs_buried: self.current_jobs_buried,
            cmd_put: self.cmd_put,
            cmd_reserve: self.cmd_reserve,
            cmd_delete: self.cmd_delete,
            job_timeouts: self.job_timeouts,
            total_jobs: self.total_jobs,
            rusage_utime: self.rusage_utime@,
            rusage_stime: self.rusage_stime@,
            draining: self.draining,
        }
    }
}

/// The server statistics that a `stats` body describes: each field is the
/// value of its key (text fields empty, numbers 0 and the flag false where
/// the key is absent or its value unreadable).
pub open spec fn server_stats_of(yaml: Seq<char>) -> ServerStatsView {
    let e = entries_of(lines_of(yaml));
    ServerStatsView {
        version: spec_get_str(e, "version"@),
        uptime: spec_get_u64(e, "uptime"@),
        current_connections: spec_get_u64(e, "current-connections"@),
        current_producers: spec_get_u64(e, "current-producers"@),
        current_workers: spec_get_u64(e, "current-workers"@),
        current_waiting: spec_get_u64(e, "current-waiting"@),
        current_jobs_ready: spec_get_u64(e, "current-jobs-ready"@),
        current_jobs_reserved: spec_get_u64(e, "current-jobs-reserved"@),
        current_jobs_delayed: spec_get_u64(e, "current-jobs-delayed"@),
        current_jobs_buried: spec_get_u64(e, "current-jobs-buried"@),
        cmd_put: spec_get_u64(e, "cmd-put"@),
        cmd_reserve: spec_get_u64(e, "cmd-reserve"@),
        cmd_delete: spec_get_u64(e, "cmd-delete"@),
        job_timeouts: spec_get_u64(e, "job-timeouts"@),
        total_jobs: spec_get_u64(e, "total-jobs"@),
        rusage_utime: spec_get_str(e, "rusage-utime"@),
        rusage_stime: spec_get_str(e, "rusage-stime"@),
        draining: spec_get_bool(e, "draining"@),
    }
}

impl ServerStats {
    /// Reads the statistics from the body of a `stats` reply.
    pub fn from_yaml(yaml: &str) -> (s: Self)
        ensures
            s@ == server_stats_of(yaml@),
    {
        let m = parse_yaml_map(yaml);
        ServerStats {
            version: get_str(&m, "version"),
            uptime: get_u64(&m, "uptime"),
            current_connections: get_u64(&m, "current-connections"),
            current_producers: get_u64(&m, "current-producers"),
            current_workers: get_u64(&m, "current-workers"),
            current_waiting: get_u64(&m, "current-waiting"),
            current_jobs_ready: get_u64(&m, "current-jobs-ready"),
            current_jobs_reserved: get_u64(&m, "current-jobs-reserved"),
            current_jobs_delayed: get_u64(&m, "current-jobs-delayed"),
            current_jobs_buried: get_u64(&m, "current-jobs-buried"),
            cmd_put: get_u64(&m, "cmd-put"),
            cmd_reserve: get_u64(&m, "cmd-reserve"),
            cmd_delete: get_u64(&m, "cmd-delete"),
            job_timeouts: get_u64(&m, "job-timeouts"),
            total_jobs: get_u64(&m, "total-jobs"),
            rusage_utime: get_str(&m, "rusage-utime"),
            rusage_stime: get_str(&m, "rusage-stime"),
            draining: get_bool(&m, "draining"),
        }
    }
}

/// Statistics of one tube (the `stats-tube` reply).
///
/// `processing_time_ewma` holds the text of the tube's moving average of
/// job processing time in milliseconds, as the reply writes it (empty when
/// absent).
#[derive(Clone, Debug)]
pub struct TubeStats {
    pub name: String,
    pub current_jobs_ready: u64,
    pub current_jobs_reserved: u64,
    pub current_jobs_delayed: u64,
    pub current_jobs_buried: u64,
    pub total_jobs: u64,
    pub total_reserves: u64,
    pub total_timeouts: u64,
    pub processing_time_ewma: String,
    pub cmd_delete: u64,
}

/// The mathematical value of a `TubeStats`.
pub struct TubeStatsView {
    pub name: Seq<char>,
    pub current_jobs_ready: u64,
    pub current_jobs_reserved: u64,
    pub current_jobs_delayed: u64,
    pub current_jobs_buried: u64,
    pub total_jobs: u64,
    pub total_reserves: u64,
    pub total_timeouts: u64,
    pub processing_time_ewma: Seq<char>,
    pub cmd_delete: u64,
}

impl View for TubeStats {
    type V = TubeStatsView;

    open spec fn view(&self) -> TubeStatsView {
        TubeStatsView {
            name: self.name@,
            current_jobs_ready: self.current_jobs_ready,
            current_jobs_reserved: self.current_jobs_reserved,
            current_jobs_delayed: self.current_jobs_delayed,
            current_jobs_buried: self.current_jobs_buried,
            total_jobs: self.total_jobs,
            total_reserves: self.total_reserves,
            total_timeouts: self.total_timeouts,
            processing_time_ewma: self.processing_time_ewma@,
            cmd_delete: self.cmd_delete,
        }
    }
}

/// The tube statistics that a `stats-tube` body describes; `total_reserves`
/// is the value of `cmd-reserve-with-timeout`.
pub open spec fn tube_stats_of(yaml: Seq<char>) -> TubeStatsView {
    let e = entries_of(lines_of(yaml));
    TubeStatsView {
        name: spec_get_str(e, "name"@),
        current_jobs_ready: spec_get_u64(e, "current-jobs-ready"@),
        current_jobs_reserved: spec_get_u64(e, "current-jobs-reserved"@),
        current_jobs_delayed: spec_get_u64(e, "current-jobs-delayed"@),
        current_jobs_buried: spec_get_u64(e, "current-jobs-buried"@),
        total_jobs: spec_get_u64(e, "total-jobs"@),
        total_reserves: spec_get_u64(e, "cmd-reserve-with-timeout"@),
        total_timeouts: spec_get_u64(e, "total-timeouts"@),
        processing_time_ewma: spec_get_str(e, "processing-time-ewma"@),
        cmd_delete: spec_get_u64(e, "cmd-delete"@),
    }
}

impl TubeStats {
    /// Reads the statistics from the body of a `stats-tube` reply.
    pub fn from_yaml(yaml: &str) -> (t: Self)
        ensures
            t@ == tube_stats_of(yaml@),
    {
        let m = parse_yaml_map(yaml);
        TubeStats {
            name: get_str(&m, "name"),
            current_jobs_ready: get_u64(&m, "current-jobs-ready"),
            current_jobs_reserved: get_u64(&m, "current-jobs-reserved"),
            current_jobs_delayed: get_u64(&m, "current-jobs-delayed"),
            current_jobs_buried: get_u64(&m, "current-jobs-buried"),
            total_jobs: get_u64(&m, "total-jobs"),
            total_reserves: get_u64(&m, "cmd-reserve-with-timeout"),
            total_timeouts: get_u64(&m, "total-timeouts"),
            processing_time_ewma: get_str(&m, "processing-time-ewma"),
            cmd_delete: get_u64(&m, "cmd-delete"),
        }
    }
}

/// The views of a sequence of tube statistics.
pub open spec fn tube_views(v: Seq<TubeStats>) -> Seq<TubeStatsView> {
    v.map_values(|t: TubeStats| t@)
}

/// One complete poll of the server: its statistics and those of every
/// tube, the tubes ordered by `total_jobs`, largest first.
#[derive(Clone, Debug)]
pub struct Snapshot {
    pub server: ServerStats,
    pub tubes: Vec<TubeStats>,
}

/// The mathematical value of a `Snapshot`.
pub struct SnapshotView {
    pub server: ServerStatsView,
    pub tubes: Seq<TubeStatsView>,
}

impl View for Snapshot {
    type V = SnapshotView;

    open spec fn view(&self) -> SnapshotView {
        SnapshotView { server: self.server@, tubes: tube_views(self.tubes@) }
    }
}


/// Law: each field of the server statistics is read from its own key and from no other:
/// two bodies whose entries agree on a field's key give that field the same
/// value, whatever else they hold; and a body without the key gives the
/// field the value that the empty body gives.
pub proof fn server_stats_fields_read_own_keys(yaml: Seq<char>, other: Seq<char>)
    ensures
        lookup(entries_of(lines_of(yaml)), "version"@) == lookup(entries_of(lines_of(other)), "version"@)
            ==> server_stats_of(yaml).version == server_stats_of(other).version,
        lookup(entries_of(lines_of(yaml)), "rusage-utime"@) == lookup(entries_of(lines_of(other)), "rusage-utime"@)
            ==> server_stats_of(yaml).rusage_utime == server_stats_of(other).rusage_utime,
        lookup(entries_of(lines_of(yaml)), "rusage-stime"@) == lookup(entries_of(lines_of(other)), "rusage-stime"@)
            ==> server_stats_of(yaml).rusage_stime == server_stats_of(other).rusage_stime,
        lookup(entries_of(lines_of(yaml)), "uptime"@) == lookup(entries_of(lines_of(other)), "uptime"@)
            ==> server_stats_of(yaml).uptime == server_stats_of(other).uptime,
        lookup(entries_of(lines_of(yaml)), "current-connections"@) == lookup(entries_of(lines_of(other)), "current-connections"@)
            ==> server_stats_of(yaml).current_connections == server_stats_of(other).current_connections,
        lookup(entries_of(lines_of(yaml)), "current-producers"@) == lookup(entries_of(lines_of(other)), "current-producers"@)
            ==> server_stats_of(yaml).current_producers == server_stats_of(other).current_producers,
        lookup(entries_of(lines_of(yaml)), "current-workers"@) == lookup(entries_of(lines_of(other)), "current-workers"@)
            ==> server_stats_of(yaml).current_workers == server_stats_of(other).current_workers,
        lookup(entries_of(lines_of(yaml)), "current-waiting"@) == lookup(entries_of(lines_of(other)), "current-waiting"@)
            ==> server_stats_of(yaml).current_waiting == server_stats_of(other).current_waiting,
        lookup(entries_of(lines_of(yaml)), "current-jobs-ready"@) == lookup(entries_of(lines_of(other)), "current-jobs-ready"@)
            ==> server_stats_of(yaml).current_jobs_ready == server_stats_of(other).current_jobs_ready,
        lookup(entries_of(lines_of(yaml)), "current-jobs-reserved"@) == lookup(entries_of(lines_of(other)), "current-jobs-reserved"@)
            ==> server_stats_of(yaml).current_jobs_reserved == server_stats_of(other).current_jobs_reserved,
        lookup(entries_of(lines_of(yaml)), "current-jobs-delayed"@) == lookup(entries_of(lines_of(other)), "current-jobs-delayed"@)
            ==> server_stats_of(yaml).current_jobs_delayed == server_stats_of(other).current_jobs_delayed,
        lookup(entries_of(lines_of(yaml)), "current-jobs-buried"@) == lookup(entries_of(lines_of(other)), "current-jobs-buried"@)
            ==> server_stats_of(yaml).current_jobs_buried == server_stats_of(other).current_jobs_buried,
        lookup(entries_of(lines_of(yaml)), "cmd-put"@) == lookup(entries_of(lines_of(other)), "cmd-put"@)
            ==> server_stats_of(yaml).cmd_put == server_stats_of(other).cmd_put,
        lookup(entries_of(lines_of(yaml)), "cmd-reserve"@) == lookup(entries_of(lines_of(other)), "cmd-reserve"@)
            ==> server_stats_of(yaml).cmd_reserve == server_stats_of(other).cmd_reserve,
        lookup(entries_of(lines_of(yaml)), "cmd-delete"@) == lookup(entries_of(lines_of(other)), "cmd-delete"@)
            ==> server_stats_of(yaml).cmd_delete == server_stats_of(other).cmd_delete,
        lookup(entries_of(lines_of(yaml)), "job-timeouts"@) == lookup(entries_of(lines_of(other)), "job-timeouts"@)
            ==> server_stats_of(yaml).job_timeouts == server_stats_of(other).job_timeouts,
        lookup(entries_of(lines_of(yaml)), "total-jobs"@) == lookup(entries_of(lines_of(other)), "total-jobs"@)
            ==> server_stats_of(yaml).total_jobs == server_stats_of(other).total_jobs,
        lookup(entries_of(lines_of(yaml)), "draining"@) == lookup(entries_of(lines_of(other)), "draining"@)
            ==> server_stats_of(yaml).draining == server_stats_of(other).draining,
        lookup(entries_of(lines_of(yaml)), "version"@) is None ==> server_stats_of(yaml).version
            == server_stats_of(Seq::<char>::empty()).version,
        lookup(entries_of(lines_of(yaml)), "rusage-utime"@) is None ==> server_stats_of(yaml).rusage_utime
            == server_stats_of(Seq::<char>::empty()).rusage_utime,
        lookup(entries_of(lines_of(yaml)), "rusage-stime"@) is None ==> server_stats_of(yaml).rusage_stime
            == server_stats_of(Seq::<char>::empty()).rusage_stime,
        lookup(entries_of(lines_of(yaml)), "uptime"@) is None ==> server_stats_of(yaml).uptime
            == server_stats_of(Seq::<char>::empty()).uptime,
        lookup(entries_of(lines_of(yaml)), "current-connections"@) is None ==> server_stats_of(yaml).current_connections
            == server_stats_of(Seq::<char>::empty()).current_connections,
        lookup(entries_of(lines_of(yaml)), "current-producers"@) is None ==> server_stats_of(yaml).current_producers
            == server_stats_of(Seq::<char>::empty()).current_producers,
        lookup(entries_of(lines_of(yaml)), "current-workers"@) is None ==> server_stats_of(yaml).current_workers
            == server_stats_of(Seq::<char>::empty()).current_workers,
        lookup(entries_of(lines_of(yaml)), "current-waiting"@) is None ==> server_stats_of(yaml).current_waiting
            == server_stats_of(Seq::<char>::empty()).current_waiting,
        lookup(entries_of(lines_of(yaml)), "current-jobs-ready"@) is None ==> server_stats_of(yaml).current_jobs_ready
            == server_stats_of(Seq::<char>::empty()).current_jobs_ready,
        lookup(entries_of(lines_of(yaml)), "current-jobs-reserved"@) is None ==> server_stats_of(yaml).current_jobs_reserved
            == server_stats_of(Seq::<char>::empty()).current_jobs_reserved,
        lookup(entries_of(lines_of(yaml)), "current-jobs-delayed"@) is None ==> server_stats_of(yaml).current_jobs_delayed
            == server_stats_of(Seq::<char>::empty()).current_jobs_delayed,
        lookup(entries_of(lines_of(yaml)), "current-jobs-buried"@) is None ==> server_stats_of(yaml).current_jobs_buried
            == server_stats_of(Seq::<char>::empty()).current_jobs_buried,
        lookup(entries_of(lines_of(yaml)), "cmd-put"@) is None ==> server_stats_of(yaml).cmd_put
            == server_stats_of(Seq::<char>::empty()).cmd_put,
        lookup(entries_of(lines_of(yaml)), "cmd-reserve"@) is None ==> server_stats_of(yaml).cmd_reserve
            == server_stats_of(Seq::<char>::empty()).cmd_reserve,
        lookup(entries_of(lines_of(yaml)), "cmd-delete"@) is None ==> server_stats_of(yaml).cmd_delete
            == server_stats_of(Seq::<char>::empty()).cmd_delete,
        lookup(entries_of(lines_of(yaml)), "job-timeouts"@) is None ==> server_stats_of(yaml).job_timeouts
            == server_stats_of(Seq::<char>::empty()).job_timeouts,
        lookup(entries_of(lines_of(yaml)), "total-jobs"@) is None ==> server_stats_of(yaml).total_jobs
            == server_stats_of(Seq::<char>::empty()).total_jobs,
        lookup(entries_of(lines_of(yaml)), "draining"@) is None ==> server_stats_of(yaml).draining
            == server_stats_of(Seq::<char>::empty()).draining,
{
    empty_body_has_no_entries();
}

/// Law: the empty body gives every text field of the server statistics the empty text,
/// every number 0 and every flag false.
pub proof fn server_stats_of_empty_body()
    ensures
        server_stats_of(Seq::<char>::empty()).version == Seq::<char>::empty(),
        server_stats_of(Seq::<char>::empty()).rusage_utime == Seq::<char>::empty(),
        server_stats_of(Seq::<char>::empty()).rusage_stime == Seq::<char>::empty(),
        server_stats_of(Seq::<char>::empty()).uptime == 0,
        server_stats_of(Seq::<char>::empty()).current_connections == 0,
        server_stats_of(Seq::<char>::empty()).current_producers == 0,
        server_stats_of(Seq::<char>::empty()).current_workers == 0,
        server_stats_of(Seq::<char>::empty()).current_waiting == 0,
        server_stats_of(Seq::<char>::empty()).current_jobs_ready == 0,
        server_stats_of(Seq::<char>::empty()).current_jobs_reserved == 0,
        server_stats_of(Seq::<char>::empty()).current_jobs_delayed == 0,
        server_stats_of(Seq::<char>::empty()).current_jobs_buried == 0,
        server_stats_of(Seq::<char>::empty()).cmd_put == 0,
        server_stats_of(Seq::<char>::empty()).cmd_reserve == 0,
        server_stats_of(Seq::<char>::empty()).cmd_delete == 0,
        server_stats_of(Seq::<char>::empty()).job_timeouts == 0,
        server_stats_of(Seq::<char>::empty()).total_jobs == 0,
        !server_stats_of(Seq::<char>::empty()).draining,
{
    empty_body_has_no_entries();
}

/// Law: the line `<key>: <n>`, on a line of its own anywhere in a body
/// (after `pre`, before `post`), sets the number field of the server statistics that
/// reads `<key>` to `n`, unless a later line in `post` has the same key.
pub proof fn server_stats_read_number_lines(pre: Seq<char>, post: Seq<char>, n: u64)
    requires
        ends_line(pre),
    ensures
        lookup(entries_of(lines_of(post)), "uptime"@) is None ==> server_stats_of(
            pre + entry_line("uptime"@, decimal(n as nat)) + seq!['\n'] + post,
        ).uptime == n,
        lookup(entries_of(lines_of(post)), "current-connections"@) is None ==> server_stats_of(
            pre + entry_line("current-connections"@, decimal(n as nat)) + seq!['\n'] + post,
        ).current_connections == n,
        lookup(entries_of(lines_of(post)), "current-producers"@) is None ==> server_stats_of(
            pre + entry_line("current-producers"@, decimal(n as nat)) + seq!['\n'] + post,
        ).current_producers == n,
        lookup(entries_of(lines_of(post)), "current-workers"@) is None ==> server_stats_of(
            pre + entry_line("current-workers"@, decimal(n as nat)) + seq!['\n'] + post,
        ).current_workers == n,
        lookup(entries_of(lines_of(post)), "current-waiting"@) is None ==> server_stats_of(
            pre + entry_line("current-waiting"@, decimal(n as nat)) + seq!['\n'] + post,
        ).current_waiting == n,
        lookup(entries_of(lines_of(post)), "current-jobs-ready"@) is None ==> server_stats_of(
            pre + entry_line("current-jobs-ready"@, decimal(n as nat)) + seq!['\n'] + post,
        ).current_jobs_ready == n,
        lookup(entries_of(lines_of(post)), "current-jobs-reserved"@) is None ==> server_stats_of(
            pre + entry_line("current-jobs-reserved"@, decimal(n as nat)) + seq!['\n'] + post,
        ).current_jobs_reserved == n,
        lookup(entries_of(lines_of(post)), "current-jobs-delayed"@) is None ==> server_stats_of(
            pre + entry_line("current-jobs-delayed"@, decimal(n as nat)) + seq!['\n'] + post,
        ).current_jobs_delayed == n,
        lookup(entries_of(lines_of(post)), "current-jobs-buried"@) is None ==> server_stats_of(
            pre + entry_line("current-jobs-buried"@, decimal(n as nat)) + seq!['\n'] + post,
        ).current_jobs_buried == n,
        lookup(entries_of(lines_of(post)), "cmd-put"@) is None ==> server_stats_of(
            pre + entry_line("cmd-put"@, decimal(n as nat)) + seq!['\n'] + post,
        ).cmd_put == n,
        lookup(entries_of(lines_of(post)), "cmd-reserve"@) is None ==> server_stats_of(
            pre + entry_line("cmd-reserve"@, decimal(n as nat)) + seq!['\n'] + post,
        ).cmd_reserve == n,
        lookup(entries_of(lines_of(post)), "cmd-delete"@) is None ==> server_stats_of(
            pre + entry_line("cmd-delete"@, decimal(n as nat)) + seq!['\n'] + post,
        ).cmd_delete == n,
        lookup(entries_of(lines_of(post)), "job-timeouts"@) is None ==> server_stats_of(
            pre + entry_line("job-timeouts"@, decimal(n as nat)) + seq!['\n'] + post,
        ).job_timeouts == n,
        lookup(entries_of(lines_of(post)), "total-jobs"@) is None ==> server_stats_of(
            pre + entry_line("total-jobs"@, decimal(n as nat)) + seq!['\n'] + post,
        ).total_jobs == n,
{
    reveal_strlit("uptime");
    assert(plain_key("uptime"@)) by {
        reveal_with_fuel(plain_key, 7);
    }
    if lookup(entries_of(lines_of(post)), "uptime"@) is None {
        number_line_reads_back(pre, "uptime"@, n, post);
    }
    reveal_strlit("current-connections");
    assert(plain_key("current-connections"@)) by {
        reveal_with_fuel(plain_key, 20);
    }
    if lookup(entries_of(lines_of(post)), "current-connections"@) is None {
        number_line_reads_back(pre, "current-connections"@, n, post);
    }
    reveal_strlit("current-producers");
    assert(plain_key("current-producers"@)) by {
        reveal_with_fuel(plain_key, 18);
    }
    if lookup(entries_of(lines_of(post)), "current-producers"@) is None {
        number_line_reads_back(pre, "current-producers"@, n, post);
    }
    reveal_strlit("current-workers");
    assert(plain_key("current-workers"@)) by {
        reveal_with_fuel(plain_key, 16);
    }
    if lookup(entries_of(lines_of(post)), "current-workers"@) is None {
        number_line_reads_back(pre, "current-workers"@, n, post);
    }
    reveal_strlit("current-waiting");
    assert(plain_key("current-waiting"@)) by {
        reveal_with_fuel(plain_key, 16);
    }
    if lookup(entries_of(lines_of(post)), "current-waiting"@) is None {
        number_line_reads_back(pre, "current-waiting"@, n, post);
    }
    reveal_strlit("current-jobs-ready");
    assert(plain_key("current-jobs-ready"@)) by {
        reveal_with_fuel(plain_key, 19);
    }
    if lookup(entries_of(lines_of(post)), "current-jobs-ready"@) is None {
        number_line_reads_back(pre, "current-jobs-ready"@, n, post);
    }
    reveal_strlit("current-jobs-reserved");
    assert(plain_key("current-jobs-reserved"@)) by {
        reveal_with_fuel(plain_key, 22);
    }
    if lookup(entries_of(lines_of(post)), "current-jobs-reserved"@) is None {
        number_line_reads_back(pre, "current-jobs-reserved"@, n, post);
    }
    reveal_strlit("current-jobs-delayed");
    assert(plain_key("current-jobs-delayed"@)) by {
        reveal_with_fuel(plain_key, 21);
    }
    if lookup(entries_of(lines_of(post)), "current-jobs-delayed"@) is None {
        number_line_reads_back(pre, "current-jobs-delayed"@, n, post);
    }
    reveal_strlit("current-jobs-buried");
    assert(plain_key("current-jobs-buried"@)) by {
        reveal_with_fuel(plain_key, 20);
    }
    if lookup(entries_of(lines_of(post)), "current-jobs-buried"@) is None {
        number_line_reads_back(pre, "current-jobs-buried"@, n, post);
    }
    reveal_strlit("cmd-put");
    assert(plain_key("cmd-put"@)) by {
        reveal_with_fuel(plain_key, 8);
    }
    if lookup(entries_of(lines_of(post)), "cmd-put"@) is None {
        number_line_reads_back(pre, "cmd-put"@, n, post);
    }
    reveal_strlit("cmd-reserve");
    assert(plain_key("cmd-reserve"@)) by {
        reveal_with_fuel(plain_key, 12);
    }
    if lookup(entries_of(lines_of(post)), "cmd-reserve"@) is None {
        number_line_reads_back(pre, "cmd-reserve"@, n, post);
    }
    reveal_strlit("cmd-delete");
    assert(plain_key("cmd-delete"@)) by {
        reveal_with_fuel(plain_key, 11);
    }
    if lookup(entries_of(lines_of(post)), "cmd-delete"@) is None {
        number_line_reads_back(pre, "cmd-delete"@, n, post);
    }
    reveal_strlit("job-timeouts");
    assert(plain_key("job-timeouts"@)) by {
        reveal_with_fuel(plain_key, 13);
    }
    if lookup(entries_of(lines_of(post)), "job-timeouts"@) is None {
        number_line_reads_back(pre, "job-timeouts"@, n, post);
    }
    reveal_strlit("total-jobs");
    assert(plain_key("total-jobs"@)) by {
        reveal_with_fuel(plain_key, 11);
    }
    if lookup(entries_of(lines_of(post)), "total-jobs"@) is None {
        number_line_reads_back(pre, "total-jobs"@, n, post);
    }
}

/// Law: the line `<key>: <value>`, on a line of its own anywhere in a body
/// (after `pre`, before `post`), sets the text field of the server statistics that reads
/// `<key>` to `value` (for a value without a newline, already trimmed, not
/// in double quotes), unless a later line in `post` has the same key.
pub proof fn server_stats_read_text_lines(pre: Seq<char>, post: Seq<char>, value: Seq<char>)
    requires
        ends_line(pre),
        writable_value(value),
    ensures
        lookup(entries_of(lines_of(post)), "version"@) is None ==> server_stats_of(
            pre + entry_line("version"@, value) + seq!['\n'] + post,
        ).version == value,
        lookup(entries_of(lines_of(post)), "rusage-utime"@) is None ==> server_stats_of(
            pre + entry_line("rusage-utime"@, value) + seq!['\n'] + post,
        ).rusage_utime == value,
        lookup(entries_of(lines_of(post)), "rusage-stime"@) is None ==> server_stats_of(
            pre + entry_line("rusage-stime"@, value) + seq!['\n'] + post,
        ).rusage_stime == value,
        lookup(entries_of(lines_of(post)), "draining"@) is None ==> server_stats_of(
            pre + entry_line("draining"@, value) + seq!['\n'] + post,
        ).draining == (value == seq!['t', 'r', 'u', 'e']),
{
    reveal_strlit("version");
    assert(plain_key("version"@)) by {
        reveal_with_fuel(plain_key, 8);
    }
    if lookup(entries_of(lines_of(post)), "version"@) is None {
        text_line_reads_back(pre, "version"@, value, post);
    }
    reveal_strlit("rusage-utime");
    assert(plain_key("rusage-utime"@)) by {
        reveal_with_fuel(plain_key, 13);
    }
    if lookup(entries_of(lines_of(post)), "rusage-utime"@) is None {
        text_line_reads_back(pre, "rusage-utime"@, value, post);
    }
    reveal_strlit("rusage-stime");
    assert(plain_key("rusage-stime"@)) by {
        reveal_with_fuel(plain_key, 13);
    }
    if lookup(entries_of(lines_of(post)), "rusage-stime"@) is None {
        text_line_reads_back(pre, "rusage-stime"@, value, post);
    }
    reveal_strlit("draining");
    assert(plain_key("draining"@)) by {
        reveal_with_fuel(plain_key, 9);
    }
    if lookup(entries_of(lines_of(post)), "draining"@) is None {
        text_line_reads_back(pre, "draining"@, value, post);
    }
}

/// Law: each field of a tube's statistics is read from its own key and from no other:
/// two bodies whose entries agree on a field's key give that field the same
/// value, whatever else they hold; and a body without the key gives the
/// field the value that the empty body gives.
pub proof fn tube_stats_fields_read_own_keys(yaml: Seq<char>, other: Seq<char>)
    ensures
        lookup(entries_of(lines_of(yaml)), "name"@) == lookup(entries_of(lines_of(other)), "name"@)
            ==> tube_stats_of(yaml).name == tube_stats_of(other).name,
        lookup(entries_of(lines_of(yaml)), "processing-time-ewma"@) == lookup(entries_of(lines_of(other)), "processing-time-ewma"@)
            ==> tube_stats_of(yaml).processing_time_ewma == tube_stats_of(other).processing_time_ewma,
        lookup(entries_of(lines_of(yaml)), "current-jobs-ready"@) == lookup(entries_of(lines_of(other)), "current-jobs-ready"@)
            ==> tube_stats_of(yaml).current_jobs_ready == tube_stats_of(other).current_jobs_ready,
        lookup(entries_of(lines_of(yaml)), "current-jobs-reserved"@) == lookup(entries_of(lines_of(other)), "current-jobs-reserved"@)
            ==> tube_stats_of(yaml).current_jobs_reserved == tube_stats_of(other).current_jobs_reserved,
        lookup(entries_of(lines_of(yaml)), "current-jobs-delayed"@) == lookup(entries_of(lines_of(other)), "current-jobs-delayed"@)
            ==> tube_stats_of(yaml).current_jobs_delayed == tube_stats_of(other).current_jobs_delayed,
        lookup(entries_of(lines_of(yaml)), "current-jobs-buried"@) == lookup(entries_of(lines_of(other)), "current-jobs-buried"@)
            ==> tube_stats_of(yaml).current_jobs_buried == tube_stats_of(other).current_jobs_buried,
        lookup(entries_of(lines_of(yaml)), "total-jobs"@) == lookup(entries_of(lines_of(other)), "total-jobs"@)
            ==> tube_stats_of(yaml).total_jobs == tube_stats_of(other).total_jobs,
        lookup(entries_of(lines_of(yaml)), "cmd-reserve-with-timeout"@) == lookup(entries_of(lines_of(other)), "cmd-reserve-with-timeout"@)
            ==> tube_stats_of(yaml).total_reserves == tube_stats_of(other).total_reserves,
        lookup(entries_of(lines_of(yaml)), "total-timeouts"@) == lookup(entries_of(lines_of(other)), "total-timeouts"@)
            ==> tube_stats_of(yaml).total_timeouts == tube_stats_of(other).total_timeouts,
        lookup(entries_of(lines_of(yaml)), "cmd-delete"@) == lookup(entries_of(lines_of(other)), "cmd-delete"@)
            ==> tube_stats_of(yaml).cmd_delete == tube_stats_of(other).cmd_delete,
        lookup(entries_of(lines_of(yaml)), "name"@) is None ==> tube_stats_of(yaml).name
            == tube_stats_of(Seq::<char>::empty()).name,
        lookup(entries_of(lines_of(yaml)), "processing-time-ewma"@) is None ==> tube_stats_of(yaml).processing_time_ewma
            == tube_stats_of(Seq::<char>::empty()).processing_time_ewma,
        lookup(entries_of(lines_of(yaml)), "current-jobs-ready"@) is None ==> tube_stats_of(yaml).current_jobs_ready
            == tube_stats_of(Seq::<char>::empty()).current_jobs_ready,
        lookup(entries_of(lines_of(yaml)), "current-jobs-reserved"@) is None ==> tube_stats_of(yaml).current_jobs_reserved
            == tube_stats_of(Seq::<char>::empty()).current_jobs_reserved,
        lookup(entries_of(lines_of(yaml)), "current-jobs-delayed"@) is None ==> tube_stats_of(yaml).current_jobs_delayed
            == tube_stats_of(Seq::<char>::empty()).current_jobs_delayed,
        lookup(entries_of(lines_of(yaml)), "current-jobs-buried"@) is None ==> tube_stats_of(yaml).current_jobs_buried
            == tube_stats_of(Seq::<char>::empty()).current_jobs_buried,
        lookup(entries_of(lines_of(yaml)), "total-jobs"@) is None ==> tube_stats_of(yaml).total_jobs
            == tube_stats_of(Seq::<char>::empty()).total_jobs,
        lookup(entries_of(lines_of(yaml)), "cmd-reserve-with-timeout"@) is None ==> tube_stats_of(yaml).total_reserves
            == tube_stats_of(Seq::<char>::empty()).total_reserves,
        lookup(entries_of(lines_of(yaml)), "total-timeouts"@) is None ==> tube_stats_of(yaml).total_timeouts
            == tube_stats_of(Seq::<char>::empty()).total_timeouts,
        lookup(entries_of(lines_of(yaml)), "cmd-delete"@) is None ==> tube_stats_of(yaml).cmd_delete
            == tube_stats_of(Seq::<char>::empty()).cmd_delete,
{
    empty_body_has_no_entries();
}

/// Law: the empty body gives every text field of a tube's statistics the empty text,
/// every number 0 and every flag false.
pub proof fn tube_stats_of_empty_body()
    ensures
        tube_stats_of(Seq::<char>::empty()).name == Seq::<char>::empty(),
        tube_stats_of(Seq::<char>::empty()).processing_time_ewma == Seq::<char>::empty(),
        tube_stats_of(Seq::<char>::empty()).current_jobs_ready == 0,
        tube_stats_of(Seq::<char>::empty()).current_jobs_reserved == 0,
        tube_stats_of(Seq::<char>::empty()).current_jobs_delayed == 0,
        tube_stats_of(Seq::<char>::empty()).current_jobs_buried == 0,
        tube_stats_of(Seq::<char>::empty()).total_jobs == 0,
        tube_stats_of(Seq::<char>::empty()).total_reserves == 0,
        tube_stats_of(Seq::<char>::empty()).total_timeouts == 0,
        tube_stats_of(Seq::<char>::empty()).cmd_delete == 0,
{
    empty_body_has_no_entries();
}

/// Law: the line `<key>: <n>`, on a line of its own anywhere in a body
/// (after `pre`, before `post`), sets the number field of a tube's statistics that
/// reads `<key>` to `n`, unless a later line in `post` has the same key.
pub proof fn tube_stats_read_number_lines(pre: Seq<char>, post: Seq<char>, n: u64)
    requires
        ends_line(pre),
    ensures
        lookup(entries_of(lines_of(post)), "current-jobs-ready"@) is None ==> tube_stats_of(
            pre + entry_line("current-jobs-ready"@, decimal(n as nat)) + seq!['\n'] + post,
        ).current_jobs_ready == n,
        lookup(entries_of(lines_of(post)), "current-jobs-reserved"@) is None ==> tube_stats_of(
            pre + entry_line("current-jobs-reserved"@, decimal(n as nat)) + seq!['\n'] + post,
        ).current_jobs_reserved == n,
        lookup(entries_of(lines_of(post)), "current-jobs-delayed"@) is None ==> tube_stats_of(
            pre + entry_line("current-jobs-delayed"@, decimal(n as nat)) + seq!['\n'] + post,
        ).current_jobs_delayed == n,
        lookup(entries_of(lines_of(post)), "current-jobs-buried"@) is None ==> tube_stats_of(
            pre + entry_line("current-jobs-buried"@, decimal(n as nat)) + seq!['\n'] + post,
        ).current_jobs_buried == n,
        lookup(entries_of(lines_of(post)), "total-jobs"@) is None ==> tube_stats_of(
            pre + entry_line("total-jobs"@, decimal(n as nat)) + seq!['\n'] + post,
        ).total_jobs == n,
        lookup(entries_of(lines_of(post)), "cmd-reserve-with-timeout"@) is None ==> tube_stats_of(
            pre + entry_line("cmd-reserve-with-timeout"@, decimal(n as nat)) + seq!['\n'] + post,
        ).total_reserves == n,
        lookup(entries_of(lines_of(post)), "total-timeouts"@) is None ==> tube_stats_of(
            pre + entry_line("total-timeouts"@, decimal(n as nat)) + seq!['\n'] + post,
        ).total_timeouts == n,
        lookup(entries_of(lines_of(post)), "cmd-delete"@) is None ==> tube_stats_of(
            pre + entry_line("cmd-delete"@, decimal(n as nat)) + seq!['\n'] + post,
        ).cmd_delete == n,
{
    reveal_strlit("current-jobs-ready");
    assert(plain_key("current-jobs-ready"@)) by {
        reveal_with_fuel(plain_key, 19);
    }
    if lookup(entries_of(lines_of(post)), "current-jobs-ready"@) is None {
        number_line_reads_back(pre, "current-jobs-ready"@, n, post);
    }
    reveal_strlit("current-jobs-reserved");
    assert(plain_key("current-jobs-reserved"@)) by {
        reveal_with_fuel(plain_key, 22);
    }
    if lookup(entries_of(lines_of(post)), "current-jobs-reserved"@) is None {
        number_line_reads_back(pre, "current-jobs-reserved"@, n, post);
    }
    reveal_strlit("current-jobs-delayed");
    assert(plain_key("current-jobs-delayed"@)) by {
        reveal_with_fuel(plain_key, 21);
    }
    if lookup(entries_of(lines_of(post)), "current-jobs-delayed"@) is None {
        number_line_reads_back(pre, "current-jobs-delayed"@, n, post);
    }
    reveal_strlit("current-jobs-buried");
    assert(plain_key("current-jobs-buried"@)) by {
        reveal_with_fuel(plain_key, 20);
    }
    if lookup(entries_of(lines_of(post)), "current-jobs-buried"@) is None {
        number_line_reads_back(pre, "current-jobs-buried"@, n, post);
    }
    reveal_strlit("total-jobs");
    assert(plain_key("total-jobs"@)) by {
        reveal_with_fuel(plain_key, 11);
    }
    if lookup(entries_of(lines_of(post)), "total-jobs"@) is None {
        number_line_reads_back(pre, "total-jobs"@, n, post);
    }
    reveal_strlit("cmd-reserve-with-timeout");
    assert(plain_key("cmd-reserve-with-timeout"@)) by {
        reveal_with_fuel(plain_key, 25);
    }
    if lookup(entries_of(lines_of(post)), "cmd-reserve-with-timeout"@) is None {
        number_line_reads_back(pre, "cmd-reserve-with-timeout"@, n, post);
    }
    reveal_strlit("total-timeouts");
    assert(plain_key("total-timeouts"@)) by {
        reveal_with_fuel(plain_key, 15);
    }
    if lookup(entries_of(lines_of(post)), "total-timeouts"@) is None {
        number_line_reads_back(pre, "total-timeouts"@, n, post);
    }
    reveal_strlit("cmd-delete");
    assert(plain_key("cmd-delete"@)) by {
        reveal_with_fuel(plain_key, 11);
    }
    if lookup(entries_of(lines_of(post)), "cmd-delete"@) is None {
        number_line_reads_back(pre, "cmd-delete"@, n, post);
    }
}

/// Law: the line `<key>: <value>`, on a line of its own anywhere in a body
/// (after `pre`, before `post`), sets the text field of a tube's statistics that reads
/// `<key>` to `value` (for a value without a newline, already trimmed, not
/// in double quotes), unless a later line in `post` has the same key.
pub proof fn tube_stats_read_text_lines(pre: Seq<char>, post: Seq<char>, value: Seq<char>)
    requires
        ends_line(pre),
        writable_value(value),
    ensures
        lookup(entries_of(lines_of(post)), "name"@) is None ==> tube_stats_of(
            pre + entry_line("name"@, value) + seq!['\n'] + post,
        ).name == value,
        lookup(entries_of(lines_of(post)), "processing-time-ewma"@) is None ==> tube_stats_of(
            pre + entry_line("processing-time-ewma"@, value) + seq!['\n'] + post,
        ).processing_time_ewma == value,
{
    reveal_strlit("name");
    assert(plain_key("name"@)) by {
        reveal_with_fuel(plain_key, 5);
    }
    if lookup(entries_of(lines_of(post)), "name"@) is None {
        text_line_reads_back(pre, "name"@, value, post);
    }
    reveal_strlit("processing-time-ewma");
    assert(plain_key("processing-time-ewma"@)) by {
        reveal_with_fuel(plain_key, 21);
    }
    if lookup(entries_of(lines_of(post)), "processing-time-ewma"@) is None {
        text_line_reads_back(pre, "processing-time-ewma"@, value, post);
    }
}

} // verus!
