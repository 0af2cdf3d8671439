use tuber_tui::model::{ServerStats, TubeStats};
use tuber_tui::protocol::{
    stats_tube_command, frame_line, parse_ok_header, decode_body, finish_line, ReplyError,
};

const STATS: &str = "---\ncurrent-jobs-urgent: 0\ncurrent-jobs-ready: 5\ncurrent-jobs-reserved: 2\ncurrent-jobs-delayed: 1\ncurrent-jobs-buried: 3\ncmd-put: 100\ncmd-reserve: 90\ncmd-delete: 80\njob-timeouts: 4\ntotal-jobs: 120\ncurrent-connections: 7\ncurrent-producers: 2\ncurrent-workers: 3\ncurrent-waiting: 1\nuptime: 90061\nversion: \"0.4.2\"\nrusage-utime: 1.250000\nrusage-stime: 0.500000\ndraining: false\n";

const TUBE: &str = "---\nname: emails\ncurrent-jobs-ready: 10\ncurrent-jobs-reserved: 1\ncurrent-jobs-delayed: 0\ncurrent-jobs-buried: 2\ntotal-jobs: 500\ncmd-reserve-with-timeout: 33\ntotal-timeouts: 6\nprocessing-time-ewma: 12.5\ncmd-delete: 400\n";

#[test]
fn server_stats_read_every_field() {
    let s = ServerStats::from_yaml(STATS);
    assert_eq!(s.version, "0.4.2");
    assert_eq!(s.uptime, 90061);
    assert_eq!(s.current_connections, 7);
    assert_eq!(s.current_producers, 2);
    assert_eq!(s.current_workers, 3);
    assert_eq!(s.current_waiting, 1);
    assert_eq!(s.current_jobs_ready, 5);
    assert_eq!(s.current_jobs_reserved, 2);
    assert_eq!(s.current_jobs_delayed, 1);
    assert_eq!(s.current_jobs_buried, 3);
    assert_eq!(s.cmd_put, 100);
    assert_eq!(s.cmd_reserve, 90);
    assert_eq!(s.cmd_delete, 80);
    assert_eq!(s.job_timeouts, 4);
    assert_eq!(s.total_jobs, 120);
    assert_eq!(s.rusage_utime, "1.250000");
    assert_eq!(s.rusage_stime, "0.500000");
    assert!(!s.draining);
}

#[test]
fn server_stats_default_when_absent() {
    let s = ServerStats::from_yaml("---\n");
    assert_eq!(s.version, "");
    assert_eq!(s.uptime, 0);
    assert_eq!(s.rusage_utime, "");
    assert!(!s.draining);
}

#[test]
fn tube_stats_read_every_field() {
    let t = TubeStats::from_yaml(TUBE);
    assert_eq!(t.name, "emails");
    assert_eq!(t.current_jobs_ready, 10);
    assert_eq!(t.current_jobs_reserved, 1);
    assert_eq!(t.current_jobs_delayed, 0);
    assert_eq!(t.current_jobs_buried, 2);
    assert_eq!(t.total_jobs, 500);
    assert_eq!(t.total_reserves, 33);
    assert_eq!(t.total_timeouts, 6);
    assert_eq!(t.processing_time_ewma, "12.5");
    assert_eq!(t.cmd_delete, 400);
}

#[test]
fn stats_tube_command_names_the_tube() {
    assert_eq!(stats_tube_command("emails"), "stats-tube emails");
    assert_eq!(stats_tube_command(""), "stats-tube ");
}

#[test]
fn frame_line_appends_crlf() {
    assert_eq!(frame_line("stats"), b"stats\r\n".to_vec());
    assert_eq!(frame_line("stats-tube ü"), "stats-tube ü\r\n".as_bytes().to_vec());
}

#[test]
fn ok_header_gives_the_length() {
    assert!(matches!(parse_ok_header("OK 12"), Ok(12)));
    assert!(matches!(parse_ok_header("OK  7 "), Ok(7)));
    assert!(matches!(parse_ok_header("OK +5"), Ok(5)));
    assert!(matches!(parse_ok_header("OK 0"), Ok(0)));
    let max = format!("OK {}", usize::MAX);
    assert!(matches!(parse_ok_header(&max), Ok(n) if n == usize::MAX));
}

#[test]
fn header_that_is_not_ok_is_returned() {
    match parse_ok_header("NOT_FOUND") {
        Err(ReplyError::NotOk(l)) => assert_eq!(l, "NOT_FOUND"),
        other => panic!("unexpected {:?}", other),
    }
    assert!(matches!(parse_ok_header("OK"), Err(ReplyError::NotOk(_))));
    assert!(matches!(parse_ok_header("ok 5"), Err(ReplyError::NotOk(_))));
}

#[test]
fn header_with_bad_length_is_refused() {
    assert!(matches!(parse_ok_header("OK abc"), Err(ReplyError::BadLength)));
    assert!(matches!(parse_ok_header("OK "), Err(ReplyError::BadLength)));
    assert!(matches!(parse_ok_header("OK -1"), Err(ReplyError::BadLength)));
    assert!(matches!(parse_ok_header("OK 99999999999999999999999"), Err(ReplyError::BadLength)));
}

#[test]
fn body_drops_the_trailing_crlf() {
    let buf = b"---\n- a\n\r\n".to_vec();
    match decode_body(buf, 8) {
        Ok(s) => assert_eq!(s, "---\n- a\n"),
        Err(e) => panic!("{:?}", e),
    }
}

#[test]
fn body_that_is_not_utf8_is_refused() {
    let buf = vec![0xffu8, 0xfe, b'\r', b'\n'];
    assert!(matches!(decode_body(buf, 2), Err(ReplyError::BadUtf8)));
}

#[test]
fn finish_line_trims_and_detects_close() {
    assert!(matches!(finish_line(""), Err(ReplyError::Closed)));
    match finish_line("OK 12\r\n") {
        Ok(s) => assert_eq!(s, "OK 12"),
        Err(e) => panic!("{:?}", e),
    }
    match finish_line("\n") {
        Ok(s) => assert_eq!(s, ""),
        Err(e) => panic!("{:?}", e),
    }
}

#[test]
fn fields_ignore_other_keys() {
    let base = "---\nname: q\n";
    let with_other = format!("{}total-reserves: 9\npid: 7\n", base);
    let a = TubeStats::from_yaml(base);
    let b = TubeStats::from_yaml(&with_other);
    let empty = TubeStats::from_yaml("");
    assert_eq!(a.total_reserves, b.total_reserves);
    assert_eq!(b.total_reserves, empty.total_reserves);
    assert_eq!(b.name, "q");
}

#[test]
fn appended_line_sets_its_field() {
    let body = format!("{}current-jobs-ready: 42\n", STATS);
    assert_eq!(ServerStats::from_yaml(&body).current_jobs_ready, 42);
    let t = TubeStats::from_yaml(&format!("{}cmd-reserve-with-timeout: 8\n", TUBE));
    assert_eq!(t.total_reserves, 8);
}

#[test]
fn a_line_anywhere_sets_its_field_unless_overridden() {
    let body = "---\ncurrent-jobs-ready: 42\nuptime: 5\n";
    assert_eq!(ServerStats::from_yaml(body).current_jobs_ready, 42);
    let overridden = "---\ncurrent-jobs-ready: 42\nuptime: 5\ncurrent-jobs-ready: 7\n";
    assert_eq!(ServerStats::from_yaml(overridden).current_jobs_ready, 7);
    let t = TubeStats::from_yaml("name: a\ncmd-reserve-with-timeout: 8\ntotal-jobs: 1\n");
    assert_eq!(t.total_reserves, 8);
    assert_eq!(t.name, "a");
}
