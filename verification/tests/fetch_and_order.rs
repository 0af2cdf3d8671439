use tuber_tui::fetch::{FetchAction, SnapshotFetch};
use tuber_tui::model::TubeStats;
use tuber_tui::order::sort_by_total_jobs;

fn tube(name: &str, total: u64) -> TubeStats {
    TubeStats::from_yaml(&format!("---\nname: {}\ntotal-jobs: {}\n", name, total))
}

fn names(ts: &[TubeStats]) -> Vec<String> {
    ts.iter().map(|t| t.name.clone()).collect()
}

#[test]
fn sort_orders_by_total_largest_first() {
    let sorted = sort_by_total_jobs(vec![tube("a", 1), tube("b", 30), tube("c", 7)]);
    assert_eq!(names(&sorted), vec!["b", "c", "a"]);
}

#[test]
fn sort_keeps_equal_totals_in_order() {
    let sorted = sort_by_total_jobs(vec![
        tube("a", 5),
        tube("b", 9),
        tube("c", 5),
        tube("d", 9),
        tube("e", 5),
    ]);
    assert_eq!(names(&sorted), vec!["b", "d", "a", "c", "e"]);
    let via_std = {
        let mut v = vec![tube("a", 5), tube("b", 9), tube("c", 5), tube("d", 9), tube("e", 5)];
        v.sort_by(|x, y| y.total_jobs.cmp(&x.total_jobs));
        names(&v)
    };
    assert_eq!(names(&sorted), via_std);
}

#[test]
fn sort_of_nothing_is_nothing() {
    assert!(sort_by_total_jobs(Vec::new()).is_empty());
}

fn expect_send(a: FetchAction) -> String {
    match a {
        FetchAction::Send(s) => s,
        FetchAction::Finished(_) => panic!("finished early"),
        FetchAction::Ignored => panic!("ignored"),
    }
}

#[test]
fn fetch_asks_for_each_listed_tube_and_sorts() {
    let (mut f, first) = SnapshotFetch::start();
    assert_eq!(first, "stats");
    assert_eq!(expect_send(f.on_reply("---\nuptime: 5\nversion: 1.0\n")), "list-tubes");
    assert_eq!(expect_send(f.on_reply("---\n- default\n- mail\n")), "stats-tube default");
    assert_eq!(
        expect_send(f.on_reply("---\nname: default\ntotal-jobs: 3\n")),
        "stats-tube mail"
    );
    match f.on_reply("---\nname: mail\ntotal-jobs: 40\n") {
        FetchAction::Finished(snap) => {
            assert_eq!(snap.server.uptime, 5);
            assert_eq!(snap.server.version, "1.0");
            assert_eq!(names(&snap.tubes), vec!["mail", "default"]);
        },
        _ => panic!("expected the snapshot"),
    }
    assert!(f.is_complete());
    assert!(matches!(f.on_reply("---\n"), FetchAction::Ignored));
}

#[test]
fn fetch_without_tubes_finishes_after_the_list() {
    let (mut f, _) = SnapshotFetch::start();
    let _ = expect_send(f.on_reply("---\ntotal-jobs: 9\n"));
    match f.on_reply("---\n") {
        FetchAction::Finished(snap) => {
            assert_eq!(snap.server.total_jobs, 9);
            assert!(snap.tubes.is_empty());
        },
        _ => panic!("expected the snapshot"),
    }
}
