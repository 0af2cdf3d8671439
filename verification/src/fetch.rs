//! The sequence of requests that fetches one snapshot: `stats`, then
//! `list-tubes`, then `stats-tube <name>` for every listed tube, in order.
//! The caller sends each command and hands back each reply body; this
//! machine decides what comes next and assembles the snapshot.
use vstd::prelude::*;
use vstd::string::StringExecFns;
use crate::model::{
    ServerStats, ServerStatsView, TubeStats, TubeStatsView, Snapshot, SnapshotView, tube_views,
    server_stats_of, tube_stats_of,
};
use crate::order::{sorted_by_total, sort_by_total_jobs};
use crate::protocol::{stats_tube_command, stats_tube_line};
use crate::yaml::{parse_yaml_list, items_of, lines_of};

verus! {

/// Which reply the fetch waits for.
#[derive(Clone, Copy, Debug)]
pub enum FetchPhase {
    /// The reply to `stats`.
    AwaitServer,
    /// The reply to `list-tubes`.
    AwaitTubeList,
    /// The reply to `stats-tube` for the tube at this index of the list.
    AwaitTube(usize),
    /// None: the snapshot was handed out.
    Complete,
}

/// The mathematical state of a fetch.
pub struct FetchState {
    pub phase: FetchPhase,
    pub server: Option<ServerStatsView>,
    pub names: Seq<Seq<char>>,
    pub tubes: Seq<TubeStatsView>,
}

/// What the caller is to do after a reply.
pub enum FetchAction {
    /// Send this command line and hand back its reply body.
    Send(String),
    /// The fetch is done: here is the snapshot.
    Finished(Snapshot),
    /// The fetch was already complete: the reply was not expected.
    Ignored,
}

/// The mathematical value of a `FetchAction`.
pub enum ActionView {
    Send(Seq<char>),
    Finished(SnapshotView),
    Ignored,
}

impl View for FetchAction {
    type V = ActionView;

    open spec fn view(&self) -> ActionView {
        match self {
            FetchAction::Send(s) => ActionView::Send(s@),
            FetchAction::Finished(snap) => ActionView::Finished(snap@),
            FetchAction::Ignored => ActionView::Ignored,
        }
    }
}

/// The state of a fetch that has not sent anything yet.
pub open spec fn fetch_start() -> FetchState {
    FetchState {
        phase: FetchPhase::AwaitServer,
        server: None,
        names: Seq::empty(),
        tubes: Seq::empty(),
    }
}

/// The state of a fetch that has handed out its snapshot.
pub open spec fn fetch_complete() -> FetchState {
    FetchState {
        phase: FetchPhase::Complete,
        server: None,
        names: Seq::empty(),
        tubes: Seq::empty(),
    }
}

/// The snapshot made of the server statistics and the tube statistics,
/// the tubes sorted by `total_jobs`, largest first.
pub open spec fn finished(server: Option<ServerStatsView>, tubes: Seq<TubeStatsView>) -> ActionView {
    ActionView::Finished(SnapshotView { server: server.unwrap(), tubes: sorted_by_total(tubes) })
}

/// What a fetch in state `st` does with the reply body `body`: the next
/// state and the action for the caller.
pub open spec fn fetch_step(st: FetchState, body: Seq<char>) -> (FetchState, ActionView) {
    match st.phase {
        FetchPhase::AwaitServer => (
            FetchState {
                phase: FetchPhase::AwaitTubeList,
                server: Some(server_stats_of(body)),
                ..st
            },
            ActionView::Send("list-tubes"@),
        ),
        FetchPhase::AwaitTubeList => {
            let names = items_of(lines_of(body));
            if names.len() == 0 {
                (fetch_complete(), finished(st.server, st.tubes))
            } else {
                (
                    FetchState { phase: FetchPhase::AwaitTube(0), names: names, ..st },
                    ActionView::Send(stats_tube_line(names[0])),
                )
            }
        },
        FetchPhase::AwaitTube(i) => {
            let tubes = st.tubes.push(tube_stats_of(body));
            if i + 1 < st.names.len() {
                (
                    FetchState { phase: FetchPhase::AwaitTube((i + 1) as usize), tubes: tubes, ..st },
                    ActionView::Send(stats_tube_line(st.names[i + 1])),
                )
            } else {
                (fetch_complete(), finished(st.server, tubes))
            }
        },
        FetchPhase::Complete => (st, ActionView::Ignored),
    }
}

/// A fetch in progress.
pub struct SnapshotFetch {
    phase: FetchPhase,
    server: Option<ServerStats>,
    names: Vec<String>,
    tubes: Vec<TubeStats>,
}

impl View for SnapshotFetch {
    type V = FetchState;

    closed spec fn view(&self) -> FetchState {
        FetchState {
            phase: self.phase,
            server: match self.server {
                Some(s) => Some(s@),
                None => None,
            },
            names: self.names@.map_values(|n: String| n@),
            tubes: tube_views(self.tubes@),
        }
    }
}

impl SnapshotFetch {
    /// What holds of the fields in each phase.
    pub closed spec fn wf(&self) -> bool {
        match self.phase {
            FetchPhase::AwaitServer => self.server is None && self.names@.len() == 0
                && self.tubes@.len() == 0,
            FetchPhase::AwaitTubeList => self.server is Some && self.names@.len() == 0
                && self.tubes@.len() == 0,
            FetchPhase::AwaitTube(i) => self.server is Some && i < self.names@.len()
                && self.tubes@.len() == i,
            FetchPhase::Complete => self.server is None && self.names@.len() == 0
                && self.tubes@.len() == 0,
        }
    }

    /// A new fetch, and the first command to send (`stats`).
    pub fn start() -> (r: (Self, String))
        ensures
            r.0.wf(),
            r.0@ == fetch_start(),
            r.1@ == "stats"@,
    {
        let f = SnapshotFetch {
            phase: FetchPhase::AwaitServer,
            server: None,
            names: Vec::new(),
            tubes: Vec::new(),
        };
        assert(f@.names =~= Seq::<Seq<char>>::empty());
        assert(f@.tubes =~= Seq::<TubeStatsView>::empty());
        (f, String::from_str("stats"))
    }

    /// Whether the snapshot was handed out.
    pub fn is_complete(&self) -> (b: bool)
        ensures
            b == (self@.phase is Complete),
    {
        match self.phase {
            FetchPhase::Complete => true,
            _ => false,
        }
    }

    fn finish(&mut self) -> (snap: Snapshot)
        requires
            old(self).server is Some,
        ensures
            final(self).wf(),
            final(self)@ == fetch_complete(),
            snap@.server == old(self)@.server.unwrap(),
            snap@.tubes == sorted_by_total(old(self)@.tubes),
    {
        let server = self.server.take().unwrap();
        let mut tubes: Vec<TubeStats> = Vec::new();
        std::mem::swap(&mut tubes, &mut self.tubes);
        self.names = Vec::new();
        self.phase = FetchPhase::Complete;
        let sorted = sort_by_total_jobs(tubes);
        assert(self@.names =~= Seq::<Seq<char>>::empty());
        assert(self@.tubes =~= Seq::<TubeStatsView>::empty());
        Snapshot { server, tubes: sorted }
    }

    /// Takes the body of the reply to the last command sent, and says what
    /// to do next, as `fetch_step` describes.
    pub fn on_reply(&mut self, body: &str) -> (a: FetchAction)
        requires
            old(self).wf(),
        ensures
            final(self).wf(),
            final(self)@ == fetch_step(old(self)@, body@).0,
            a@ == fetch_step(old(self)@, body@).1,
    {
        let ghost st = self@;
        match self.phase {
            FetchPhase::AwaitServer => {
                self.server = Some(ServerStats::from_yaml(body));
                self.phase = FetchPhase::AwaitTubeList;
                FetchAction::Send(String::from_str("list-tubes"))
            },
            FetchPhase::AwaitTubeList => {
                let names = parse_yaml_list(body);
                if names.len() == 0 {
                    let snap = self.finish();
                    FetchAction::Finished(snap)
                } else {
                    let cmd = stats_tube_command(names[0].as_str());
                    self.names = names;
                    self.phase = FetchPhase::AwaitTube(0);
                    FetchAction::Send(cmd)
                }
            },
            FetchPhase::AwaitTube(i) => {
                let n = self.names.len();
                assert(i < n);
                let t = TubeStats::from_yaml(body);
                self.tubes.push(t);
                assert(tube_views(self.tubes@) =~= st.tubes.push(tube_stats_of(body@)));
                if i + 1 < n {
                    let cmd = stats_tube_command(self.names[i + 1].as_str());
                    self.phase = FetchPhase::AwaitTube(i + 1);
                    FetchAction::Send(cmd)
                } else {
                    let snap = self.finish();
                    FetchAction::Finished(snap)
                }
            },
            FetchPhase::Complete => FetchAction::Ignored,
        }
    }
}

/// The state and the actions after a fetch in state `st` takes the reply
/// bodies `bodies`, in order.
pub open spec fn fetch_run(st: FetchState, bodies: Seq<Seq<char>>) -> (FetchState, Seq<ActionView>)
    decreases bodies.len(),
{
    if bodies.len() == 0 {
        (st, Seq::empty())
    } else {
        let (next, a) = fetch_step(st, bodies[0]);
        let (last, rest) = fetch_run(next, bodies.drop_first());
        (last, seq![a] + rest)
    }
}

proof fn lemma_tube_run(st: FetchState, i: int, bodies: Seq<Seq<char>>)
    requires
        0 <= i < st.names.len() <= usize::MAX,
        st.phase == FetchPhase::AwaitTube(i as usize),
        st.tubes.len() == i,
        bodies.len() == st.names.len() - i,
    ensures
        fetch_run(st, bodies).0 == fetch_complete(),
        fetch_run(st, bodies).1.len() == st.names.len() - i,
        forall|j: int|
            0 <= j < st.names.len() - i - 1 ==> #[trigger] fetch_run(st, bodies).1[j]
                == ActionView::Send(stats_tube_line(st.names[i + j + 1])),
        fetch_run(st, bodies).1[st.names.len() - i - 1] == finished(
            st.server,
            st.tubes + bodies.map_values(|b: Seq<char>| tube_stats_of(b)),
        ),
    decreases bodies.len(),
{
    let n = st.names.len() as int;
    let step = fetch_step(st, bodies[0]);
    let next = step.0;
    let a = step.1;
    let rest = bodies.drop_first();
    let acts = fetch_run(st, bodies).1;
    let racts = fetch_run(next, rest).1;
    assert(acts == seq![a] + racts);
    let ts = bodies.map_values(|b: Seq<char>| tube_stats_of(b));
    assert(st.tubes.push(tube_stats_of(bodies[0])) + rest.map_values(|b: Seq<char>| tube_stats_of(b))
        =~= st.tubes + ts);
    if i + 1 < n {
        assert(next.phase == FetchPhase::AwaitTube((i + 1) as usize));
        lemma_tube_run(next, i + 1, rest);
        assert forall|j: int| 0 <= j < n - i - 1 implies #[trigger] acts[j] == ActionView::Send(
            stats_tube_line(st.names[i + j + 1]),
        ) by {
            if j > 0 {
                assert(acts[j] == racts[j - 1]);
            }
        }
        assert(acts[n - i - 1] == racts[n - i - 2]);
    } else {
        assert(rest.len() == 0);
        assert(racts =~= Seq::<ActionView>::empty());
        assert(rest.map_values(|b: Seq<char>| tube_stats_of(b)) =~= Seq::<TubeStatsView>::empty());
    }
}

/// Law: fetching a snapshot sends `list-tubes` after the `stats` reply,
/// then `stats-tube <name>` for each listed tube in list order, one per
/// reply, and finishes on the last reply with the server statistics of the
/// `stats` reply and the statistics of every tube reply, sorted by
/// `total_jobs`, largest first; the fetch is then complete.
pub proof fn fetch_sends_and_assembles(
    stats_body: Seq<char>,
    list_body: Seq<char>,
    tube_bodies: Seq<Seq<char>>,
)
    requires
        tube_bodies.len() == items_of(lines_of(list_body)).len(),
        tube_bodies.len() <= usize::MAX,
    ensures
        ({
            let names = items_of(lines_of(list_body));
            let n = names.len() as int;
            let (last, acts) = fetch_run(fetch_start(), seq![stats_body, list_body] + tube_bodies);
            &&& last == fetch_complete()
            &&& acts.len() == n + 2
            &&& acts[0] == ActionView::Send("list-tubes"@)
            &&& forall|j: int|
                0 <= j < n ==> #[trigger] acts[j + 1] == ActionView::Send("stats-tube "@ + names[j])
            &&& acts[n + 1] == ActionView::Finished(
                SnapshotView {
                    server: server_stats_of(stats_body),
                    tubes: sorted_by_total(tube_bodies.map_values(|b: Seq<char>| tube_stats_of(b))),
                },
            )
        }),
{
    let names = items_of(lines_of(list_body));
    let n = names.len() as int;
    let tail = seq![list_body] + tube_bodies;
    let all = seq![stats_body] + tail;
    assert(seq![stats_body, list_body] + tube_bodies =~= all);
    let s0 = fetch_start();
    let s1 = fetch_step(s0, stats_body).0;
    let a0 = fetch_step(s0, stats_body).1;
    let s2 = fetch_step(s1, list_body).0;
    let a1 = fetch_step(s1, list_body).1;
    assert(all[0] == stats_body);
    assert(all.drop_first() =~= tail);
    assert(tail[0] == list_body);
    assert(tail.drop_first() =~= tube_bodies);
    assert(s1.server == Some(server_stats_of(stats_body)));
    assert(s1.tubes == Seq::<TubeStatsView>::empty());
    let ts = tube_bodies.map_values(|b: Seq<char>| tube_stats_of(b));
    let acts1 = fetch_run(s1, tail).1;
    assert(fetch_run(s0, all).0 == fetch_run(s1, tail).0);
    assert(fetch_run(s0, all).1 == seq![a0] + acts1);
    assert(fetch_run(s1, tail).0 == fetch_run(s2, tube_bodies).0);
    assert(acts1 == seq![a1] + fetch_run(s2, tube_bodies).1);
    if n == 0 {
        assert(tube_bodies =~= Seq::<Seq<char>>::empty());
        assert(ts =~= Seq::<TubeStatsView>::empty());
        assert(fetch_run(s2, tube_bodies).1 =~= Seq::<ActionView>::empty());
    } else {
        assert(s2.phase == FetchPhase::AwaitTube(0));
        assert(s2.names == names);
        assert(s2.tubes == Seq::<TubeStatsView>::empty());
        lemma_tube_run(s2, 0, tube_bodies);
        let acts2 = fetch_run(s2, tube_bodies).1;
        assert(Seq::<TubeStatsView>::empty() + ts =~= ts);
        assert(acts1[0] == a1);
        assert forall|j: int| 0 <= j < n implies #[trigger] fetch_run(s0, all).1[j + 1]
            == ActionView::Send("stats-tube "@ + names[j]) by {
            crate::protocol::stats_tube_line_names_whole_tube(names[j]);
            if j > 0 {
                assert(acts1[j] == acts2[j - 1]);
            }
        }
        assert(acts1[n] == acts2[n - 1]);
    }
}

} // verus!
