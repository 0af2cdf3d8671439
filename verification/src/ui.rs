//! The text that the dashboard draws: durations, abbreviated counts, the
//! summary lines of the top bar, and the labels and columns of the tube
//! chart.
use vstd::prelude::*;
use vstd::string::StringSliceAdditionalSpecFns;
use vstd::utf8::{encode_utf8, decode_utf8, is_char_boundary};
use crate::model::{ServerStats, ServerStatsView, TubeStats, TubeStatsView, tube_views};
use crate::rounding::{f64_of_int, quotient_tenths, f64_of_u64, quotient_tenths_u128};
use crate::text::{decimal, push_decimal, chars_of, string_from_chars};

verus! {

broadcast use vstd::string::group_string_axioms;

/// A duration in seconds as the top bar shows it: whole days, hours and
/// minutes (`3d 4h 5m`), leaving out leading zero units (`4h 5m`, `5m`).
pub open spec fn uptime_text(seconds: nat) -> Seq<char> {
    let days = seconds / 86400;
    let hours = (seconds % 86400) / 3600;
    let mins = (seconds % 3600) / 60;
    if days > 0 {
        decimal(days) + seq!['d', ' '] + decimal(hours) + seq!['h', ' '] + decimal(mins) + seq!['m']
    } else if hours > 0 {
        decimal(hours) + seq!['h', ' '] + decimal(mins) + seq!['m']
    } else {
        decimal(mins) + seq!['m']
    }
}

/// A number of tenths written with one decimal place.
pub open spec fn tenths_text(t: nat) -> Seq<char> {
    decimal(t / 10) + seq!['.'] + decimal(t % 10)
}

/// A count as the dashboard abbreviates it: below a thousand in full;
/// below a million in thousands with one decimal and `K`; otherwise in
/// millions with one decimal and `M`. The thousands and millions are those
/// of the binary64 computation `n as f64 / 1e3` (or `/ 1e6`) written with
/// `{:.1}`, so `1250` gives `1.2K` and `1150` gives `1.1K`.
pub open spec fn number_text(n: nat) -> Seq<char> {
    if n >= 1_000_000 {
        tenths_text(quotient_tenths(f64_of_int(n), 1_000_000)) + seq!['M']
    } else if n >= 1000 {
        tenths_text(quotient_tenths(n, 1000)) + seq!['K']
    } else {
        decimal(n)
    }
}

/// `s` right-aligned in a field of `width` characters (as `{:>width$}`
/// pads a string: with spaces on the left, never truncating).
pub open spec fn pad_left(s: Seq<char>, width: nat) -> Seq<char> {
    if s.len() < width {
        Seq::new((width - s.len()) as nat, |i: int| ' ') + s
    } else {
        s
    }
}

fn push_spaces(out: &mut Vec<char>, n: usize)
    ensures
        final(out)@ == old(out)@ + Seq::new(n as nat, |i: int| ' '),
{
    let mut i: usize = 0;
    while i < n
        invariant
            i <= n,
            out@ == old(out)@ + Seq::new(i as nat, |j: int| ' '),
        decreases n - i,
    {
        out.push(' ');
        i = i + 1;
        assert(out@ =~= old(out)@ + Seq::new(i as nat, |j: int| ' '));
    }
}

fn push_chars(out: &mut Vec<char>, s: &[char])
    ensures
        final(out)@ == old(out)@ + s@,
{
    let mut i: usize = 0;
    while i < s.len()
        invariant
            i <= s@.len(),
            out@ == old(out)@ + s@.take(i as int),
        decreases s@.len() - i,
    {
        out.push(s[i]);
        i = i + 1;
        assert(out@ =~= old(out)@ + s@.take(i as int));
    }
    assert(s@.take(s@.len() as int) =~= s@);
}

fn push_str(out: &mut Vec<char>, s: &str)
    ensures
        final(out)@ == old(out)@ + s@,
{
    let cs = chars_of(s);
    push_chars(out, cs.as_slice());
}

/// Formats an uptime in seconds, as `uptime_text` describes.
pub fn format_uptime(seconds: u64) -> (r: String)
    ensures
        r@ == uptime_text(seconds as nat),
{
    let days = seconds / 86400;
    let hours = (seconds % 86400) / 3600;
    let mins = (seconds % 3600) / 60;
    let mut out: Vec<char> = Vec::new();
    if days > 0 {
        push_decimal(days as u128, &mut out);
        out.push('d');
        out.push(' ');
    }
    if days > 0 || hours > 0 {
        push_decimal(hours as u128, &mut out);
        out.push('h');
        out.push(' ');
    }
    push_decimal(mins as u128, &mut out);
    out.push('m');
    assert(out@ =~= uptime_text(seconds as nat));
    string_from_chars(out.as_slice())
}

fn push_tenths(out: &mut Vec<char>, t: u128)
    ensures
        final(out)@ == old(out)@ + tenths_text(t as nat),
{
    push_decimal(t / 10, out);
    out.push('.');
    push_decimal(t % 10, out);
    assert(out@ =~= old(out)@ + tenths_text(t as nat));
}

/// Abbreviates a count, as `number_text` describes.
pub fn format_number(n: u64) -> (r: String)
    ensures
        r@ == number_text(n as nat),
{
    let mut out: Vec<char> = Vec::new();
    if n >= 1_000_000 {
        let x = f64_of_u64(n);
        let t = quotient_tenths_u128(x, 1_000_000);
        push_tenths(&mut out, t);
        out.push('M');
    } else if n >= 1000 {
        let t = quotient_tenths_u128(n as u128, 1000);
        push_tenths(&mut out, t);
        out.push('K');
    } else {
        push_decimal(n as u128, &mut out);
    }
    assert(out@ =~= number_text(n as nat));
    string_from_chars(out.as_slice())
}

/// The connection summary of the top bar.
pub open spec fn connections_line(s: crate::model::ServerStatsView) -> Seq<char> {
    "conns: "@ + decimal(s.current_connections as nat) + " (P:"@ + decimal(
        s.current_producers as nat,
    ) + " W:"@ + decimal(s.current_workers as nat) + " Wt:"@ + decimal(s.current_waiting as nat)
        + ")"@
}

/// The job summary of the top bar.
pub open spec fn jobs_line(s: crate::model::ServerStatsView) -> Seq<char> {
    "jobs: "@ + decimal(s.current_jobs_ready as nat) + " ready, "@ + decimal(
        s.current_jobs_reserved as nat,
    ) + " reserved, "@ + decimal(s.current_jobs_delayed as nat) + " delayed, "@ + decimal(
        s.current_jobs_buried as nat,
    ) + " buried"@
}

/// `conns: <connections> (P:<producers> W:<workers> Wt:<waiting>)`.
pub fn connections_text(s: &ServerStats) -> (r: String)
    ensures
        r@ == connections_line(s@),
{
    let mut out: Vec<char> = Vec::new();
    push_str(&mut out, "conns: ");
    push_decimal(s.current_connections as u128, &mut out);
    push_str(&mut out, " (P:");
    push_decimal(s.current_producers as u128, &mut out);
    push_str(&mut out, " W:");
    push_decimal(s.current_workers as u128, &mut out);
    push_str(&mut out, " Wt:");
    push_decimal(s.current_waiting as u128, &mut out);
    push_str(&mut out, ")");
    assert(out@ =~= connections_line(s@));
    string_from_chars(out.as_slice())
}

/// `jobs: <ready> ready, <reserved> reserved, <delayed> delayed, <buried>
/// buried`.
pub fn jobs_text(s: &ServerStats) -> (r: String)
    ensures
        r@ == jobs_line(s@),
{
    let mut out: Vec<char> = Vec::new();
    push_str(&mut out, "jobs: ");
    push_decimal(s.current_jobs_ready as u128, &mut out);
    push_str(&mut out, " ready, ");
    push_decimal(s.current_jobs_reserved as u128, &mut out);
    push_str(&mut out, " reserved, ");
    push_decimal(s.current_jobs_delayed as u128, &mut out);
    push_str(&mut out, " delayed, ");
    push_decimal(s.current_jobs_buried as u128, &mut out);
    push_str(&mut out, " buried");
    assert(out@ =~= jobs_line(s@));
    string_from_chars(out.as_slice())
}

/// `up <uptime>`.
pub fn uptime_label(seconds: u64) -> (r: String)
    ensures
        r@ == "up "@ + uptime_text(seconds as nat),
{
    let mut out: Vec<char> = Vec::new();
    push_str(&mut out, "up ");
    let u = format_uptime(seconds);
    push_str(&mut out, u.as_str());
    string_from_chars(out.as_slice())
}

/// The jobs of a tube in any state: ready, reserved, delayed and buried.
pub open spec fn tube_total_of(t: TubeStatsView) -> int {
    t.current_jobs_ready + t.current_jobs_reserved + t.current_jobs_delayed
        + t.current_jobs_buried
}

/// The jobs of a tube in any state, when the sum fits in a `u64`.
pub fn tube_total(t: &TubeStats) -> (r: u64)
    requires
        tube_total_of(t@) <= u64::MAX,
    ensures
        r == tube_total_of(t@),
{
    t.current_jobs_ready + t.current_jobs_reserved + t.current_jobs_delayed
        + t.current_jobs_buried
}

/// The total column of a chart row: a space, then the abbreviated count
/// right-aligned in seven characters.
pub fn total_display(total: u64) -> (r: String)
    ensures
        r@ == seq![' '] + pad_left(number_text(total as nat), 7),
{
    let s = format_number(total);
    let cs = chars_of(s.as_str());
    let mut out: Vec<char> = Vec::new();
    out.push(' ');
    if cs.len() < 7 {
        push_spaces(&mut out, 7 - cs.len());
    }
    push_chars(&mut out, cs.as_slice());
    assert(out@ =~= seq![' '] + pad_left(number_text(total as nat), 7));
    string_from_chars(out.as_slice())
}

/// The bar of a tube without jobs: at most three dots.
pub fn idle_bar(bar_width: usize) -> (r: String)
    ensures
        r@ == Seq::new(if bar_width < 3 { bar_width as nat } else { 3 }, |i: int| '·'),
{
    let n: usize = if bar_width < 3 {
        bar_width
    } else {
        3
    };
    let mut out: Vec<char> = Vec::new();
    let mut i: usize = 0;
    while i < n
        invariant
            i <= n,
            out@ == Seq::new(i as nat, |j: int| '·'),
        decreases n - i,
    {
        out.push('·');
        i = i + 1;
        assert(out@ =~= Seq::new(i as nat, |j: int| '·'));
    }
    string_from_chars(out.as_slice())
}

/// The buried jobs of a sequence of tubes, added up.
pub open spec fn sum_buried(ts: Seq<TubeStatsView>) -> int
    decreases ts.len(),
{
    if ts.len() == 0 {
        0
    } else {
        sum_buried(ts.drop_last()) + ts.last().current_jobs_buried
    }
}

proof fn lemma_sum_buried_prefix(ts: Seq<TubeStatsView>, i: int)
    requires
        0 <= i <= ts.len(),
    ensures
        0 <= sum_buried(ts.take(i)) <= sum_buried(ts),
    decreases ts.len() - i,
{
    if i < ts.len() {
        lemma_sum_buried_prefix(ts, i + 1);
        assert(ts.take(i + 1).drop_last() =~= ts.take(i));
    } else {
        assert(ts.take(i) =~= ts);
    }
    lemma_sum_buried_nonneg(ts.take(i));
}

proof fn lemma_sum_buried_nonneg(ts: Seq<TubeStatsView>)
    ensures
        sum_buried(ts) >= 0,
    decreases ts.len(),
{
    if ts.len() > 0 {
        lemma_sum_buried_nonneg(ts.drop_last());
    }
}

/// The buried jobs of all tubes together, when the sum fits in a `u64`.
pub fn total_buried(tubes: &[TubeStats]) -> (r: u64)
    requires
        sum_buried(tube_views(tubes@)) <= u64::MAX,
    ensures
        r == sum_buried(tube_views(tubes@)),
{
    let ghost ts = tube_views(tubes@);
    let mut sum: u64 = 0;
    let mut i: usize = 0;
    while i < tubes.len()
        invariant
            i <= tubes@.len(),
            ts == tube_views(tubes@),
            sum_buried(ts) <= u64::MAX,
            sum == sum_buried(ts.take(i as int)),
        decreases tubes@.len() - i,
    {
        proof {
            lemma_sum_buried_prefix(ts, i + 1);
            assert(ts.take(i + 1).drop_last() =~= ts.take(i as int));
            assert(ts[i as int] == tubes@[i as int]@);
        }
        sum = sum + tubes[i].current_jobs_buried;
        i = i + 1;
    }
    assert(ts.take(tubes@.len() as int) =~= ts);
    sum
}

/// The length in bytes of the longest tube name (0 for no tubes).
pub open spec fn longest_name(ts: Seq<TubeStatsView>) -> nat
    decreases ts.len(),
{
    if ts.len() == 0 {
        0
    } else {
        let rest = longest_name(ts.drop_last());
        let here = encode_utf8(ts.last().name).len();
        if here > rest {
            here
        } else {
            rest
        }
    }
}

/// The columns of the tube chart in a chart of `width` characters: the
/// width of the name column (the longest name in bytes, at most 20), and
/// that of the bars (what is left after the names and 12 more characters).
pub fn chart_columns(width: u16, tubes: &[TubeStats]) -> (r: (usize, usize))
    ensures
        r.0 == if longest_name(tube_views(tubes@)) < 20 {
            longest_name(tube_views(tubes@))
        } else {
            20
        },
        r.1 == if width >= r.0 + 12 {
            width - r.0 - 12
        } else {
            0
        },
{
    let ghost ts = tube_views(tubes@);
    let mut longest: usize = 0;
    let mut i: usize = 0;
    while i < tubes.len()
        invariant
            i <= tubes@.len(),
            ts == tube_views(tubes@),
            longest == longest_name(ts.take(i as int)),
        decreases tubes@.len() - i,
    {
        assert(ts.take(i + 1).drop_last() =~= ts.take(i as int));
        assert(ts[i as int] == tubes@[i as int]@);
        let here = tubes[i].name.as_str().as_bytes().len();
        assert(ts.take(i + 1).last() == ts[i as int]);
        if here > longest {
            longest = here;
        }
        i = i + 1;
    }
    assert(ts.take(tubes@.len() as int) =~= ts);
    let name_width: usize = if longest < 20 {
        longest
    } else {
        20
    };
    let used: u16 = name_width as u16 + 2 + 10;
    let bars: usize = if width >= used {
        (width - used) as usize
    } else {
        0
    };
    (name_width, bars)
}

/// The name column of a chart row: the name cut to `width` bytes, right
/// aligned in `width` characters, then a space.
pub open spec fn name_cell(name: Seq<char>, width: nat) -> Seq<char> {
    let bytes = encode_utf8(name);
    let shown = if bytes.len() > width {
        decode_utf8(bytes.take(width as int))
    } else {
        name
    };
    pad_left(shown, width) + seq![' ']
}

/// The name column of a chart row, as `name_cell` describes; cutting the
/// name must not split a character.
pub fn chart_label(name: &str, width: usize) -> (r: String)
    requires
        encode_utf8(name@).len() > width ==> is_char_boundary(encode_utf8(name@), width as int),
    ensures
        r@ == name_cell(name@, width as nat),
{
    let nbytes = name.as_bytes().len();
    let shown: &str = if nbytes > width {
        let (head, _tail) = name.split_at(width);
        proof {
            vstd::utf8::encode_utf8_decode_utf8(head@);
            assert(head.spec_bytes() == encode_utf8(head@));
            assert(encode_utf8(head@) == encode_utf8(name@).subrange(0, width as int));
            assert(encode_utf8(name@).subrange(0, width as int) =~= encode_utf8(name@).take(
                width as int,
            ));
        }
        head
    } else {
        name
    };
    let cs = chars_of(shown);
    let mut out: Vec<char> = Vec::new();
    if cs.len() < width {
        push_spaces(&mut out, width - cs.len());
    }
    push_chars(&mut out, cs.as_slice());
    out.push(' ');
    proof {
        if nbytes > width {
            assert(shown@ == decode_utf8(encode_utf8(name@).take(width as int)));
        } else {
            assert(shown@ == name@);
        }
    }
    assert(out@ =~= name_cell(name@, width as nat));
    string_from_chars(out.as_slice())
}

/// How a piece of dashboard text is coloured.
#[derive(Clone, Copy, Debug, PartialEq, Eq, Structural)]
pub enum Tint {
    /// The terminal's default style.
    Plain,
    /// Dark grey: labels and separators.
    Gray,
    White,
    Green,
    Yellow,
    Blue,
    Red,
    /// Bold red: what needs attention.
    Alert,
}

/// A run of text in one style.
pub struct Piece {
    pub text: String,
    pub tint: Tint,
}

/// The mathematical value of a `Piece`.
pub struct PieceView {
    pub text: Seq<char>,
    pub tint: Tint,
}

impl View for Piece {
    type V = PieceView;

    open spec fn view(&self) -> PieceView {
        PieceView { text: self.text@, tint: self.tint }
    }
}

/// The views of a sequence of pieces.
pub open spec fn piece_views(v: Seq<Piece>) -> Seq<PieceView> {
    v.map_values(|p: Piece| p@)
}

fn piece(text: String, tint: Tint) -> (p: Piece)
    ensures
        p@ == (PieceView { text: text@, tint: tint }),
{
    Piece { text, tint }
}

fn push_piece(out: &mut Vec<Piece>, text: String, tint: Tint)
    ensures
        piece_views(final(out)@) == piece_views(old(out)@).push(PieceView { text: text@, tint: tint }),
{
    out.push(piece(text, tint));
    assert(piece_views(out@) =~= piece_views(old(out)@).push(PieceView { text: text@, tint: tint }));
}

/// How many tubes get a row in a chart of `rows` rows: the first ones, as
/// many as fit.
pub fn visible_tubes(count: usize, rows: usize) -> (r: usize)
    ensures
        r == if count < rows { count } else { rows },
{
    if count < rows {
        count
    } else {
        rows
    }
}

/// `w` bar cells.
pub open spec fn bar_cells(w: nat) -> Seq<char> {
    Seq::new(w, |i: int| '█')
}

/// A bar run of `w` cells in `tint`, left out when `w` is zero.
pub open spec fn bar_run(w: nat, tint: Tint) -> Seq<PieceView> {
    if w > 0 {
        seq![PieceView { text: bar_cells(w), tint: tint }]
    } else {
        Seq::empty()
    }
}

/// The pieces of one chart row: the name column in white; then either, for
/// a tube without jobs, the idle dots and the total in grey, or the bar
/// runs for ready (green), reserved (yellow), delayed (blue) and buried
/// (red) jobs, leaving out empty runs, the total in the default style and,
/// when given, the processing-time note in grey.
pub open spec fn chart_row_pieces(
    t: TubeStatsView,
    name_width: nat,
    bar_width: nat,
    widths: (usize, usize, usize, usize),
    note: Option<Seq<char>>,
) -> Seq<PieceView> {
    let label = PieceView { text: name_cell(t.name, name_width), tint: Tint::White };
    let total = seq![' '] + pad_left(number_text(tube_total_of(t) as nat), 7);
    if tube_total_of(t) == 0 {
        seq![
            label,
            PieceView { text: Seq::new(if bar_width < 3 { bar_width } else { 3 }, |i: int| '·'), tint: Tint::Gray },
            PieceView { text: total, tint: Tint::Gray },
        ]
    } else {
        seq![label] + bar_run(widths.0 as nat, Tint::Green) + bar_run(widths.1 as nat, Tint::Yellow)
            + bar_run(widths.2 as nat, Tint::Blue) + bar_run(widths.3 as nat, Tint::Red) + seq![
            PieceView { text: total, tint: Tint::Plain },
        ] + match note {
            Some(n) => seq![PieceView { text: n, tint: Tint::Gray }],
            None => Seq::empty(),
        }
    }
}

/// The text of an optional note.
pub open spec fn note_view(note: Option<String>) -> Option<Seq<char>> {
    match note {
        Some(n) => Some(n@),
        None => None,
    }
}

fn bar_string(w: usize) -> (r: String)
    ensures
        r@ == bar_cells(w as nat),
{
    let mut out: Vec<char> = Vec::new();
    let mut i: usize = 0;
    while i < w
        invariant
            i <= w,
            out@ == bar_cells(i as nat),
        decreases w - i,
    {
        out.push('█');
        i = i + 1;
        assert(out@ =~= bar_cells(i as nat));
    }
    string_from_chars(out.as_slice())
}

fn push_bar_run(out: &mut Vec<Piece>, w: usize, tint: Tint)
    ensures
        piece_views(final(out)@) == piece_views(old(out)@) + bar_run(w as nat, tint),
{
    if w > 0 {
        push_piece(out, bar_string(w), tint);
        assert(piece_views(out@) =~= piece_views(old(out)@) + bar_run(w as nat, tint));
    } else {
        assert(piece_views(out@) =~= piece_views(old(out)@) + bar_run(w as nat, tint));
    }
}

/// The pieces of the chart row of `tube`, as `chart_row_pieces` describes,
/// given the widths of its four bar runs and its processing-time note.
pub fn chart_row(
    tube: &TubeStats,
    name_width: usize,
    bar_width: usize,
    widths: (usize, usize, usize, usize),
    note: Option<String>,
) -> (r: Vec<Piece>)
    requires
        encode_utf8(tube.name@).len() > name_width ==> is_char_boundary(
            encode_utf8(tube.name@),
            name_width as int,
        ),
        tube_total_of(tube@) <= u64::MAX,
    ensures
        piece_views(r@) == chart_row_pieces(
            tube@,
            name_width as nat,
            bar_width as nat,
            widths,
            note_view(note),
        ),
{
    let ghost nv = note_view(note);
    let mut out: Vec<Piece> = Vec::new();
    let label = chart_label(tube.name.as_str(), name_width);
    push_piece(&mut out, label, Tint::White);
    let total = tube_total(tube);
    let total_text = total_display(total);
    if total == 0 {
        push_piece(&mut out, idle_bar(bar_width), Tint::Gray);
        push_piece(&mut out, total_text, Tint::Gray);
    } else {
        push_bar_run(&mut out, widths.0, Tint::Green);
        push_bar_run(&mut out, widths.1, Tint::Yellow);
        push_bar_run(&mut out, widths.2, Tint::Blue);
        push_bar_run(&mut out, widths.3, Tint::Red);
        push_piece(&mut out, total_text, Tint::Plain);
        match note {
            Some(n) => {
                push_piece(&mut out, n, Tint::Gray);
            },
            None => {},
        }
    }
    assert(piece_views(out@) =~= chart_row_pieces(
        tube@,
        name_width as nat,
        bar_width as nat,
        widths,
        nv,
    ));
    out
}

/// The first line of the top bar: the version, the uptime and the
/// connection summary, separated by grey bars, and a bold red `DRAINING`
/// when the server is draining.
pub open spec fn top_line_pieces(s: ServerStatsView) -> Seq<PieceView> {
    seq![
        PieceView { text: " v"@, tint: Tint::Gray },
        PieceView { text: s.version, tint: Tint::Plain },
        PieceView { text: " | "@, tint: Tint::Gray },
        PieceView { text: "up "@ + uptime_text(s.uptime as nat), tint: Tint::Plain },
        PieceView { text: " | "@, tint: Tint::Gray },
        PieceView { text: connections_line(s), tint: Tint::Plain },
    ] + if s.draining {
        seq![
            PieceView { text: " | "@, tint: Tint::Gray },
            PieceView { text: "DRAINING"@, tint: Tint::Alert },
        ]
    } else {
        Seq::empty()
    }
}

/// The second line of the top bar: the CPU times (`cpu`, already written
/// out) and the job summary.
pub open spec fn jobs_line_pieces(s: ServerStatsView, cpu: Seq<char>) -> Seq<PieceView> {
    seq![
        PieceView { text: " CPU: "@, tint: Tint::Gray },
        PieceView { text: cpu, tint: Tint::Plain },
        PieceView { text: " | "@, tint: Tint::Gray },
        PieceView { text: jobs_line(s), tint: Tint::Plain },
    ]
}

fn str_string(s: &str) -> (r: String)
    ensures
        r@ == s@,
{
    let cs = chars_of(s);
    string_from_chars(cs.as_slice())
}

/// The first line of the top bar, as `top_line_pieces` describes.
pub fn top_line(s: &ServerStats) -> (r: Vec<Piece>)
    ensures
        piece_views(r@) == top_line_pieces(s@),
{
    let mut out: Vec<Piece> = Vec::new();
    push_piece(&mut out, str_string(" v"), Tint::Gray);
    push_piece(&mut out, str_string(s.version.as_str()), Tint::Plain);
    push_piece(&mut out, str_string(" | "), Tint::Gray);
    push_piece(&mut out, uptime_label(s.uptime), Tint::Plain);
    push_piece(&mut out, str_string(" | "), Tint::Gray);
    push_piece(&mut out, connections_text(s), Tint::Plain);
    if s.draining {
        push_piece(&mut out, str_string(" | "), Tint::Gray);
        push_piece(&mut out, str_string("DRAINING"), Tint::Alert);
    }
    assert(piece_views(out@) =~= top_line_pieces(s@));
    out
}

/// The second line of the top bar, as `jobs_line_pieces` describes.
pub fn jobs_line_of(s: &ServerStats, cpu: String) -> (r: Vec<Piece>)
    ensures
        piece_views(r@) == jobs_line_pieces(s@, cpu@),
{
    let mut out: Vec<Piece> = Vec::new();
    let ghost c = cpu@;
    push_piece(&mut out, str_string(" CPU: "), Tint::Gray);
    push_piece(&mut out, cpu, Tint::Plain);
    push_piece(&mut out, str_string(" | "), Tint::Gray);
    push_piece(&mut out, jobs_text(s), Tint::Plain);
    assert(piece_views(out@) =~= jobs_line_pieces(s@, c));
    out
}

/// The buried line of the bottom panel: the label in grey, then the count
/// of buried jobs over all tubes, bold red when there are any and green
/// when there are none.
pub open spec fn buried_line_pieces(ts: Seq<TubeStatsView>) -> Seq<PieceView> {
    let n = sum_buried(ts);
    seq![
        PieceView { text: " Buried: "@, tint: Tint::Gray },
        PieceView {
            text: decimal(n as nat) + " total"@,
            tint: if n > 0 { Tint::Alert } else { Tint::Green },
        },
    ]
}

/// The buried line of the bottom panel, as `buried_line_pieces` describes.
pub fn buried_line(tubes: &[TubeStats]) -> (r: Vec<Piece>)
    requires
        sum_buried(tube_views(tubes@)) <= u64::MAX,
    ensures
        piece_views(r@) == buried_line_pieces(tube_views(tubes@)),
{
    let n = total_buried(tubes);
    let mut text: Vec<char> = Vec::new();
    push_decimal(n as u128, &mut text);
    push_str(&mut text, " total");
    let mut out: Vec<Piece> = Vec::new();
    push_piece(&mut out, str_string(" Buried: "), Tint::Gray);
    let tint = if n > 0 {
        Tint::Alert
    } else {
        Tint::Green
    };
    push_piece(&mut out, string_from_chars(text.as_slice()), tint);
    assert(piece_views(out@) =~= buried_line_pieces(tube_views(tubes@)));
    out
}

/// Law: the shown days, hours and minutes of an uptime add back to it:
/// for every `days`, `hours < 24`, `mins < 60` and `secs < 60`, the uptime
/// `days * 86400 + hours * 3600 + mins * 60 + secs` is written with those
/// days, hours and minutes, leaving out leading zero units.
pub proof fn uptime_text_shows_its_parts(days: nat, hours: nat, mins: nat, secs: nat)
    requires
        hours < 24,
        mins < 60,
        secs < 60,
    ensures
        uptime_text(days * 86400 + hours * 3600 + mins * 60 + secs) == if days > 0 {
            decimal(days) + seq!['d', ' '] + decimal(hours) + seq!['h', ' '] + decimal(mins) + seq!['m']
        } else if hours > 0 {
            decimal(hours) + seq!['h', ' '] + decimal(mins) + seq!['m']
        } else {
            decimal(mins) + seq!['m']
        },
{
    let s = days * 86400 + hours * 3600 + mins * 60 + secs;
    let in_day = hours * 3600 + mins * 60 + secs;
    let in_hour = mins * 60 + secs;
    assert(in_day < 86400) by (nonlinear_arith)
        requires
            hours < 24,
            mins < 60,
            secs < 60,
            in_day == hours * 3600 + mins * 60 + secs,
    ;
    assert(in_hour < 3600) by (nonlinear_arith)
        requires
            mins < 60,
            secs < 60,
            in_hour == mins * 60 + secs,
    ;
    vstd::arithmetic::div_mod::lemma_fundamental_div_mod_converse(s as int, 86400, days as int, in_day as int);
    vstd::arithmetic::div_mod::lemma_fundamental_div_mod_converse(in_day as int, 3600, hours as int, in_hour as int);
    assert(s == (days * 24 + hours) * 3600 + in_hour) by (nonlinear_arith)
        requires
            s == days * 86400 + hours * 3600 + mins * 60 + secs,
            in_hour == mins * 60 + secs,
    ;
    vstd::arithmetic::div_mod::lemma_fundamental_div_mod_converse(
        s as int,
        3600,
        (days * 24 + hours) as int,
        in_hour as int,
    );
    vstd::arithmetic::div_mod::lemma_fundamental_div_mod_converse(in_hour as int, 60, mins as int, secs as int);
}

/// The bar runs of a busy row.
pub open spec fn bar_runs(widths: (usize, usize, usize, usize)) -> Seq<PieceView> {
    bar_run(widths.0 as nat, Tint::Green) + bar_run(widths.1 as nat, Tint::Yellow) + bar_run(
        widths.2 as nat,
        Tint::Blue,
    ) + bar_run(widths.3 as nat, Tint::Red)
}

/// Every piece of `s` is a non-empty run of bar cells in a job state's
/// colour.
pub open spec fn all_bar_cells(s: Seq<PieceView>) -> bool {
    forall|i: int|
        0 <= i < s.len() ==> {
            &&& #[trigger] s[i].tint != Tint::Gray
            &&& s[i].tint != Tint::Plain
            &&& s[i].tint != Tint::White
            &&& s[i].text.len() > 0
            &&& forall|j: int| 0 <= j < s[i].text.len() ==> s[i].text[j] == '█'
        }
}

proof fn lemma_bar_run_cells(w: nat, tint: Tint)
    requires
        tint != Tint::Gray && tint != Tint::Plain && tint != Tint::White,
    ensures
        all_bar_cells(bar_run(w, tint)),
        bar_run(w, tint).len() == if w > 0 { 1nat } else { 0nat },
{
}

proof fn lemma_concat_bar_cells(a: Seq<PieceView>, b: Seq<PieceView>)
    requires
        all_bar_cells(a),
        all_bar_cells(b),
    ensures
        all_bar_cells(a + b),
{
    assert forall|i: int| 0 <= i < (a + b).len() implies {
        &&& #[trigger] (a + b)[i].tint != Tint::Gray
        &&& (a + b)[i].tint != Tint::Plain
        &&& (a + b)[i].tint != Tint::White
        &&& (a + b)[i].text.len() > 0
        &&& forall|j: int| 0 <= j < (a + b)[i].text.len() ==> (a + b)[i].text[j] == '█'
    } by {
        if i < a.len() {
            assert((a + b)[i] == a[i]);
        } else {
            assert((a + b)[i] == b[i - a.len()]);
        }
    }
}

/// Law: a chart row shows the idle dots exactly when the tube has no job
/// in any state. With ready + reserved + delayed + buried = 0 the row is
/// the name (white), at most three dots and the total (both grey). With
/// any job at all the row is the name (white), then only non-empty runs of
/// bar cells, one per non-zero width, in the job states' colours, then the
/// total in the default style, then the note (grey) when there is one.
pub proof fn chart_row_idle_exactly_when_empty(
    t: TubeStatsView,
    name_width: nat,
    bar_width: nat,
    widths: (usize, usize, usize, usize),
    note: Option<Seq<char>>,
)
    ensures
        ({
            let p = chart_row_pieces(t, name_width, bar_width, widths, note);
            let jobs = t.current_jobs_ready + t.current_jobs_reserved + t.current_jobs_delayed
                + t.current_jobs_buried;
            let total = seq![' '] + pad_left(number_text(jobs as nat), 7);
            let runs = (if widths.0 > 0 { 1int } else { 0 }) + (if widths.1 > 0 { 1int } else { 0 })
                + (if widths.2 > 0 { 1int } else { 0 }) + (if widths.3 > 0 { 1int } else { 0 });
            let extra = if note is Some { 1int } else { 0 };
            &&& p[0] == PieceView { text: name_cell(t.name, name_width), tint: Tint::White }
            &&& jobs == 0 ==> p == seq![
                PieceView { text: name_cell(t.name, name_width), tint: Tint::White },
                PieceView { text: Seq::new(if bar_width < 3 { bar_width } else { 3 }, |i: int| '·'), tint: Tint::Gray },
                PieceView { text: total, tint: Tint::Gray },
            ]
            &&& jobs != 0 ==> {
                &&& p.len() == 1 + runs + 1 + extra
                &&& all_bar_cells(p.subrange(1, 1 + runs))
                &&& p[1 + runs] == PieceView { text: total, tint: Tint::Plain }
                &&& (note matches Some(n) ==> p[2 + runs] == PieceView { text: n, tint: Tint::Gray })
            }
        }),
{
    let label = PieceView { text: name_cell(t.name, name_width), tint: Tint::White };
    let p = chart_row_pieces(t, name_width, bar_width, widths, note);
    let jobs = t.current_jobs_ready + t.current_jobs_reserved + t.current_jobs_delayed
        + t.current_jobs_buried;
    assert(tube_total_of(t) == jobs);
    if jobs != 0 {
        lemma_bar_run_cells(widths.0 as nat, Tint::Green);
        lemma_bar_run_cells(widths.1 as nat, Tint::Yellow);
        lemma_bar_run_cells(widths.2 as nat, Tint::Blue);
        lemma_bar_run_cells(widths.3 as nat, Tint::Red);
        let r01 = bar_run(widths.0 as nat, Tint::Green) + bar_run(widths.1 as nat, Tint::Yellow);
        lemma_concat_bar_cells(bar_run(widths.0 as nat, Tint::Green), bar_run(widths.1 as nat, Tint::Yellow));
        lemma_concat_bar_cells(r01, bar_run(widths.2 as nat, Tint::Blue));
        lemma_concat_bar_cells(r01 + bar_run(widths.2 as nat, Tint::Blue), bar_run(widths.3 as nat, Tint::Red));
        let runs = bar_runs(widths);
        assert(runs =~= r01 + bar_run(widths.2 as nat, Tint::Blue) + bar_run(widths.3 as nat, Tint::Red));
        assert(p.subrange(1, 1 + runs.len() as int) =~= runs);
    }
}

/// The tubes have a buried job.
pub open spec fn some_buried(ts: Seq<TubeStatsView>) -> bool {
    exists|i: int| 0 <= i < ts.len() && #[trigger] ts[i].current_jobs_buried > 0
}

proof fn lemma_sum_buried_positive(ts: Seq<TubeStatsView>)
    ensures
        sum_buried(ts) > 0 <==> some_buried(ts),
    decreases ts.len(),
{
    if ts.len() > 0 {
        let rest = ts.drop_last();
        lemma_sum_buried_positive(rest);
        lemma_sum_buried_nonneg(rest);
        if some_buried(rest) {
            let i = choose|i: int| 0 <= i < rest.len() && #[trigger] rest[i].current_jobs_buried > 0;
            assert(ts[i] == rest[i]);
        }
        if some_buried(ts) {
            let i = choose|i: int| 0 <= i < ts.len() && #[trigger] ts[i].current_jobs_buried > 0;
            if i < ts.len() - 1 {
                assert(rest[i] == ts[i]);
            }
        }
        if ts.last().current_jobs_buried > 0 {
            assert(ts[ts.len() - 1].current_jobs_buried > 0);
        }
    }
}

/// Law: the buried count is bold red exactly when some tube has a buried
/// job, and green exactly when no tube has one; its text is the number of
/// buried jobs over all tubes, which is zero exactly when no tube has one.
pub proof fn buried_line_alerts_exactly_when_buried(ts: Seq<TubeStatsView>)
    ensures
        buried_line_pieces(ts).len() == 2,
        buried_line_pieces(ts)[1].tint == Tint::Alert <==> some_buried(ts),
        buried_line_pieces(ts)[1].tint == Tint::Green <==> !some_buried(ts),
        buried_line_pieces(ts)[1].text == decimal(sum_buried(ts) as nat) + " total"@,
        sum_buried(ts) == 0 <==> !some_buried(ts),
{
    lemma_sum_buried_positive(ts);
    lemma_sum_buried_nonneg(ts);
}

/// Law: the name column is as wide as the longest name: `longest_name` is
/// at least the byte length of every name, equals the byte length of one of
/// them (0 when there are no tubes), and so does not depend on the order
/// of the tubes.
pub proof fn longest_name_is_maximum(ts: Seq<TubeStatsView>)
    ensures
        forall|i: int| 0 <= i < ts.len() ==> encode_utf8(#[trigger] ts[i].name).len() <= longest_name(ts),
        ts.len() == 0 ==> longest_name(ts) == 0,
        ts.len() > 0 ==> exists|i: int|
            0 <= i < ts.len() && encode_utf8(#[trigger] ts[i].name).len() == longest_name(ts),
    decreases ts.len(),
{
    if ts.len() > 0 {
        let rest = ts.drop_last();
        longest_name_is_maximum(rest);
        assert forall|i: int| 0 <= i < ts.len() implies encode_utf8(#[trigger] ts[i].name).len()
            <= longest_name(ts) by {
            if i < ts.len() - 1 {
                assert(ts[i] == rest[i]);
            }
        }
        let last = ts.len() - 1;
        if encode_utf8(ts[last].name).len() > longest_name(rest) || rest.len() == 0 {
            assert(encode_utf8(ts[last].name).len() == longest_name(ts));
        } else {
            let i = choose|i: int|
                0 <= i < rest.len() && encode_utf8(#[trigger] rest[i].name).len() == longest_name(rest);
            assert(ts[i] == rest[i]);
        }
    }
}

} // verus!
