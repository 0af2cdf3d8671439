use ratatui::layout::{Constraint, Layout, Rect};
use ratatui::widgets::{Block, Borders};
use tuber_tui::layout::{chart_areas, screen_areas, screen_layout, Area};
use tuber_tui::model::TubeStats;
use tuber_tui::ui::{
    chart_columns, chart_label, connections_text, format_number, format_uptime, idle_bar,
    jobs_text, total_buried, total_display, tube_total, uptime_label,
};
use tuber_tui::model::ServerStats;
use tuber_tui::ui::{buried_line, chart_row, jobs_line_of, top_line, visible_tubes, Piece, Tint};

fn texts(ps: &[Piece]) -> Vec<(String, Tint)> {
    ps.iter().map(|p| (p.text.clone(), p.tint)).collect()
}

fn t(s: &str, tint: Tint) -> (String, Tint) {
    (s.to_string(), tint)
}

fn f64_text(n: u64) -> String {
    if n >= 1_000_000 {
        format!("{:.1}M", n as f64 / 1_000_000.0)
    } else if n >= 1_000 {
        format!("{:.1}K", n as f64 / 1_000.0)
    } else {
        n.to_string()
    }
}

#[test]
fn uptime_leaves_out_leading_zero_units() {
    assert_eq!(format_uptime(0), "0m");
    assert_eq!(format_uptime(59), "0m");
    assert_eq!(format_uptime(61), "1m");
    assert_eq!(format_uptime(3661), "1h 1m");
    assert_eq!(format_uptime(86400), "1d 0h 0m");
    assert_eq!(format_uptime(90061), "1d 1h 1m");
    assert_eq!(uptime_label(3600), "up 1h 0m");
}

#[test]
fn small_numbers_print_in_full() {
    assert_eq!(format_number(0), "0");
    assert_eq!(format_number(999), "999");
}

#[test]
fn thousands_and_millions_abbreviate() {
    assert_eq!(format_number(1000), "1.0K");
    assert_eq!(format_number(1234), "1.2K");
    assert_eq!(format_number(999_999), "1000.0K");
    assert_eq!(format_number(1_000_000), "1.0M");
    assert_eq!(format_number(2_560_000), "2.6M");
}

#[test]
fn number_matches_f64_formatting_on_thousands() {
    for n in 1000u64..1_000_000 {
        assert_eq!(format_number(n), f64_text(n), "n = {}", n);
    }
}

#[test]
fn number_matches_f64_formatting_on_millions() {
    let mut n: u64 = 1_000_000;
    while n < 200_000_000 {
        assert_eq!(format_number(n), f64_text(n), "n = {}", n);
        n += 12_345;
    }
    for n in (1_000_000u64..1_300_000).step_by(50_000) {
        assert_eq!(format_number(n), f64_text(n), "n = {}", n);
    }
    let mut x: u64 = 0x9e37_79b9_7f4a_7c15;
    for _ in 0..200_000 {
        x ^= x << 13;
        x ^= x >> 7;
        x ^= x << 17;
        let n = x >> (x % 40);
        assert_eq!(format_number(n), f64_text(n), "n = {}", n);
    }
    for n in [u64::MAX, u64::MAX - 1, 1 << 53, (1 << 53) + 1, 9_007_199_254_740_993, 18_446_744_073_709_000_000] {
        assert_eq!(format_number(n), f64_text(n), "n = {}", n);
    }
}

#[test]
fn ties_follow_the_binary_value() {
    assert_eq!(format_number(1150), "1.1K");
    assert_eq!(format_number(1250), f64_text(1250));
    assert_eq!(format_number(1_050_000), f64_text(1_050_000));
}

#[test]
fn top_bar_summaries() {
    let s = ServerStats::from_yaml("current-connections: 7\ncurrent-producers: 2\ncurrent-workers: 3\ncurrent-waiting: 1\ncurrent-jobs-ready: 5\ncurrent-jobs-reserved: 2\ncurrent-jobs-delayed: 1\ncurrent-jobs-buried: 3\n");
    assert_eq!(connections_text(&s), "conns: 7 (P:2 W:3 Wt:1)");
    assert_eq!(jobs_text(&s), "jobs: 5 ready, 2 reserved, 1 delayed, 3 buried");
}

fn tube(body: &str) -> TubeStats {
    TubeStats::from_yaml(body)
}

#[test]
fn chart_cells() {
    assert_eq!(total_display(42), "      42");
    assert_eq!(total_display(1500), "    1.5K");
    assert_eq!(total_display(12_345_678), format!(" {:>7}", "12.3M"));
    assert_eq!(idle_bar(10), "···");
    assert_eq!(idle_bar(2), "··");
    assert_eq!(idle_bar(0), "");
    assert_eq!(chart_label("mail", 6), format!("{:>width$} ", "mail", width = 6));
    assert_eq!(chart_label("a-very-long-tube-name", 5), "a-ver ");
    assert_eq!(chart_label("tübe", 3), format!("{:>width$} ", &"tübe"[..3], width = 3));
}

#[test]
fn totals_add_up() {
    let t = tube("current-jobs-ready: 1\ncurrent-jobs-reserved: 2\ncurrent-jobs-delayed: 3\ncurrent-jobs-buried: 4\n");
    assert_eq!(tube_total(&t), 10);
    let u = tube("current-jobs-buried: 6\n");
    assert_eq!(total_buried(&[t, u]), 10);
    assert_eq!(total_buried(&[]), 0);
}

#[test]
fn chart_columns_follow_the_names() {
    let ts = vec![tube("name: ab\n"), tube("name: abcde\n")];
    assert_eq!(chart_columns(80, &ts), (5, 63));
    let long = vec![tube("name: abcdefghijklmnopqrstuvwxyz\n")];
    assert_eq!(chart_columns(80, &long), (20, 48));
    assert_eq!(chart_columns(10, &long), (20, 0));
    assert_eq!(chart_columns(80, &[]), (0, 68));
}

#[test]
fn screen_bands_lie_within_the_screen() {
    for (w, h) in [(80u16, 24u16), (120, 40), (20, 10), (10, 3), (5, 0), (80, 65535)] {
        let area = Area { x: 3, y: 0, width: w, height: h };
        let (top, chart, bottom) = screen_areas(area);
        for b in [top, chart, bottom] {
            assert_eq!((b.x, b.width), (3, w));
            assert!(b.y as u32 + b.height as u32 <= h as u32);
        }
    }
}

#[test]
fn screen_bands_on_a_roomy_screen() {
    let (top, chart, bottom) = screen_areas(Area { x: 0, y: 0, width: 80, height: 24 });
    assert_eq!(top, Area { x: 0, y: 0, width: 80, height: 4 });
    assert_eq!(chart, Area { x: 0, y: 4, width: 80, height: 15 });
    assert_eq!(bottom, Area { x: 0, y: 19, width: 80, height: 5 });
    for y in [0u16, 1, 7, 300] {
        for h in (14u16..200).chain([1000, 65000 - 300]) {
            let area = Area { x: 2, y, width: 33, height: h };
            let (top, chart, bottom) = screen_areas(area);
            assert_eq!(top, Area { x: 2, y, width: 33, height: 4 }, "h = {}", h);
            assert_eq!(chart, Area { x: 2, y: y + 4, width: 33, height: h - 9 }, "h = {}", h);
            assert_eq!(bottom, Area { x: 2, y: y + h - 5, width: 33, height: 5 }, "h = {}", h);
        }
    }
}

#[test]
fn screen_layout_places_the_legend_below_the_rows() {
    let s = screen_layout(Area { x: 0, y: 0, width: 80, height: 24 });
    assert_eq!(s.chart_parts.rows, Area { x: 0, y: 5, width: 80, height: 12 });
    assert_eq!(s.chart_parts.legend, Area { x: 0, y: 17, width: 80, height: 1 });
    let tiny = screen_layout(Area { x: 0, y: 65530, width: 10, height: 5 });
    assert!(tiny.chart_parts.legend.y >= 65530);
}

#[test]
fn visible_tubes_are_the_ones_that_fit() {
    assert_eq!(visible_tubes(3, 10), 3);
    assert_eq!(visible_tubes(30, 10), 10);
    assert_eq!(visible_tubes(5, 0), 0);
}

#[test]
fn chart_rows_show_idle_or_bars() {
    let idle = tube("name: idle
");
    assert_eq!(
        texts(&chart_row(&idle, 4, 10, (10, 0, 0, 0), None)),
        vec![t("idle ", Tint::White), t("···", Tint::Gray), t("       0", Tint::Gray)]
    );
    let busy = tube("name: busy
current-jobs-ready: 2
current-jobs-buried: 1
");
    assert_eq!(
        texts(&chart_row(&busy, 6, 5, (3, 0, 0, 2), Some(" (1.5ms)".to_string()))),
        vec![
            t("  busy ", Tint::White),
            t("███", Tint::Green),
            t("██", Tint::Red),
            t("       3", Tint::Plain),
            t(" (1.5ms)", Tint::Gray),
        ]
    );
}

#[test]
fn top_bar_lines() {
    let s = ServerStats::from_yaml("version: 1.2
uptime: 3600
current-connections: 1
draining: true
current-jobs-ready: 4
");
    assert_eq!(
        texts(&top_line(&s)),
        vec![
            t(" v", Tint::Gray),
            t("1.2", Tint::Plain),
            t(" | ", Tint::Gray),
            t("up 1h 0m", Tint::Plain),
            t(" | ", Tint::Gray),
            t("conns: 1 (P:0 W:0 Wt:0)", Tint::Plain),
            t(" | ", Tint::Gray),
            t("DRAINING", Tint::Alert),
        ]
    );
    assert_eq!(
        texts(&jobs_line_of(&s, "u=0.10 s=0.20".to_string())),
        vec![
            t(" CPU: ", Tint::Gray),
            t("u=0.10 s=0.20", Tint::Plain),
            t(" | ", Tint::Gray),
            t("jobs: 4 ready, 0 reserved, 0 delayed, 0 buried", Tint::Plain),
        ]
    );
    let calm = ServerStats::from_yaml("");
    assert_eq!(top_line(&calm).len(), 6);
}

#[test]
fn buried_line_colours_the_count() {
    assert_eq!(
        texts(&buried_line(&[tube("current-jobs-buried: 2
"), tube("current-jobs-buried: 5
")])),
        vec![t(" Buried: ", Tint::Gray), t("7 total", Tint::Alert)]
    );
    assert_eq!(texts(&buried_line(&[])), vec![t(" Buried: ", Tint::Gray), t("0 total", Tint::Green)]);
}

#[test]
fn chart_areas_leave_a_legend_row() {
    let band = Area { x: 0, y: 4, width: 80, height: 15 };
    let c = chart_areas(band);
    let inner = Block::default().borders(Borders::BOTTOM).title(" Tubes ").inner(Rect::new(0, 4, 80, 15));
    assert_eq!((c.inner.x, c.inner.y, c.inner.width, c.inner.height), (inner.x, inner.y, inner.width, inner.height));
    assert_eq!(c.inner, Area { x: 0, y: 5, width: 80, height: 13 });
    assert_eq!(c.rows, Area { x: 0, y: 5, width: 80, height: 12 });
    assert_eq!(c.legend, Area { x: 0, y: 17, width: 80, height: 1 });
}
