use conductor::columns::ColumnWidths;
use conductor::state::MusicianStatus;
use conductor::tui::{
    get_layout_config, inner_content_rect, padded_rect, Rect, CELL_PADDING_MIN, INSIGHTS_WIDTH,
    INSIGHTS_WIDTH_MAX, MAX_OUTPUT_LINES, MAX_OUTPUT_LINES_MAX, MAX_OUTPUT_LINES_MIN,
};

#[test]
fn narrow_terminal_hides_insights_panel() {
    let cfg = get_layout_config(60, 20);
    assert!(!cfg.show_insights_panel);
    assert_eq!(cfg.insights_panel_width, 0);
    assert_eq!(cfg.cell_padding, CELL_PADDING_MIN);
    assert_eq!(cfg.musician_columns, 1);
}

#[test]
fn normal_terminal_shows_insights_panel() {
    let cfg = get_layout_config(100, 30);
    assert!(cfg.show_insights_panel);
    assert_eq!(cfg.musician_columns, 3);
    assert_eq!(cfg.max_output_lines, MAX_OUTPUT_LINES);
}

#[test]
fn wide_terminal_sets_4_musician_columns() {
    let cfg = get_layout_config(200, 50);
    assert!(cfg.show_insights_panel);
    assert_eq!(cfg.musician_columns, 4);
    assert_eq!(cfg.insights_panel_width, INSIGHTS_WIDTH_MAX);
    assert_eq!(cfg.max_output_lines, MAX_OUTPUT_LINES_MAX);
}

#[test]
fn short_terminal_uses_min_output_lines() {
    let cfg = get_layout_config(100, 20);
    assert_eq!(cfg.max_output_lines, MAX_OUTPUT_LINES_MIN);
}

#[test]
fn tall_terminal_uses_max_output_lines() {
    let cfg = get_layout_config(100, 50);
    assert_eq!(cfg.max_output_lines, MAX_OUTPUT_LINES_MAX);
}

#[test]
fn insights_width_clamped_for_medium_terminal() {
    // width=100, 25% = 25 which is between MIN(24) and DEFAULT(36) → 25
    let cfg = get_layout_config(100, 30);
    assert_eq!(cfg.insights_panel_width, 25);
}

#[test]
fn insights_width_uses_default_when_wide_enough() {
    // width=148, 25% = 37 > DEFAULT(36) → clamped to 36
    let cfg = get_layout_config(148, 30);
    assert_eq!(cfg.insights_panel_width, INSIGHTS_WIDTH);
}

#[test]
fn content_padding_scales_with_terminal_width() {
    let narrow = get_layout_config(60, 30);
    let normal = get_layout_config(120, 30);
    let wide = get_layout_config(200, 30);
    assert_eq!(narrow.content_padding, 0);
    assert_eq!(normal.content_padding, 1);
    assert_eq!(wide.content_padding, 2);
}

#[test]
fn section_gap_is_always_one() {
    assert_eq!(get_layout_config(60, 20).section_gap, 1);
    assert_eq!(get_layout_config(120, 30).section_gap, 1);
    assert_eq!(get_layout_config(200, 50).section_gap, 1);
}

#[test]
fn padded_rect_shrinks_by_padding() {
    let area = Rect { x: 0, y: 0, width: 40, height: 20 };
    let result = padded_rect(area, 2, 1);
    assert_eq!(result.x, 2);
    assert_eq!(result.y, 1);
    assert_eq!(result.width, 36);  // 40 - 2*2
    assert_eq!(result.height, 18); // 20 - 2*1
}

#[test]
fn padded_rect_zero_padding_is_identity() {
    let area = Rect { x: 5, y: 3, width: 80, height: 24 };
    assert_eq!(padded_rect(area, 0, 0), area);
}

#[test]
fn padded_rect_saturates_at_zero_not_underflow() {
    let area = Rect { x: 0, y: 0, width: 2, height: 2 };
    let result = padded_rect(area, 5, 5);
    // width/height should not underflow
    assert_eq!(result.width, 0);
    assert_eq!(result.height, 0);
}

// ─── inner_content_rect tests ────────────────────────────────────────────

#[test]
fn inner_content_rect_applies_content_padding_horizontally() {
    let area = Rect { x: 0, y: 0, width: 80, height: 24 };
    let config = get_layout_config(200, 30); // wide → content_padding = 2
    let result = inner_content_rect(area, &config);
    assert_eq!(result.x, 2);
    assert_eq!(result.y, 0);       // no vertical change
    assert_eq!(result.width, 76);  // 80 - 2*2
    assert_eq!(result.height, 24); // unchanged
}

#[test]
fn inner_content_rect_zero_padding_on_narrow() {
    let area = Rect { x: 0, y: 0, width: 60, height: 20 };
    let config = get_layout_config(60, 20); // narrow → content_padding = 0
    assert_eq!(inner_content_rect(area, &config), area);
}

fn plan(statuses: &[conductor::state::MusicianStatus], total: u16) -> conductor::columns::ColumnWidths {
    conductor::columns::plan_column_widths(statuses, total, conductor::tui::MIN_COLUMN_WIDTH)
}

#[test]
fn single_musician_gets_full_width() {
    match plan(&[MusicianStatus::Running], 100) {
        conductor::columns::ColumnWidths::Done(w) => assert_eq!(w, vec![100]),
        _ => panic!("expected final widths"),
    }
}

#[test]
fn widths_sum_to_total() {
    let statuses: Vec<MusicianStatus> =
        (0..8).map(|i| if i % 2 == 0 { MusicianStatus::Running } else { MusicianStatus::Idle }).collect();
    match plan(&statuses, 100) {
        conductor::columns::ColumnWidths::Done(w) => {
            assert_eq!(w.iter().sum::<u16>(), 100);
        }
        conductor::columns::ColumnWidths::Overflow { mut widths, used, last_active } => {
            assert_eq!(widths.iter().map(|w| *w as u32).sum::<u32>(), used);
            assert!(used > 100);
            assert_eq!(last_active, 6);
            // the proportional scaling the interface applies
            let scale = 100.0f32 / used as f32;
            let mut total: u16 = 0;
            for w in widths.iter_mut() {
                *w = ((*w as f32 * scale).floor() as u16).max(1);
                total += *w;
            }
            widths[last_active] += 100 - total;
            assert_eq!(widths.iter().sum::<u16>(), 100);
        }
    }
}

#[test]
fn column_plans_cover_each_case() {
    // too narrow: one width for all
    match plan(&[MusicianStatus::Idle; 4], 10) {
        ColumnWidths::Done(w) => assert_eq!(w, vec![2, 2, 2, 2]),
        _ => panic!(),
    }
    // even split, remainder to the last column
    match plan(&[MusicianStatus::Idle; 3], 100) {
        ColumnWidths::Done(w) => assert_eq!(w, vec![33, 33, 34]),
        _ => panic!(),
    }
    // tight: two active share what four collapsed strips leave
    let s = [
        MusicianStatus::Running,
        MusicianStatus::Idle,
        MusicianStatus::Waiting,
        MusicianStatus::Completed,
        MusicianStatus::Idle,
        MusicianStatus::Failed,
    ];
    match plan(&s, 120) {
        ColumnWidths::Done(w) => assert_eq!(w, vec![52, 4, 52, 4, 4, 4]),
        _ => panic!(),
    }
    // overflow: minimum widths do not fit
    match plan(&s, 60) {
        ColumnWidths::Overflow { widths, used, last_active } => {
            assert_eq!(widths, vec![28, 4, 28, 4, 4, 4]);
            assert_eq!(used, 72);
            assert_eq!(last_active, 2);
        }
        _ => panic!(),
    }
}
