use modsync::entry::ModEntry;
use modsync::report::SyncReport;
use modsync::resolve::Outcome;
use modsync::ui::{Column, TransactionLogApp, UiState, Visible};

fn entry(filename: &str) -> ModEntry {
    ModEntry {
        filename: filename.to_string(),
        url: "http://x".to_string(),
        sha256: None,
        category: "REQUIRED".to_string(),
    }
}

fn report(downloaded: usize, unchanged: usize, removed: usize, failed: usize) -> SyncReport {
    let mut r = SyncReport::new();
    for i in 0..downloaded {
        r.record(entry(&format!("d{}", i)), Outcome::Downloaded);
    }
    for i in 0..unchanged {
        r.record(entry(&format!("u{}", i)), Outcome::Unchanged);
    }
    for i in 0..removed {
        r.record(entry(&format!("r{}", i)), Outcome::Removed);
    }
    for i in 0..failed {
        r.record(entry(&format!("f{}", i)), Outcome::Failed("why".to_string()));
    }
    r
}

fn next(seed: &mut u64) -> u64 {
    *seed = seed.wrapping_mul(6364136223846793005).wrapping_add(1442695040888963407);
    *seed >> 33
}

/// The same name, worked out part by part with the string functions of the
/// standard library.
fn expected_name(filename: &str) -> String {
    let mut result = String::new();
    for (i, part) in filename.split('-').enumerate() {
        if let Some(first) = part.chars().next() {
            if first.is_digit(10) {
                break;
            }
        }
        if i > 0 {
            result.push('-');
        }
        result.push_str(part);
    }
    result
}

#[test]
fn ui_state_starts_empty() {
    let state = UiState::new();
    assert!(state.log.is_empty());
    assert!(!state.show_full_ui);
    assert!(!state.finished);
}

#[test]
fn a_new_transaction_log_shows_the_top_of_every_column() {
    let r = report(3, 2, 1, 0);
    let app = TransactionLogApp::new(r.clone());
    assert_eq!(app.report(), &r);
    assert!(app.human_readable());
    for column in [Column::Downloaded, Column::Unchanged, Column::Removed, Column::Failed] {
        assert_eq!(app.scroll_offset(column), 0);
    }
    assert_eq!(app.column_len(Column::Downloaded), 3);
    assert_eq!(app.column_len(Column::Unchanged), 2);
    assert_eq!(app.column_len(Column::Removed), 1);
    assert_eq!(app.column_len(Column::Failed), 0);
}

#[test]
fn columns_are_numbered_from_the_left() {
    assert_eq!(Column::Downloaded.index(), 0);
    assert_eq!(Column::Unchanged.index(), 1);
    assert_eq!(Column::Removed.index(), 2);
    assert_eq!(Column::Failed.index(), 3);
    for i in 0..4 {
        assert_eq!(Column::from_index(i).map(|c| c.index()), Some(i));
    }
    assert_eq!(Column::from_index(4), None);
    assert_eq!(Column::from_index(usize::MAX), None);
}

#[test]
fn the_readable_name_ends_before_the_version() {
    let app = TransactionLogApp::new(report(0, 0, 0, 0));
    assert_eq!(app.display_filename("sodium-fabric-0.5.8+mc1.20.4.jar"), "sodium-fabric");
    assert_eq!(app.display_filename("lithium-1.jar"), "lithium");
    assert_eq!(app.display_filename("plain.jar"), "plain.jar");
    assert_eq!(app.display_filename("a-b-c"), "a-b-c");
    assert_eq!(app.display_filename("1abc-def"), "");
    assert_eq!(app.display_filename(""), "");
    assert_eq!(app.display_filename("-"), "-");
    assert_eq!(app.display_filename("a--1"), "a-");
    assert_eq!(app.display_filename("-1x"), "");
    assert_eq!(app.display_filename("a-b1-2"), "a-b1");
    assert_eq!(app.display_filename("a1-b"), "a1-b");
    assert_eq!(app.display_filename("mod-v2-3"), "mod-v2");
    assert_eq!(app.display_filename("mod-٣"), "mod-٣");
    assert_eq!(app.display_filename("é-9"), "é");
}

#[test]
fn the_readable_name_agrees_with_the_standard_string_functions() {
    let app = TransactionLogApp::new(report(0, 0, 0, 0));
    let alphabet = ['-', '-', 'a', 'b', '0', '9', '.', 'é'];
    let mut seed: u64 = 31;
    let mut round = 0;
    while round < 20000 {
        let len = next(&mut seed) % 9;
        let mut name = String::new();
        for _ in 0..len {
            name.push(alphabet[(next(&mut seed) % 8) as usize]);
        }
        assert_eq!(app.display_filename(&name), expected_name(&name), "{:?}", name);
        round += 1;
    }
}

#[test]
fn names_are_shown_as_they_are_when_readable_names_are_off() {
    let mut app = TransactionLogApp::new(report(1, 0, 0, 0));
    app.toggle_human_readable();
    assert!(!app.human_readable());
    assert_eq!(app.display_filename("sodium-fabric-0.5.8.jar"), "sodium-fabric-0.5.8.jar");
    assert_eq!(app.display_filename("1abc"), "1abc");
    app.toggle_human_readable();
    assert!(app.human_readable());
    assert_eq!(app.display_filename("sodium-fabric-0.5.8.jar"), "sodium-fabric");
    assert_eq!(app.column_len(Column::Downloaded), 1);
}

#[test]
fn a_column_that_fits_shows_all_its_rows() {
    let mut app = TransactionLogApp::new(report(3, 0, 0, 0));
    assert_eq!(
        app.visible(Column::Downloaded, 5),
        Visible { start: 0, end: 3, hide_top: false, hide_bottom: false }
    );
    assert_eq!(
        app.visible(Column::Downloaded, 3),
        Visible { start: 0, end: 3, hide_top: false, hide_bottom: false }
    );
    assert_eq!(
        app.visible(Column::Failed, 5),
        Visible { start: 0, end: 0, hide_top: false, hide_bottom: false }
    );
    assert_eq!(
        app.visible(Column::Failed, 0),
        Visible { start: 0, end: 0, hide_top: false, hide_bottom: false }
    );
}

#[test]
fn a_long_column_gives_up_rows_for_the_marks_of_hidden_items() {
    let mut app = TransactionLogApp::new(report(10, 0, 0, 0));
    assert_eq!(
        app.visible(Column::Downloaded, 4),
        Visible { start: 0, end: 3, hide_top: false, hide_bottom: true }
    );
    app.scroll(Column::Downloaded, true, 4);
    assert_eq!(app.scroll_offset(Column::Downloaded), 1);
    assert_eq!(
        app.visible(Column::Downloaded, 4),
        Visible { start: 2, end: 4, hide_top: true, hide_bottom: true }
    );
    for _ in 0..20 {
        app.scroll(Column::Downloaded, true, 4);
    }
    assert_eq!(app.scroll_offset(Column::Downloaded), 6);
    assert_eq!(
        app.visible(Column::Downloaded, 4),
        Visible { start: 7, end: 10, hide_top: true, hide_bottom: false }
    );
    for _ in 0..20 {
        app.scroll(Column::Downloaded, false, 4);
    }
    assert_eq!(app.scroll_offset(Column::Downloaded), 0);
    // One row only: the mark above takes it, and none is left for the other.
    app.scroll(Column::Downloaded, true, 1);
    assert_eq!(
        app.visible(Column::Downloaded, 1),
        Visible { start: 2, end: 2, hide_top: true, hide_bottom: true }
    );
    assert_eq!(
        app.visible(Column::Downloaded, 0),
        Visible { start: 1, end: 1, hide_top: true, hide_bottom: true }
    );
}

#[test]
fn a_column_scrolls_back_when_more_rows_fit() {
    let mut app = TransactionLogApp::new(report(0, 10, 0, 0));
    for _ in 0..6 {
        app.scroll(Column::Unchanged, true, 4);
    }
    assert_eq!(app.scroll_offset(Column::Unchanged), 6);
    // The window grows to eight rows: the offset falls back to two.
    assert_eq!(
        app.visible(Column::Unchanged, 8),
        Visible { start: 3, end: 10, hide_top: true, hide_bottom: false }
    );
    assert_eq!(app.scroll_offset(Column::Unchanged), 2);
    // Everything fits: back to the top.
    assert_eq!(
        app.visible(Column::Unchanged, 12),
        Visible { start: 0, end: 10, hide_top: false, hide_bottom: false }
    );
    assert_eq!(app.scroll_offset(Column::Unchanged), 0);
    assert_eq!(
        app.visible(Column::Unchanged, usize::MAX),
        Visible { start: 0, end: 10, hide_top: false, hide_bottom: false }
    );
    // The other columns were left alone.
    assert_eq!(app.scroll_offset(Column::Downloaded), 0);
    assert_eq!(app.scroll_offset(Column::Removed), 0);
    assert_eq!(app.scroll_offset(Column::Failed), 0);
}

#[test]
fn a_column_that_fits_does_not_scroll() {
    let mut app = TransactionLogApp::new(report(0, 0, 3, 0));
    app.scroll(Column::Removed, true, 3);
    assert_eq!(app.scroll_offset(Column::Removed), 0);
    app.scroll(Column::Removed, true, 5);
    assert_eq!(app.scroll_offset(Column::Removed), 0);
    app.scroll(Column::Removed, false, 2);
    assert_eq!(app.scroll_offset(Column::Removed), 0);
    app.scroll(Column::Removed, true, 2);
    assert_eq!(app.scroll_offset(Column::Removed), 1);
    app.scroll(Column::Removed, true, 2);
    assert_eq!(app.scroll_offset(Column::Removed), 1);
    // Scrolled while fewer rows fit, the column is not moved by a step when all fit.
    app.scroll(Column::Removed, false, 3);
    assert_eq!(app.scroll_offset(Column::Removed), 1);
}

#[test]
fn the_rows_drawn_follow_the_arithmetic_of_the_columns() {
    let mut seed: u64 = 17;
    let mut round = 0;
    while round < 5000 {
        let total = (next(&mut seed) % 12) as usize;
        let fit = (next(&mut seed) % 14) as usize;
        let mut app = TransactionLogApp::new(report(0, 0, 0, total));
        let steps = next(&mut seed) % 12;
        let scroll_fit = (next(&mut seed) % 6) as usize;
        let mut offset: usize = 0;
        for _ in 0..steps {
            let down = next(&mut seed) % 3 != 0;
            app.scroll(Column::Failed, down, scroll_fit);
            if total > scroll_fit {
                offset = if down { (offset + 1).min(total - scroll_fit) } else { offset.saturating_sub(1) };
            }
            assert_eq!(app.scroll_offset(Column::Failed), offset);
        }
        if offset + fit > total {
            offset = if total > fit { total - fit } else { 0 };
        }
        let mut start = offset;
        let mut end = (offset + fit).min(total);
        let hide_top = start > 0;
        let hide_bottom = end < total;
        if hide_top && end > start {
            start += 1;
        }
        if hide_bottom && end > start {
            end -= 1;
        }
        let rows = app.visible(Column::Failed, fit);
        assert_eq!(rows, Visible { start, end, hide_top, hide_bottom });
        assert_eq!(app.scroll_offset(Column::Failed), offset);
        assert!(rows.start <= rows.end && rows.end <= total);
        round += 1;
    }
}
