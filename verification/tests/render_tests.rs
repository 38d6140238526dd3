use rmenu::index::AppEntry;
use rmenu::render::{render_plan, DrawCmd, Paint};

fn entry(name: &str) -> AppEntry {
    AppEntry { name: name.to_string(), path: format!("/bin/{}", name) }
}

fn text(s: &str, x: i32, paint: Paint) -> DrawCmd {
    DrawCmd::Text { text: s.to_string(), x, y: 15, paint }
}

#[test]
fn frame_order_and_highlight() {
    let matches = vec![entry("alpha"), entry(""), entry("beta")];
    let widths = vec![50, 0, 60];
    let plan = render_plan("al", 0, &matches, &widths, 20, 80, 400);
    let expected = vec![
        DrawCmd::ClearSurface,
        text("al", 10, Paint::Fore),
        text("rmenu v1.1", 400 - 80 - 10, Paint::Fore),
        DrawCmd::Rect { x: 30, y: 0, w: 8, h: 20, paint: Paint::Caret },
        DrawCmd::Rect { x: 150, y: 0, w: 50, h: 23, paint: Paint::Fore },
        text("alpha", 150, Paint::Back),
        text("beta", 210, Paint::Fore),
    ];
    assert_eq!(plan, expected);
}

#[test]
fn empty_query_puts_the_caret_at_the_margin() {
    let plan = render_plan("", 0, &vec![], &vec![], 0, 80, 400);
    assert_eq!(
        plan,
        vec![
            DrawCmd::ClearSurface,
            text("", 10, Paint::Fore),
            text("rmenu v1.1", 310, Paint::Fore),
            DrawCmd::Rect { x: 10, y: 0, w: 8, h: 20, paint: Paint::Caret },
        ]
    );
}

#[test]
fn unselected_entries_are_plain_text() {
    let matches = vec![entry("alpha"), entry("beta")];
    let widths = vec![50, 60];
    let plan = render_plan("", 1, &matches, &widths, 0, 80, 400);
    assert_eq!(plan[4], text("alpha", 150, Paint::Fore));
    assert_eq!(plan[5], DrawCmd::Rect { x: 210, y: 0, w: 60, h: 23, paint: Paint::Fore });
    assert_eq!(plan[6], text("beta", 210, Paint::Back));
}

#[test]
fn entries_past_the_available_width_are_skipped() {
    let matches = vec![entry("wide"), entry("slim")];
    let widths = vec![300, 20];
    let plan = render_plan("", 0, &matches, &widths, 0, 10, 200);
    // "wide" would end at 450 > 200 and is skipped without advancing;
    // "slim" still fits at the untouched offset
    assert_eq!(plan.len(), 5);
    assert_eq!(plan[4], text("slim", 150, Paint::Fore));
}

#[test]
fn placeholders_do_not_advance_the_offset() {
    let matches = vec![entry(""), entry("real")];
    let widths = vec![0, 40];
    let plan = render_plan("", 1, &matches, &widths, 0, 10, 400);
    assert_eq!(plan[4], DrawCmd::Rect { x: 150, y: 0, w: 40, h: 23, paint: Paint::Fore });
    assert_eq!(plan[5], text("real", 150, Paint::Back));
}
