//! The render coordinator: after each processed event it turns the
//! current state into an ordered sequence of draw primitives for the
//! display edge to execute. Text widths in pixels are measured by the
//! display; they are handed in here, one per match entry, so the plan
//! itself is pure.

use vstd::prelude::*;

use crate::index::{evs, AppEntry, EntryV};

verus! {

/// Which color a primitive is drawn with; the display edge resolves
/// each role against the configuration.
#[derive(Clone, Copy, Debug, PartialEq, Eq, Structural)]
pub enum Paint {
    /// The configured foreground: query text, title, plain entries, and
    /// the highlight block behind the selected entry.
    Fore,
    /// The configured background: the selected entry's inverted text.
    Back,
    /// The fixed white of the caret rectangle.
    Caret,
}

/// One draw primitive, in issue order.
#[derive(Clone, Debug, PartialEq, Eq)]
pub enum DrawCmd {
    /// Clear the drawing surface.
    ClearSurface,
    /// Draw `text` with its baseline at `(x, y)`.
    Text { text: String, x: i32, y: i32, paint: Paint },
    /// Fill a rectangle at `(x, y)` of size `w` by `h`.
    Rect { x: i32, y: i32, w: u32, h: u32, paint: Paint },
}

/// The mathematical image of a draw primitive.
#[verifier::ext_equal]
pub ghost enum CmdV {
    ClearSurface,
    Text { text: Seq<char>, x: int, y: int, paint: Paint },
    Rect { x: int, y: int, w: int, h: int, paint: Paint },
}

impl View for DrawCmd {
    type V = CmdV;

    open spec fn view(&self) -> CmdV {
        match *self {
            DrawCmd::ClearSurface => CmdV::ClearSurface,
            DrawCmd::Text { text, x, y, paint } => CmdV::Text {
                text: text@,
                x: x as int,
                y: y as int,
                paint,
            },
            DrawCmd::Rect { x, y, w, h, paint } => CmdV::Rect {
                x: x as int,
                y: y as int,
                w: w as int,
                h: h as int,
                paint,
            },
        }
    }
}

/// The images of a command sequence.
pub open spec fn cvs(s: Seq<DrawCmd>) -> Seq<CmdV> {
    s.map_values(|c: DrawCmd| c@)
}

/// The static title label drawn right-aligned.
pub open spec fn title_label() -> Seq<char> {
    "rmenu v1.1"@
}

/// The commands for the match entries from position `i` on, with the
/// horizontal cursor at `offset`. A placeholder is skipped; so is any
/// entry that would end past the available width; a drawn entry advances
/// the cursor by its width plus a fixed gap, and the selected one gets a
/// filled block with inverted text.
pub open spec fn entry_cmds(
    ms: Seq<EntryV>,
    ws: Seq<int>,
    i: int,
    offset: int,
    selected: int,
    width: int,
) -> Seq<CmdV>
    decreases ms.len() - i when 0 <= i <= ms.len()
{
    if i < 0 || i >= ms.len() {
        Seq::empty()
    } else if ms[i].name.len() == 0 || offset + ws[i] > width {
        entry_cmds(ms, ws, i + 1, offset, selected, width)
    } else {
        let here = if i == selected {
            seq![
                CmdV::Rect { x: offset, y: 0, w: ws[i], h: 23, paint: Paint::Fore },
                CmdV::Text { text: ms[i].name, x: offset, y: 15, paint: Paint::Back },
            ]
        } else {
            seq![CmdV::Text { text: ms[i].name, x: offset, y: 15, paint: Paint::Fore }]
        };
        here + entry_cmds(ms, ws, i + 1, offset + ws[i] + 10, selected, width)
    }
}

/// The whole frame: clear, the query at the left margin, the title
/// right-aligned by its measured width, the caret after the query text
/// (or at the margin when the query is empty), then the match entries
/// left to right from a fixed offset.
pub open spec fn render_plan_spec(
    query: Seq<char>,
    selected: int,
    ms: Seq<EntryV>,
    ws: Seq<int>,
    query_w: int,
    title_w: int,
    width: int,
) -> Seq<CmdV> {
    seq![
        CmdV::ClearSurface,
        CmdV::Text { text: query, x: 10, y: 15, paint: Paint::Fore },
        CmdV::Text { text: title_label(), x: width - title_w - 10, y: 15, paint: Paint::Fore },
        CmdV::Rect {
            x: if query.len() > 0 {
                query_w + 10
            } else {
                10
            },
            y: 0,
            w: 8,
            h: 20,
            paint: Paint::Caret,
        },
    ] + entry_cmds(ms, ws, 0, 150, selected, width)
}

/// Computes the frame's draw commands. `widths[i]` is the measured pixel
/// width of `matches[i]`'s name, `query_width` and `title_width` those of
/// the query text and the title; the bounds mirror what the display can
/// measure and keep every horizontal offset inside `i32`.
pub fn render_plan(
    query: &str,
    selected: usize,
    matches: &Vec<AppEntry>,
    widths: &Vec<i32>,
    query_width: i32,
    title_width: i32,
    screen_width: i32,
) -> (r: Vec<DrawCmd>)
    requires
        widths@.len() == matches@.len(),
        forall|i: int| 0 <= i < widths@.len() ==> 0 <= #[trigger] widths@[i] <= 65535,
        0 <= query_width <= 65535,
        0 <= title_width <= 65535,
        0 <= screen_width <= 1000000000,
    ensures
        cvs(r@) == render_plan_spec(
            query@,
            selected as int,
            evs(matches@),
            widths@.map_values(|w: i32| w as int),
            query_width as int,
            title_width as int,
            screen_width as int,
        ),
{
    let ghost ms = evs(matches@);
    let ghost ws = widths@.map_values(|w: i32| w as int);
    let ghost plan = render_plan_spec(
        query@,
        selected as int,
        ms,
        ws,
        query_width as int,
        title_width as int,
        screen_width as int,
    );
    let mut cmds: Vec<DrawCmd> = Vec::new();
    cmds.push(DrawCmd::ClearSurface);
    cmds.push(DrawCmd::Text { text: query.to_owned(), x: 10, y: 15, paint: Paint::Fore });
    cmds.push(
        DrawCmd::Text {
            text: "rmenu v1.1".to_owned(),
            x: screen_width - title_width - 10,
            y: 15,
            paint: Paint::Fore,
        },
    );
    let caret_x: i32 = if !query.is_empty() {
        query_width + 10
    } else {
        10
    };
    cmds.push(DrawCmd::Rect { x: caret_x, y: 0, w: 8, h: 20, paint: Paint::Caret });
    proof {
        assert(cvs(cmds@) =~= plan.take(4));
        assert(plan =~= plan.take(4) + entry_cmds(ms, ws, 0, 150, selected as int, screen_width as int));
    }
    let mut offset: i32 = 150;
    let mut i: usize = 0;
    while i < matches.len()
        invariant
            ms == evs(matches@),
            ws == widths@.map_values(|w: i32| w as int),
            widths@.len() == matches@.len(),
            forall|k: int| 0 <= k < widths@.len() ==> 0 <= #[trigger] widths@[k] <= 65535,
            0 <= screen_width <= 1000000000,
            i <= matches@.len(),
            150 <= offset <= screen_width + 65545,
            plan == cvs(cmds@) + entry_cmds(
                ms,
                ws,
                i as int,
                offset as int,
                selected as int,
                screen_width as int,
            ),
        decreases matches@.len() - i,
    {
        let ghost pre = cvs(cmds@);
        proof {
            assert(ms[i as int] == matches@[i as int]@);
            assert(ws[i as int] == widths@[i as int] as int);
        }
        let name_empty = matches[i].name.as_str().is_empty();
        if !name_empty && offset + widths[i] <= screen_width {
            let w = widths[i];
            if i == selected {
                cmds.push(
                    DrawCmd::Rect { x: offset, y: 0, w: w as u32, h: 23, paint: Paint::Fore },
                );
                cmds.push(
                    DrawCmd::Text {
                        text: matches[i].name.clone(),
                        x: offset,
                        y: 15,
                        paint: Paint::Back,
                    },
                );
                proof {
                    assert(cvs(cmds@) =~= pre + seq![
                        CmdV::Rect {
                            x: offset as int,
                            y: 0,
                            w: ws[i as int],
                            h: 23,
                            paint: Paint::Fore,
                        },
                        CmdV::Text {
                            text: ms[i as int].name,
                            x: offset as int,
                            y: 15,
                            paint: Paint::Back,
                        },
                    ]);
                }
            } else {
                cmds.push(
                    DrawCmd::Text {
                        text: matches[i].name.clone(),
                        x: offset,
                        y: 15,
                        paint: Paint::Fore,
                    },
                );
                proof {
                    assert(cvs(cmds@) =~= pre + seq![
                        CmdV::Text {
                            text: ms[i as int].name,
                            x: offset as int,
                            y: 15,
                            paint: Paint::Fore,
                        },
                    ]);
                }
            }
            offset = offset + w + 10;
        }
        i = i + 1;
        proof {
            assert(plan =~= cvs(cmds@) + entry_cmds(
                ms,
                ws,
                i as int,
                offset as int,
                selected as int,
                screen_width as int,
            ));
        }
    }
    proof {
        assert(entry_cmds(ms, ws, i as int, offset as int, selected as int, screen_width as int)
            =~= Seq::<CmdV>::empty());
        assert(cvs(cmds@) =~= plan);
    }
    cmds
}

} // verus!
