use uniterm_server::canvas::Canvas;
use uniterm_server::chrome_text::{fit_cell_text, take_cells};
use uniterm_server::commands::ObservatoryTab;
use uniterm_server::layout::Divider;
use uniterm_server::paint::{append_cursor, draw_dividers, draw_notification, Mark, Panel};
use uniterm_server::pointer::card_at;
use uniterm_server::rail::{
    mark_changes, order_agents, project_detail, write_file_row, AgentPlace, CardSlot, FileRow,
    GitStats, ListStyles,
};
use uniterm_server::status::{
    active_cursor_visible, active_nested_input, list_session_values, status_right_text,
    window_title, workspace_button, SessionFacts,
};
use uniterm_server::tiles::draw_tile_border;
use uniterm_server::types::{PaneId, Rect, SplitDir};

fn canvas(cols: u16, rows: u16) -> Canvas {
    Canvas {
        cols,
        rows,
        sidebar: true,
        sidebar_width: 24,
        file_sidebar: true,
        file_sidebar_width: 32,
        status: true,
        status_top: true,
    }
}

#[test]
fn the_canvas_is_divided_without_gaps() {
    let c = canvas(160, 50);
    let chrome = c.chrome_area();
    assert_eq!(c.left_width() + chrome.area.w + c.observatory_width(), 160);
    assert_eq!(chrome.status_row, Some(0));
    assert_eq!(chrome.area.y, 1);
    assert_eq!(chrome.area.h, 49);
    let small = canvas(60, 20);
    assert_eq!(small.left_width(), 0);
    let bottom = Canvas {
        status_top: false,
        ..canvas(160, 50)
    };
    assert_eq!(bottom.chrome_area().status_row, Some(49));
    assert!(c.file_manager_visible(true));
    assert!(!c.file_manager_visible(false));
    assert!(c.observatory_tabs_area().is_some());
    assert!(c.notification_rect().is_some());
}

#[test]
fn texts_are_cut_between_clusters() {
    assert_eq!(take_cells("a馈b", 2), ("a".to_string(), 1));
    assert_eq!(take_cells("a馈b", 3), ("a馈".to_string(), 3));
    assert_eq!(fit_cell_text("馈", 4), "馈  ");
}

fn facts() -> SessionFacts {
    SessionFacts {
        hostname: "host".into(),
        workspace: "work".into(),
        project: "web".into(),
        tab_name: None,
        tab_position: 1,
        pane: 7,
        terminal_title: "vim".into(),
        agent: None,
        agent_status: None,
        zoomed: true,
    }
}

#[test]
fn titles_are_rendered_from_templates() {
    let values = list_session_values(&facts());
    assert_eq!(
        window_title("{workspace}: {tab}", &values).as_deref(),
        Some("work: 2")
    );
    assert_eq!(window_title("", &values), None);
    assert_eq!(window_title("{nope}", &values), None);
    assert_eq!(status_right_text("{zoom} {pane}", &values), "ZOOM 7");
    assert!(workspace_button("work", false, 12).contains("work"));
    assert!(active_cursor_visible(false, false, false, false, Some(true)));
    assert!(!active_cursor_visible(true, false, false, false, Some(true)));
    assert!(!active_nested_input(true, false, Some(true)));
    assert!(active_nested_input(false, false, Some(true)));
}

#[test]
fn the_cursor_is_placed_by_one_based_cells() {
    let mut out = String::new();
    append_cursor(Some((4, 2)), true, &mut out);
    assert_eq!(out, "\x1b[3;5H\x1b[?25h");
    let mut hidden = String::new();
    append_cursor(None, false, &mut hidden);
    assert_eq!(hidden, "\x1b[?25l");
}

#[test]
fn a_notification_takes_three_rows() {
    let mut out = String::new();
    draw_notification(
        Rect::new(10, 2, 30, 3),
        "Codex needs input",
        "here",
        "<a>",
        "<s>",
        &mut out,
    );
    assert!(out.contains(" ! Codex needs input"));
    assert!(out.contains("\x1b[3;11H"));
    assert!(out.contains("\x1b[5;11H"));
    assert!(out.ends_with("\x1b[0m"));
}

#[test]
fn dividers_are_drawn_along_their_cells() {
    let mut out = String::new();
    let list = vec![Divider {
        dir: SplitDir::Horizontal,
        rect: Rect::new(5, 0, 1, 2),
    }];
    draw_dividers(&list, "<c>", &mut out);
    assert!(out.contains("<c>"));
    assert!(out.contains("\x1b[1;6H"));
    assert!(out.contains("\x1b[2;6H"));
}

fn styles() -> ListStyles {
    let style = |name: &str| format!("<{name}>");
    ListStyles {
        base: style("base"),
        muted: style("muted"),
        heading: style("heading"),
        border: style("border"),
        scope: style("scope"),
        live: style("live"),
        button: style("button"),
        selection: style("selection"),
        added: style("added"),
        removed: style("removed"),
        untracked: style("untracked"),
    }
}

#[test]
fn lists_show_files_and_changes() {
    let row = FileRow {
        name: "src".into(),
        depth: 1,
        is_dir: true,
        expanded: true,
        is_symlink: false,
    };
    assert!(write_file_row(&row).contains("src"));
    let mut marks: Vec<Mark> = Vec::new();
    mark_changes(
        &mut marks,
        GitStats {
            insertions: 12_345,
            deletions: 2,
            untracked: 1,
        },
        &styles(),
        0,
        30,
    );
    let panel = Panel {
        area: Rect::new(0, 0, 30, 5),
        at_left: true,
        x: 0,
        inner: 29,
        border: "<border>".into(),
        base: "<base>".into(),
    };
    let mut out = String::new();
    panel.paint(&marks, &mut out);
    assert!(out.contains("12.3k"));
    assert_eq!(
        project_detail(None, Some("note".into()), "/p".into()),
        "note"
    );
    assert_eq!(project_detail(None, None, "/p".into()), "/p");
}

#[test]
fn agents_stand_by_project_age_and_pane() {
    let place = |pane: u64, project: usize, started_at: u64| AgentPlace {
        pane: PaneId(pane),
        project,
        started_at,
    };
    let out = order_agents(&vec![
        place(1, 1, 5),
        place(2, 0, 9),
        place(4, 0, 3),
        place(3, 0, 3),
    ]);
    let ids: Vec<u64> = out.iter().map(|p| p.pane.0).collect();
    assert_eq!(ids, vec![3, 4, 2, 1]);
}

#[test]
fn tiles_and_cards_are_found_by_their_rows() {
    let slots = vec![
        CardSlot {
            item: 0,
            rect: Rect::new(0, 3, 20, 2),
        },
        CardSlot {
            item: 1,
            rect: Rect::new(0, 6, 20, 2),
        },
    ];
    assert_eq!(card_at(&slots, 4).unwrap().item, 0);
    assert_eq!(card_at(&slots, 5), None);
    assert_eq!(card_at(&slots, 6).unwrap().item, 1);
    let mut out = String::new();
    draw_tile_border(&mut out, Rect::new(0, 0, 20, 5), 0, &Some("logs".into()));
    assert!(out.contains("logs"));
    assert_ne!(ObservatoryTab::Agents, ObservatoryTab::Files);
}
