use uniterm_server::canvas::{file_sidebar_rows_for, Canvas};
use uniterm_server::commands::{Command, ObservatoryTab, ViewState};
use uniterm_server::detection::AgentStatus;
use uniterm_server::hierarchy::{Project, Win, Workspace};
use uniterm_server::layout::{Divider, LayoutNode};
use uniterm_server::menu::{
    ContextAction, ContextInput, ContextTarget, FileStep, MenuKeys, MenuMouse, MenuSpot, MenuStep,
};
use uniterm_server::mouse::{
    forward_mouse_to_app, moved_divider, plain_click_cell, MouseKind, MouseMode, MouseSel,
    PaneMouse,
};
use uniterm_server::observatory::DevServerEntry;
use uniterm_server::overview::OverviewChange;
use uniterm_server::paint::Mark;
use uniterm_server::pointer::{MouseStep, PaneStep, PointerView};
use uniterm_server::rail::{
    mark_agents, mark_file_footer, mark_file_rows, mark_projects, mark_servers, ActionSlot,
    AgentCard, CardSlot, FileRow, ListStyles, ProjectCard, ProjectStyles,
};
use uniterm_server::scope::SidebarScope;
use uniterm_server::status::{
    draw_status_pieces, status_pieces, ObservatorySlot, StatusContent, StatusPiece, StatusStyles,
    TabBarLayout,
};
use uniterm_server::tiles::tile_layout;
use uniterm_server::types::{PaneId, ProjectId, Rect, SplitDir, Token};

fn canvas() -> Canvas {
    Canvas {
        cols: 160,
        rows: 40,
        sidebar: true,
        sidebar_width: 24,
        file_sidebar: true,
        file_sidebar_width: 32,
        status: true,
        status_top: false,
    }
}

fn win(project: u64, layout: LayoutNode, name: Option<&str>) -> Win {
    let active = layout.first_pane();
    Win {
        project: ProjectId(project),
        layout,
        active,
        zoomed: None,
        name: name.map(str::to_string),
    }
}

fn leaf(pane: u64) -> LayoutNode {
    LayoutNode::Leaf(PaneId(pane))
}

fn split(first: u64, second: u64) -> LayoutNode {
    LayoutNode::Split {
        dir: SplitDir::Horizontal,
        ratio: 5000,
        first: Box::new(leaf(first)),
        second: Box::new(leaf(second)),
    }
}

fn project(id: u64, name: &str) -> Project {
    Project {
        id: ProjectId(id),
        name: name.into(),
        root: format!("/work/{name}"),
        active_pane: None,
    }
}

fn workspace() -> Workspace {
    Workspace {
        windows: vec![
            win(1, split(1, 2), None),
            win(1, leaf(3), Some("logs")),
            win(2, leaf(4), None),
        ],
        active_window: 0,
        last_active_pane: None,
        projects: vec![project(1, "one"), project(2, "two")],
        active_project: ProjectId(1),
        next_project_id: 3,
        project_scroll: 0,
        tab_scroll: 0,
        tab_scroll_follow_active: true,
        overview: None,
    }
}

fn slot(item: usize, x: u16, y: u16, w: u16, h: u16) -> CardSlot {
    CardSlot {
        item,
        rect: Rect::new(x, y, w, h),
    }
}

fn bar() -> TabBarLayout {
    TabBarLayout {
        tabs: vec![slot(0, 30, 39, 8, 1), slot(1, 38, 39, 10, 1)],
        scroll_left: Some(Rect::new(26, 39, 3, 1)),
        scroll_right: None,
        new_tab: Some(Rect::new(50, 39, 3, 1)),
        hidden_before: true,
        hidden_after: false,
    }
}

fn pointer(w: &Workspace) -> PointerView {
    let c = canvas();
    let layout = w.relayout(&c);
    PointerView {
        canvas: c,
        name_width: 4,
        status_at_bottom: true,
        bar: bar(),
        slots: Vec::new(),
        observatory_tab: ObservatoryTab::Files,
        project_slots: vec![slot(0, 0, 3, 24, 2), slot(1, 0, 6, 24, 2)],
        agent_slots: Vec::new(),
        agents: 0,
        agent_actions: Vec::new(),
        agent_scope_x: 0,
        agent_scope_width: 0,
        server_slots: Vec::new(),
        servers: 0,
        server_scope_x: 0,
        server_scope_width: 0,
        file_rows: file_sidebar_rows_for(c.chrome_area().area, false),
        tiles: vec![Rect::new(30, 2, 20, 10), Rect::new(60, 2, 20, 10)],
        panes: layout.panes,
        dividers: layout.dividers,
        tracking: Vec::new(),
        pane_right_click: false,
        focus_follows: false,
        menu_open: false,
        toast: false,
        divider_drag: None,
        armed: false,
        latest: None,
    }
}

#[test]
fn the_chrome_has_its_places() {
    let c = canvas();
    assert_eq!(c.sidebar_project_start(), 3);
    assert_eq!(c.scope_button_x(10), 149);
    let left = c.left_width();
    let right = c.observatory_width();
    assert_eq!(
        c.tab_bar_area(4, 0),
        Some(Rect::new(left, 39, 160 - right - left, 1))
    );
    assert_eq!(
        c.agent_action_bar(),
        Some(Rect::new(160 - right + 1, 38, right - 1, 1))
    );
    let bare = Canvas { status: false, ..c };
    assert_eq!(bare.tab_bar_area(4, 0), None);
}

fn tracking(mode: MouseMode) -> PaneMouse {
    PaneMouse {
        mode,
        sgr: true,
        alt_screen: false,
        app_cursor: false,
        scrollback: false,
        copying: false,
    }
}

#[test]
fn programs_get_the_events_that_they_asked_for() {
    let rect = Rect::new(10, 5, 20, 10);
    let sent = |mode, kind| forward_mouse_to_app(rect, tracking(mode), 12, 6, kind, false);
    assert_eq!(
        sent(MouseMode::Normal, MouseKind::Click),
        Some(b"\x1b[<0;3;2M".to_vec())
    );
    assert_eq!(
        sent(MouseMode::Normal, MouseKind::Release),
        Some(b"\x1b[<0;3;2m".to_vec())
    );
    assert_eq!(sent(MouseMode::Normal, MouseKind::Drag), None);
    assert_eq!(
        sent(MouseMode::Button, MouseKind::Drag),
        Some(b"\x1b[<32;3;2M".to_vec())
    );
    assert_eq!(sent(MouseMode::Button, MouseKind::Hover), None);
    assert_eq!(
        sent(MouseMode::Any, MouseKind::Hover),
        Some(b"\x1b[<35;3;2M".to_vec())
    );
    assert_eq!(sent(MouseMode::X10, MouseKind::Release), None);
    assert_eq!(sent(MouseMode::Off, MouseKind::Click), None);
    assert_eq!(sent(MouseMode::Any, MouseKind::RightClick), None);
    assert_eq!(
        forward_mouse_to_app(
            rect,
            tracking(MouseMode::Any),
            12,
            6,
            MouseKind::RightClick,
            true
        ),
        Some(b"\x1b[<2;3;2M".to_vec())
    );
    let frozen = PaneMouse {
        copying: true,
        ..tracking(MouseMode::Any)
    };
    assert_eq!(
        forward_mouse_to_app(rect, frozen, 12, 6, MouseKind::Click, true),
        None
    );
}

#[test]
fn a_plain_click_may_open_a_link() {
    let sel = MouseSel {
        client: Token(20),
        pane: PaneId(1),
        press_x: 12,
        press_y: 6,
        selecting: false,
        deferred_press: false,
    };
    let rect = Some(Rect::new(10, 5, 20, 10));
    let plain = Some(tracking(MouseMode::Off));
    assert_eq!(
        plain_click_cell(Some(sel), rect, plain, 12, 6),
        Some((Token(20), 2, 1))
    );
    assert_eq!(plain_click_cell(Some(sel), rect, plain, 13, 6), None);
    assert_eq!(plain_click_cell(None, rect, plain, 12, 6), None);
    assert_eq!(
        plain_click_cell(Some(sel), rect, Some(tracking(MouseMode::Any)), 12, 6),
        None
    );
    let selecting = MouseSel {
        selecting: true,
        ..sel
    };
    assert_eq!(plain_click_cell(Some(selecting), rect, plain, 12, 6), None);
}

#[test]
fn a_dragged_divider_is_found_again() {
    let divider = |x: u16, h: u16| Divider {
        dir: SplitDir::Horizontal,
        rect: Rect::new(x, 0, 1, h),
    };
    let list = vec![divider(20, 10), divider(40, 10), divider(41, 5)];
    assert_eq!(
        moved_divider(&list, divider(30, 10), 38, 3),
        Some(divider(40, 10))
    );
    assert_eq!(moved_divider(&list, divider(30, 7), 38, 3), None);
}

#[test]
fn a_tile_shows_its_tab_inside_a_border() {
    let w = workspace();
    let layout = tile_layout(&w.windows[0], Rect::new(10, 4, 23, 8)).unwrap();
    assert_eq!(layout.panes.len(), 2);
    assert_eq!(layout.panes[0].rect.x, 11);
    assert_eq!(layout.panes[0].rect.y, 5);
    assert_eq!(layout.panes[0].rect.h, 6);
    assert_eq!(layout.panes[0].rect.w + layout.panes[1].rect.w + 1, 21);
    assert!(tile_layout(&w.windows[0], Rect::new(0, 0, 3, 9)).is_none());
    assert!(tile_layout(&w.windows[0], Rect::new(0, 0, 9, 2)).is_none());
}

#[test]
fn tiles_follow_the_pointer() {
    let mut w = workspace();
    w.overview = Some(0);
    assert_eq!(w.point_at_tile(0, false), OverviewChange::Nothing);
    assert_eq!(w.point_at_tile(1, false), OverviewChange::Repaint);
    assert_eq!(w.overview, Some(1));
    assert_eq!(w.point_at_tile(1, true), OverviewChange::Switched);
    assert_eq!(w.overview, None);
    assert_eq!(w.active_window, 1);
}

#[test]
fn the_pointer_reaches_what_lies_under_it() {
    let mut w = workspace();
    let view = pointer(&w);
    // The cells are counted from one.
    assert_eq!(
        w.on_mouse(&view, 32, 40, MouseKind::Click),
        MouseStep::ShowTab {
            position: 0,
            menu: None
        }
    );
    assert_eq!(
        w.on_mouse(&view, 52, 40, MouseKind::Click),
        MouseStep::NewTab
    );
    assert_eq!(
        w.on_mouse(&view, 28, 40, MouseKind::Click),
        MouseStep::ScrollTabs { up: true }
    );
    assert_eq!(
        w.on_mouse(&view, 3, 7, MouseKind::Click),
        MouseStep::SwitchProject(ProjectId(2))
    );
    assert_eq!(
        w.on_mouse(&view, 3, 20, MouseKind::WheelDown),
        MouseStep::ScrollProjects { up: false }
    );
    let divider = view.dividers[0];
    assert_eq!(
        w.on_mouse(
            &view,
            divider.rect.x + 1,
            divider.rect.y + 1,
            MouseKind::Click
        ),
        MouseStep::GrabDivider(divider)
    );
    let second = view.panes[1].rect;
    assert_eq!(
        w.on_mouse(&view, second.x + 1, second.y + 1, MouseKind::Click),
        MouseStep::Pane {
            pane: Some(PaneId(2)),
            step: PaneStep::Press
        }
    );
    assert_eq!(
        w.on_mouse(&view, second.x + 1, second.y + 1, MouseKind::Hover),
        MouseStep::Pane {
            pane: Some(PaneId(2)),
            step: PaneStep::Nothing
        }
    );
    let following = PointerView {
        focus_follows: true,
        ..pointer(&w)
    };
    assert_eq!(
        w.on_mouse(&following, second.x + 1, second.y + 1, MouseKind::Hover),
        MouseStep::Pane {
            pane: Some(PaneId(2)),
            step: PaneStep::Hover
        }
    );
    assert_eq!(
        w.on_mouse(&view, second.x + 1, second.y + 1, MouseKind::RightClick),
        MouseStep::OpenContextMenu(MenuSpot::Pane(PaneId(2)))
    );
    let open = PointerView {
        menu_open: true,
        ..pointer(&w)
    };
    assert_eq!(
        w.on_mouse(&open, second.x + 1, second.y + 1, MouseKind::Click),
        MouseStep::ContextMenu(MenuMouse::Choose)
    );
    w.overview = Some(0);
    assert_eq!(
        w.on_mouse(&view, 62, 4, MouseKind::Click),
        MouseStep::ClickTile(1)
    );
    w.scroll_tabs(false);
    assert_eq!((w.tab_scroll, w.tab_scroll_follow_active), (1, false));
    w.scroll_tabs(true);
    w.scroll_tabs(true);
    assert_eq!(w.tab_scroll, 0);
    w.scroll_projects(false);
    assert_eq!(w.project_scroll, 1);
}

#[test]
fn a_right_click_opens_the_menu_of_what_lies_under_it() {
    let mut w = workspace();
    let view = pointer(&w);
    let second = view.panes[1].rect;
    assert_eq!(
        view.open_context_menu(second.x, second.y),
        MenuSpot::Pane(PaneId(2))
    );
    assert_eq!(
        view.open_context_menu(159, view.file_rows.tree_start),
        MenuSpot::FileSlot(0)
    );
    assert_eq!(view.open_context_menu(159, 0), MenuSpot::FileRoot);
    assert_eq!(view.open_context_menu(0, 0), MenuSpot::Nothing);
    let mut shown = ViewState {
        context_menu: false,
        sidebar: true,
        file_sidebar: true,
        observatory_tab: ObservatoryTab::Files,
        files_focused: false,
    };
    shown.show_menu(MenuSpot::FileRoot);
    assert!(shown.context_menu && shown.files_focused);
    shown.show_menu(MenuSpot::Pane(PaneId(1)));
    assert!(shown.context_menu && !shown.files_focused);
    shown.show_menu(MenuSpot::Nothing);
    assert!(!shown.context_menu);
    assert_eq!(
        shown.handle_context_input(ContextInput::Close),
        MenuKeys::Nothing
    );
    shown.show_menu(MenuSpot::Pane(PaneId(1)));
    assert_eq!(
        shown.handle_context_input(ContextInput::Redraw),
        MenuKeys::Repaint
    );
    assert!(shown.context_menu);
    assert_eq!(
        shown.handle_context_input(ContextInput::Run(ContextAction::Zoom)),
        MenuKeys::Run(ContextAction::Zoom)
    );
    assert!(!shown.context_menu);
    assert!(shown.select_observatory_tab(ObservatoryTab::Files).is_none());
    shown.files_focused = true;
    let switch = shown
        .select_observatory_tab(ObservatoryTab::WebServers)
        .unwrap();
    assert!(switch.stop_files && switch.watch_servers && !switch.sync_files);
    assert!(!shown.files_focused);

    let area = canvas().chrome_area().area;
    assert!(matches!(
        w.run_context_action(
            ContextTarget::Pane(PaneId(2)),
            ContextAction::Zoom,
            area,
            String::new()
        ),
        MenuStep::Run(Command::ZoomToggle)
    ));
    assert_eq!(w.windows[0].active, PaneId(2));
    assert!(matches!(
        w.run_context_action(
            ContextTarget::Pane(PaneId(2)),
            ContextAction::MoveToTab(1),
            area,
            String::new()
        ),
        MenuStep::Moved
    ));
    assert!(w.windows[1].layout.contains_pane(PaneId(2)));
    assert!(matches!(
        w.run_context_action(
            ContextTarget::Pane(PaneId(4)),
            ContextAction::ClosePane,
            area,
            String::new()
        ),
        MenuStep::Closed(done) if done.removed_project == Some(ProjectId(2)) && !done.stopped
    ));
    assert!(matches!(
        w.run_context_action(
            ContextTarget::FileRoot {
                root: "/work/one".into()
            },
            ContextAction::Refresh,
            area,
            String::new()
        ),
        MenuStep::Files(FileStep::Refresh(root)) if root == "/work/one"
    ));
    assert!(matches!(
        w.run_context_action(
            ContextTarget::Pane(PaneId(1)),
            ContextAction::Cancel,
            area,
            String::new()
        ),
        MenuStep::Repaint
    ));
}

fn styles() -> ListStyles {
    let style = |name: &str| format!("<{name}>");
    ListStyles {
        base: style("base"),
        muted: style("muted"),
        heading: style("heading"),
        border: style("border"),
        scope: style("scope"),
        live: style("live"),
        button: style("button"),
        selection: style("selection"),
        added: style("added"),
        removed: style("removed"),
        untracked: style("untracked"),
    }
}

fn said(mark: &Mark) -> (Option<u16>, &str, &str) {
    match mark {
        Mark::Row { row, text, style } => (Some(*row), text, style),
        Mark::At {
            row, text, style, ..
        } => (Some(*row), text, style),
        Mark::More { text, style } => (None, text, style),
    }
}

#[test]
fn the_active_project_stands_out() {
    let style = |name: &str| format!("<{name}>");
    let styles = ProjectStyles {
        base: style("base"),
        muted: style("muted"),
        active: style("active"),
        active_detail: style("detail"),
        heading: style("heading"),
        half: style("half"),
    };
    let card = |name: &str, active: bool, attention: usize| ProjectCard {
        name: name.into(),
        active,
        attention,
        detail: format!("~/{name}"),
    };
    let cards = vec![
        card("one", true, 0),
        card("two", false, 2),
        card("three", false, 0),
    ];
    let slots = vec![slot(0, 0, 3, 24, 2), slot(1, 0, 6, 24, 2)];
    let marks = mark_projects(&cards, &slots, &styles, Rect::new(0, 0, 24, 30), 5);
    let rows: Vec<_> = marks.iter().map(said).collect();
    assert_eq!(rows[0].0, Some(1));
    assert!(rows[0].1.starts_with(" PROJECTS"));
    assert_eq!(rows[0].2, "<heading>");
    assert_eq!(rows[1], (Some(2), "\u{2580}\u{2580}\u{2580}\u{2580}\u{2580}", "<half>"));
    assert_eq!(rows[2], (Some(3), " \u{25b8} one", "<active>"));
    assert_eq!(rows[3], (Some(4), "   ~/one", "<detail>"));
    assert_eq!(rows[4], (Some(5), "\u{2584}\u{2584}\u{2584}\u{2584}\u{2584}", "<half>"));
    assert_eq!(rows[5], (Some(6), "   two !2", "<base>"));
    assert_eq!(rows[6], (Some(7), "   ~/two", "<muted>"));
    assert_eq!(rows[7], (Some(8), "", "<base>"));
    assert_eq!(rows.len(), 8);
}

#[test]
fn agents_and_servers_are_listed_with_their_facts() {
    let card = AgentCard {
        name: "Alpha".into(),
        status: AgentStatus::Question,
        label: "asks".into(),
        active: true,
        style: "<agent>".into(),
        branch: Some("fix".into()),
        project: Some("one".into()),
        run: None,
        note: Some("late".into()),
    };
    let actions = vec![ActionSlot {
        rect: Rect::new(130, 19, 10, 1),
        label: "New".into(),
    }];
    let marks = mark_agents(
        &vec![card],
        &vec![slot(0, 128, 4, 32, 2)],
        &styles(),
        SidebarScope::Workspace,
        "Workspace",
        140,
        &actions,
        Rect::new(24, 0, 104, 20),
        4,
    );
    let rows: Vec<_> = marks.iter().map(said).collect();
    assert_eq!(rows[0], (Some(1), " AGENTS 1", "<heading>"));
    assert_eq!(rows[1], (Some(1), "Workspace", "<scope>"));
    assert_eq!(rows[2], (Some(4), " \u{25b8} ! Alpha", "<agent>"));
    assert_eq!(
        rows[3],
        (
            Some(5),
            "    asks \u{b7} \u{2387} fix \u{b7} one \u{b7} late",
            "<muted>"
        )
    );
    assert_eq!(
        rows[4],
        (Some(18), "\u{2500}\u{2500}\u{2500}\u{2500}", "<border>")
    );
    assert_eq!(rows[5], (Some(19), "    New   ", "<button>"));
    let server = DevServerEntry {
        label: "vite".into(),
        url: "http://localhost:5173".into(),
        port: 5173,
        pane_id: PaneId(1),
        project: ProjectId(1),
        project_name: "one".into(),
        project_root: "/work/one".into(),
        tab: 1,
        tab_name: String::new(),
        pane: 1,
    };
    let marks = mark_servers(
        &vec![server],
        &vec![slot(0, 128, 4, 32, 2)],
        &styles(),
        SidebarScope::Project,
        "Project",
        140,
        Rect::new(24, 0, 104, 20),
    );
    let rows: Vec<_> = marks.iter().map(said).collect();
    assert_eq!(rows[0], (Some(1), " WEB SERVERS 1", "<heading>"));
    assert_eq!(rows[2], (Some(4), " \u{25c6} vite :5173", "<live>"));
    assert_eq!(rows[3], (Some(5), "   http://localhost:5173", "<muted>"));
}

#[test]
fn files_are_listed_with_their_footer() {
    let file = |name: &str, is_dir: bool| FileRow {
        name: name.into(),
        depth: 0,
        is_dir,
        expanded: false,
        is_symlink: false,
    };
    let mut marks = Vec::new();
    let files = vec![file("src", true), file("a.rs", false), file("b.rs", false)];
    mark_file_rows(&mut marks, &files, 1, 2, 5, 8, &styles());
    assert_eq!(marks.len(), 2);
    assert_eq!(said(&marks[0]).0, Some(5));
    assert!(said(&marks[0]).1.contains("a.rs"));
    assert_eq!(said(&marks[0]).2, "<base>");
    assert_eq!(said(&marks[1]).2, "<selection>");
    let mut footer = Vec::new();
    mark_file_footer(
        &mut footer,
        Rect::new(0, 0, 30, 20),
        " 3 files".into(),
        &styles(),
        3,
    );
    assert_eq!(
        said(&footer[0]),
        (Some(17), "\u{2500}\u{2500}\u{2500}", "<border>")
    );
    assert_eq!(said(&footer[1]), (Some(18), " 3 files", "<muted>"));
    assert_eq!(
        said(&footer[2]),
        (Some(19), " n:new N:dir R:rename d:delete", "<muted>")
    );
    let mut none = Vec::new();
    mark_file_footer(
        &mut none,
        Rect::new(0, 0, 30, 2),
        String::new(),
        &styles(),
        3,
    );
    assert!(none.is_empty());
}

#[test]
fn the_status_line_is_made_of_pieces() {
    let w = workspace();
    let segments = w.window_segments();
    assert_eq!(segments, vec!["   1    ".to_string(), "  2:logs  ".to_string()]);
    let content = StatusContent {
        workspace: " work ".into(),
        workspace_width: 23,
        bar: bar(),
        segments,
        active_tab: 1,
        right: None,
        right_text: String::new(),
        observatory_x: 128,
        observatory_shown: true,
        slots: vec![ObservatorySlot {
            tab: ObservatoryTab::Agents,
            rect: Rect::new(130, 39, 8, 1),
            label: "Agents".into(),
        }],
        selected: ObservatoryTab::Agents,
    };
    let styles = StatusStyles {
        base: "<base>".into(),
        active: "<active>".into(),
        button: "<button>".into(),
        disabled: "<disabled>".into(),
        divider: "<divider>".into(),
    };
    let pieces = status_pieces(&content, &styles);
    let find = |text: &str| pieces.iter().find(|piece| piece.text == text).unwrap();
    assert_eq!(find(" < ").at, 26);
    assert_eq!(find(" < ").style, "<button>");
    assert_eq!(find("   1    ").at, 30);
    assert_eq!(find("  2:logs  ").style, "<active>");
    assert_eq!(find(" + ").at, 50);
    assert_eq!(find("\u{2502}").style, "<divider>");
    assert_eq!(find(" Agents ").style, "<button>");

    let piece = |at: u16, text: &str| StatusPiece {
        at,
        style: "<s>".into(),
        text: text.into(),
        after: "<b>".into(),
    };
    let mut out = String::new();
    draw_status_pieces(
        &mut out,
        &vec![piece(0, "ab"), piece(4, "cdef")],
        9,
        "<base>",
        7,
    );
    assert!(out.starts_with("\x1b[10;1H<base><s>ab<b>  <s>cde<b>"));
}

#[test]
fn drawn_lists_give_their_scroll_back() {
    let mut w = workspace();
    w.project_scroll = 5;
    w.sync_chrome_viewports(Some(&vec![slot(1, 0, 3, 24, 2)]), 2);
    assert_eq!((w.project_scroll, w.tab_scroll), (1, 2));
    assert!(!w.tab_scroll_follow_active);
    w.sync_chrome_viewports(None, 0);
    assert_eq!((w.project_scroll, w.tab_scroll), (1, 0));
    assert_eq!(SidebarScope::Project.toggle(), SidebarScope::Workspace);
    assert_eq!(
        SidebarScope::Project.toggle().toggle(),
        SidebarScope::Project
    );
}
