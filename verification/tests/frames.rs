use uniterm_server::broadcast::DirectPaint;
use uniterm_server::canvas::Canvas;
use uniterm_server::clients::{Clients, PaneAttachRole};
use uniterm_server::commands::ObservatoryTab;
use uniterm_server::frame::{Chrome, RightList, Scene, TileColors};
use uniterm_server::hierarchy::{Project, Win, Workspace};
use uniterm_server::layout::{Layout, LayoutNode};
use uniterm_server::observatory::DevServerEntry;
use uniterm_server::rail::{CardSlot, FileRow, GitStats, ListStyles, ProjectCard, ProjectStyles};
use uniterm_server::scope::SidebarScope;
use uniterm_server::session::Toast;
use uniterm_server::sidebars::{FilePrompt, FileView};
use uniterm_server::status::{StatusContent, StatusStyles, TabBarLayout};
use uniterm_server::tiles::{draw_overview_tile, MiniCell, PaneGrid};
use uniterm_server::types::{PaneId, ProjectId, Rect, SplitDir, Token};

fn canvas(cols: u16, rows: u16) -> Canvas {
    Canvas {
        cols,
        rows,
        sidebar: true,
        sidebar_width: 24,
        file_sidebar: true,
        file_sidebar_width: 32,
        status: true,
        status_top: false,
    }
}

fn cell(text: &str, colors: u64) -> MiniCell {
    MiniCell {
        colors,
        sgr: format!("<{colors}>"),
        continuation: false,
        wide: false,
        text: text.into(),
    }
}

fn grid(pane: u64, width: u16, cells: Vec<MiniCell>) -> PaneGrid {
    PaneGrid {
        pane: PaneId(pane),
        width,
        height: cells.len() as u16 / width,
        cells,
    }
}

fn win(project: u64, layout: LayoutNode, name: Option<&str>) -> Win {
    let active = layout.first_pane();
    Win {
        project: ProjectId(project),
        layout,
        active,
        zoomed: None,
        name: name.map(str::to_string),
    }
}

fn leaf(pane: u64) -> LayoutNode {
    LayoutNode::Leaf(PaneId(pane))
}

fn split(first: u64, second: u64) -> LayoutNode {
    LayoutNode::Split {
        dir: SplitDir::Horizontal,
        ratio: 5000,
        first: Box::new(leaf(first)),
        second: Box::new(leaf(second)),
    }
}

fn list_styles() -> ListStyles {
    let style = |name: &str| format!("<{name}>");
    ListStyles {
        base: style("base"),
        muted: style("muted"),
        heading: style("heading"),
        border: style("border"),
        scope: style("scope"),
        live: style("live"),
        button: style("button"),
        selection: style("selection"),
        added: style("added"),
        removed: style("removed"),
        untracked: style("untracked"),
    }
}

fn view() -> FileView {
    let file = |name: &str, is_dir: bool| FileRow {
        name: name.into(),
        depth: 0,
        is_dir,
        expanded: false,
        is_symlink: false,
    };
    FileView {
        project: Some("one".into()),
        changes: None,
        files: vec![file("src", true), file("README.md", false)],
        first: 0,
        selected: 1,
        prompt: None,
        status: "2 items".into(),
    }
}

fn chrome(right: RightList) -> Chrome {
    let style = |name: &str| format!("<{name}>");
    Chrome {
        projects: vec![ProjectCard {
            name: "one".into(),
            active: true,
            attention: 0,
            detail: "main".into(),
        }],
        project_slots: vec![CardSlot {
            item: 0,
            rect: Rect::new(0, 4, 23, 2),
        }],
        project_styles: ProjectStyles {
            base: style("base"),
            muted: style("muted"),
            active: style("active"),
            active_detail: style("detail"),
            heading: style("heading"),
            half: style("half"),
        },
        border: style("edge"),
        right,
        right_slots: vec![],
        right_styles: list_styles(),
        scope: SidebarScope::Project,
        scope_label: " project ".into(),
        scope_x: 150,
        status: StatusContent {
            workspace: "work".into(),
            workspace_width: 6,
            bar: TabBarLayout {
                tabs: vec![],
                scroll_left: None,
                scroll_right: None,
                new_tab: None,
                hidden_before: false,
                hidden_after: false,
            },
            segments: vec![],
            active_tab: 0,
            right: None,
            right_text: String::new(),
            observatory_x: 9,
            observatory_shown: false,
            slots: vec![],
            selected: ObservatoryTab::Files,
        },
        status_styles: StatusStyles {
            base: style("base"),
            active: style("active"),
            button: style("button"),
            disabled: style("disabled"),
            divider: style("divider"),
        },
    }
}

fn scene() -> Scene {
    Scene {
        panes: "PANES".into(),
        layout: Layout {
            panes: vec![],
            dividers: vec![],
        },
        divider: "90".into(),
        toast: None,
        toast_accent: "<accent>".into(),
        toast_style: "<style>".into(),
        menu: String::new(),
        cursor: Some((4, 2)),
        cursor_visible: true,
    }
}

#[test]
fn a_tile_scales_the_screens_of_its_panes_down() {
    let big = grid(
        1,
        4,
        vec![
            cell("a", 1),
            cell("b", 1),
            cell("c", 2),
            cell("d", 2),
            cell("e", 1),
            cell("f", 1),
            cell("g", 1),
            cell("h", 1),
        ],
    );
    let mut out = String::new();
    draw_overview_tile(
        &win(1, leaf(1), None),
        0,
        Rect::new(0, 0, 4, 3),
        true,
        "31",
        "90",
        &vec![big],
        &mut out,
    );
    assert_eq!(
        out,
        "\x1b[0;31m\x1b[1m\
         \x1b[1;1H\u{250c} \u{2500}\u{2510}\
         \x1b[2;1H\u{2502}\x1b[2;4H\u{2502}\
         \x1b[3;1H\u{2514}\u{2500}\u{2500}\u{2518}\
         \x1b[2;2H\x1b[0m<1>a<2>c\
         \x1b[0m"
    );
}

#[test]
fn a_tile_that_is_not_selected_is_faint() {
    let wide = |text: &str| MiniCell {
        wide: true,
        ..cell(text, 3)
    };
    let mut out = String::new();
    draw_overview_tile(
        &win(1, split(1, 2), Some("logs")),
        1,
        Rect::new(2, 1, 9, 3),
        false,
        "90",
        "35",
        &vec![grid(2, 1, vec![wide("W")])],
        &mut out,
    );
    assert!(out.starts_with("\x1b[0;90m\x1b[2;3H\u{250c} 2:log\u{2500}\u{2510}"), "{out:?}");
    assert!(out.contains("\x1b[35m\x1b[3;7H\u{2502}\x1b[0m"), "{out:?}");
    assert!(out.ends_with("\x1b[3;8H\x1b[0;2m<3>###\x1b[0m"), "{out:?}");
    let mut none = String::new();
    draw_overview_tile(
        &win(1, leaf(1), None),
        0,
        Rect::new(0, 0, 9, 2),
        true,
        "31",
        "90",
        &vec![],
        &mut none,
    );
    assert_eq!(none, "");
}

#[test]
fn the_file_tree_is_drawn_from_its_heading_to_its_keys() {
    let c = canvas(160, 20);
    let x = 160 - c.observatory_width() + 1;
    let mut out = String::new();
    c.draw_file_sidebar(&view(), &list_styles(), &mut out);
    assert!(out.contains(&format!("\x1b[2;{x}H<border>\u{2502}<heading> FILES \u{b7} one")));
    assert!(out.contains("<base> \u{25b8} src/"));
    assert!(out.contains("<selection>   README.md"));
    assert!(out.contains("<muted> 2 items"));
    assert!(!out.contains(" Git"));
    assert!(out.ends_with("\x1b[0m"));

    let asked = FileView {
        project: None,
        changes: Some(GitStats {
            insertions: 12,
            deletions: 0,
            untracked: 3,
        }),
        prompt: Some(FilePrompt {
            label: "New file".into(),
            value: "lib.rs".into(),
        }),
        ..view()
    };
    let mut out = String::new();
    c.draw_file_sidebar(&asked, &list_styles(), &mut out);
    assert!(out.contains("<heading> FILES \u{b7} Project"));
    assert!(out.contains(&format!(
        "\x1b[4;{x}H<border>\u{2502}<muted> Git<added> +12<untracked> ?3"
    )));
    assert!(out.contains("<muted> New file: lib.rs\u{2588}"));

    let narrow = canvas(40, 20);
    let mut out = String::new();
    narrow.draw_file_sidebar(&view(), &list_styles(), &mut out);
    assert_eq!(out, "");
}

#[test]
fn a_frame_is_drawn_from_the_panes_outwards() {
    let small = canvas(12, 3);
    let frame = scene().build_full_frame(&small, &chrome(RightList::Files { view: view() }));
    assert_eq!(
        frame,
        "\x1b[r\x1b[2JPANES\
         \x1b[3;1H<base><button>work  <base><divider>\u{2502}<base>     \x1b[0m\
         \x1b[3;5H\x1b[?25h"
    );

    let mut over = scene();
    over.toast = Some(Toast {
        pane: PaneId(1),
        title: "Agent waits".into(),
        body: "two".into(),
        expires: 8_000,
    });
    over.menu = "MENU".into();
    over.cursor = None;
    over.cursor_visible = false;
    let right = RightList::WebServers {
        servers: vec![DevServerEntry {
            label: "app".into(),
            url: "http://localhost:3000".into(),
            port: 3000,
            pane_id: PaneId(1),
            project: ProjectId(1),
            project_name: "one".into(),
            project_root: "/work/one".into(),
            tab: 1,
            tab_name: String::new(),
            pane: 1,
        }],
    };
    let frame = over.build_full_frame(&canvas(160, 20), &chrome(right));
    let at = |text: &str| frame.find(text).unwrap_or_else(|| panic!("{text:?} in {frame:?}"));
    assert!(at("PANES") < at("<edge>"));
    assert!(at("<edge>") < at(" WEB SERVERS"));
    assert!(at(" WEB SERVERS") < at("<button>work"));
    assert!(at("<button>work") < at("<accent> ! Agent waits"));
    assert!(at("<accent> ! Agent waits") < at("MENU"));
    assert!(frame.ends_with("MENU\x1b[?25l"));
}

#[test]
fn the_overview_frame_has_a_tile_for_each_tab() {
    let project = |id: u64, name: &str| Project {
        id: ProjectId(id),
        name: name.into(),
        root: format!("/work/{name}"),
        active_pane: None,
    };
    let w = Workspace {
        windows: vec![
            win(1, leaf(1), Some("a")),
            win(2, leaf(2), Some("b")),
            win(1, leaf(3), Some("c")),
        ],
        active_window: 0,
        last_active_pane: None,
        projects: vec![project(1, "one"), project(2, "two")],
        active_project: ProjectId(1),
        next_project_id: 3,
        project_scroll: 0,
        tab_scroll: 0,
        tab_scroll_follow_active: true,
        overview: Some(7),
    };
    let colors = TileColors {
        selected: "31".into(),
        divider: "90".into(),
    };
    let tiles = vec![Rect::new(0, 0, 10, 4), Rect::new(10, 0, 10, 4)];
    let frame = w.build_overview_frame(
        7,
        &canvas(20, 6),
        &tiles,
        &vec![],
        &colors,
        &chrome(RightList::Files { view: view() }),
    );
    assert!(frame.starts_with("\x1b[r\x1b[2J\x1b[0;90m\x1b[1;1H\u{250c} 1:a "));
    assert!(frame.contains("\x1b[0;31m\x1b[1m\x1b[1;11H\u{250c} 2:c "));
    assert!(!frame.contains(":b "));
    assert!(frame.ends_with("\x1b[0m\x1b[H"));
}

#[test]
fn the_cursor_of_a_pane_is_told_once() {
    let mut clients = Clients::new(80, 24);
    clients.connect(Token(20));
    clients.connect(Token(21));
    clients.attach_direct(Token(20), PaneId(3), true, PaneAttachRole::Controller);
    let told = clients.broadcast_direct_pane_damage(PaneId(3), true);
    assert_eq!(
        told,
        vec![DirectPaint {
            token: Token(20),
            set_visible: Some(true)
        }]
    );
    let again = clients.broadcast_direct_pane_damage(PaneId(3), true);
    assert_eq!(again[0].set_visible, None);
    assert!(clients.broadcast_direct_pane_damage(PaneId(4), true).is_empty());
    clients.full_repaint_direct_client(Token(20), false);
    let shown = clients.broadcast_direct_pane_damage(PaneId(3), true);
    assert_eq!(shown[0].set_visible, Some(true));
}
