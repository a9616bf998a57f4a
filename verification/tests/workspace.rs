use uniterm_server::commands::{
    Command, CommandInputs, FileTreeChange, FocusDir, ObservatoryTab, SplitAxis, ViewState,
};
use uniterm_server::hierarchy::{Project, Win, Workspace};
use uniterm_server::import::{
    validate_import, ImportError, ImportedProject, ImportedTab, ImportedWorkspace,
};
use uniterm_server::layout::LayoutNode;
use uniterm_server::listings::{
    plan_project, project_names, MoveTarget, ProjectRefusal, StopScope,
};
use uniterm_server::metadata::{
    sanitize_metadata_key, sanitize_metadata_value, set_metadata, MetadataStore,
};
use uniterm_server::overview::{read_overview_keys, OverviewChange, OverviewKeys};
use uniterm_server::projects::{ProjectMoveDirection, TabMoveDirection};
use uniterm_server::restore::RestoredTab;
use uniterm_server::scope::SidebarScope;
use uniterm_server::tiles::sample_index;
use uniterm_server::types::{PaneId, ProjectId, Rect, SplitDir};

fn leaf(pane: u64) -> LayoutNode {
    LayoutNode::Leaf(PaneId(pane))
}

fn split(first: LayoutNode, second: LayoutNode) -> LayoutNode {
    LayoutNode::Split {
        dir: SplitDir::Horizontal,
        ratio: 5000,
        first: Box::new(first),
        second: Box::new(second),
    }
}

fn win(project: u64, layout: LayoutNode) -> Win {
    let active = layout.first_pane();
    Win {
        project: ProjectId(project),
        layout,
        active,
        zoomed: None,
        name: None,
    }
}

fn project(id: u64, name: &str) -> Project {
    Project {
        id: ProjectId(id),
        name: name.into(),
        root: format!("/work/{name}"),
        active_pane: None,
    }
}

/// Two Projects: one with Tabs of Panes 1 and 2 and of Pane 3, one with a Tab
/// of Pane 4.
fn workspace() -> Workspace {
    Workspace {
        windows: vec![
            win(1, split(leaf(1), leaf(2))),
            win(2, leaf(4)),
            win(1, leaf(3)),
        ],
        active_window: 0,
        last_active_pane: None,
        projects: vec![project(1, "one"), project(2, "two")],
        active_project: ProjectId(1),
        next_project_id: 3,
        project_scroll: 0,
        tab_scroll: 0,
        tab_scroll_follow_active: false,
        overview: None,
    }
}

fn view() -> ViewState {
    ViewState {
        context_menu: false,
        sidebar: true,
        file_sidebar: true,
        observatory_tab: ObservatoryTab::Agents,
        files_focused: false,
    }
}

fn no_inputs() -> CommandInputs {
    CommandInputs {
        spawned: None,
        neighbor: None,
        resized: None,
    }
}

fn ids(layout: &LayoutNode) -> Vec<u64> {
    layout.pane_ids().iter().map(|pane| pane.0).collect()
}

#[test]
fn a_tab_bar_lists_the_tabs_of_its_project() {
    let w = workspace();
    assert_eq!(w.project_window_indices(ProjectId(1)), vec![0, 2]);
    assert_eq!(w.project_window_indices(ProjectId(2)), vec![1]);
    assert_eq!(w.window_of(PaneId(3)), Some(2));
    assert_eq!(w.window_of(PaneId(9)), None);
    assert_eq!(w.project_position(ProjectId(2)), Some(1));
    assert_eq!(w.project_position(ProjectId(9)), None);
}

#[test]
fn activating_a_tab_switches_the_project_and_remembers_the_focus() {
    let mut w = workspace();
    w.tab_scroll = 3;
    assert!(w.activate_window(1));
    assert_eq!(w.active_project, ProjectId(2));
    assert_eq!(w.projects[0].active_pane, Some(PaneId(1)));
    assert_eq!(w.projects[1].active_pane, Some(PaneId(4)));
    assert_eq!(w.tab_scroll, 0);
    assert_eq!(w.project_scroll, 1);
    assert!(!w.activate_window(1));
    assert!(!w.activate_window(9));
    assert_eq!(w.active_window, 1);
}

#[test]
fn splitting_and_closing_gives_the_tab_back() {
    let mut w = workspace();
    w.split_active_pane(PaneId(7), SplitDir::Vertical);
    assert_eq!(ids(&w.windows[0].layout), vec![1, 7, 2]);
    assert_eq!(w.windows[0].active, PaneId(7));
    let closed = w.close_pane(PaneId(7));
    assert!(!closed.stopped);
    assert_eq!(closed.removed_project, None);
    assert_eq!(ids(&w.windows[0].layout), vec![1, 2]);
}

#[test]
fn the_last_pane_takes_its_tab_and_its_project_along() {
    let mut w = workspace();
    let closed = w.close_pane(PaneId(4));
    assert_eq!(closed.removed_project, Some(ProjectId(2)));
    assert_eq!(w.projects.len(), 1);
    assert_eq!(w.windows.len(), 2);
    w.close_pane(PaneId(1));
    w.close_pane(PaneId(2));
    assert_eq!(w.windows.len(), 1);
    let last = w.close_pane(PaneId(3));
    assert!(last.stopped);
}

#[test]
fn a_pane_moves_between_tabs_of_its_project_only() {
    let mut w = workspace();
    let area = Rect::new(0, 0, 80, 24);
    assert!(!w.move_pane_to_window(area, PaneId(1), 0));
    assert!(!w.move_pane_to_window(area, PaneId(1), 1));
    assert!(w.move_pane_to_window(area, PaneId(1), 2));
    assert_eq!(ids(&w.windows[0].layout), vec![2]);
    assert!(w.windows[2].layout.contains_pane(PaneId(1)));
    assert!(!w.move_pane_to_new_window(PaneId(2)));
    assert!(w.move_pane_to_new_window(PaneId(1)));
    assert_eq!(w.windows.len(), 4);
}

#[test]
fn a_pane_menu_lists_every_other_tab() {
    let w = workspace();
    let items = w.pane_move_destinations(PaneId(1));
    let said: Vec<(&str, MoveTarget)> = items
        .iter()
        .map(|item| (item.label.as_str(), item.target))
        .collect();
    assert_eq!(
        said,
        vec![
            ("Move to tab 2", MoveTarget::Tab(2)),
            ("Move to new tab", MoveTarget::NewTab)
        ]
    );
    let alone = w.pane_move_destinations(PaneId(3));
    assert_eq!(alone.len(), 1);
    assert_eq!(alone[0].label, "Move to tab 1");
    assert!(w.pane_move_destinations(PaneId(9)).is_empty());
}

#[test]
fn moving_a_tab_there_and_back_undoes_itself() {
    let mut w = workspace();
    let moved = w.move_active_tab(TabMoveDirection::Next).unwrap();
    assert_eq!((moved.from, moved.to), (0, 1));
    assert_eq!(ids(&w.windows[0].layout), vec![3]);
    assert_eq!(w.active_window, 2);
    w.move_active_tab(TabMoveDirection::Previous).unwrap();
    assert_eq!(ids(&w.windows[0].layout), vec![1, 2]);
    assert_eq!(w.active_window, 0);
    w.activate_window(1);
    assert!(w.move_active_tab(TabMoveDirection::Next).is_none());
}

#[test]
fn projects_are_made_renamed_moved_and_removed() {
    let mut w = workspace();
    let id = w.add_project("three".into(), "/work/three".into(), PaneId(8));
    assert_eq!(id, ProjectId(3));
    assert_eq!(w.next_project_id, 4);
    assert_eq!(w.active_project, id);
    assert!(w.rename_project(id, " new "));
    assert_eq!(w.projects[2].name, "new");
    assert!(!w.rename_project(id, "  "));
    assert!(!w.rename_project(ProjectId(9), "x"));
    assert!(w.move_project(id, ProjectMoveDirection::Up));
    assert_eq!(w.projects[1].id, id);
    assert!(w.move_project(id, ProjectMoveDirection::Down));
    assert_eq!(w.projects[2].id, id);
    assert!(!w.move_project(id, ProjectMoveDirection::Down));
    assert!(w.switch_project(ProjectId(1)));
    assert!(!w.switch_project(ProjectId(9)));
    let removed = w.remove_project(id).unwrap();
    assert_eq!(removed.panes, vec![PaneId(8)]);
    assert!(!removed.stopped);
    assert!(w.remove_project(id).is_none());
    assert_eq!(w.projects.len(), 2);
}

#[test]
fn focus_finds_panes_by_id_and_by_place() {
    let mut w = workspace();
    assert!(w.focus_context_pane(PaneId(2)));
    assert_eq!(w.windows[0].active, PaneId(2));
    assert!(!w.focus_context_pane(PaneId(9)));
    let focused = w.focus_pane_target(PaneId(4)).unwrap();
    assert_eq!(focused.pane, PaneId(4));
    assert_eq!(w.active_project, ProjectId(2));
    let by_place = w
        .focus_hierarchy_target(ProjectId(1), 1, Some(2))
        .unwrap();
    assert_eq!(by_place.pane, PaneId(2));
    assert!(w.focus_hierarchy_target(ProjectId(1), 3, None).is_none());
    assert!(w.focus_hierarchy_target(ProjectId(1), 0, None).is_none());
    assert!(w.focus_hierarchy_target(ProjectId(9), 1, None).is_none());
}

#[test]
fn commands_zoom_cycle_and_close() {
    let mut w = workspace();
    let mut v = view();
    let effect = w.handle_command(&mut v, Command::ZoomToggle, no_inputs());
    assert!(effect.relayout);
    assert_eq!(w.windows[0].zoomed, Some(PaneId(1)));
    w.handle_command(&mut v, Command::ZoomToggle, no_inputs());
    assert_eq!(w.windows[0].zoomed, None);

    w.handle_command(&mut v, Command::NextWindow, no_inputs());
    assert_eq!(w.active_window, 2);
    w.handle_command(&mut v, Command::PrevWindow, no_inputs());
    assert_eq!(w.active_window, 0);
    w.handle_command(&mut v, Command::SelectWindow(1), no_inputs());
    assert_eq!(w.active_window, 2);

    let spawned = CommandInputs {
        spawned: Some(PaneId(11)),
        ..no_inputs()
    };
    w.handle_command(&mut v, Command::Split(SplitAxis::LeftRight), spawned);
    assert_eq!(ids(&w.windows[2].layout), vec![3, 11]);
    let neighbor = CommandInputs {
        neighbor: Some(PaneId(3)),
        ..no_inputs()
    };
    w.handle_command(&mut v, Command::Focus(FocusDir::Left), neighbor);
    assert_eq!(w.windows[2].active, PaneId(3));
    let closed = w.handle_command(&mut v, Command::KillWindow, no_inputs());
    assert_eq!(closed.closed.len(), 2);
    assert_eq!(w.windows.len(), 2);

    let effect = w.handle_command(&mut v, Command::SidebarToggle, no_inputs());
    assert!(!v.sidebar);
    assert!(effect.save_config);
    let effect = w.handle_command(&mut v, Command::FileSidebarToggle, no_inputs());
    assert_eq!(v.observatory_tab, ObservatoryTab::Files);
    assert_eq!(effect.files, FileTreeChange::Sync { focus: true });
    assert!(w
        .handle_command(&mut v, Command::CopyMode, no_inputs())
        .copy_mode);
}

#[test]
fn overview_keys_move_choose_and_cancel() {
    assert_eq!(read_overview_keys(b"l", 0, 2, 3), OverviewKeys::Stay(1));
    assert_eq!(read_overview_keys(b"\x1b[B", 0, 2, 3), OverviewKeys::Stay(2));
    assert_eq!(read_overview_keys(b"\r", 1, 2, 3), OverviewKeys::Pick(1));
    assert_eq!(read_overview_keys(b"q", 1, 2, 3), OverviewKeys::Cancel);
    let mut w = workspace();
    w.toggle_overview();
    assert!(w.overview.is_some());
    assert_eq!(w.handle_overview_input(b"l\r", 2), OverviewChange::Switched);
    assert_eq!(w.overview, None);
    assert_eq!(w.active_window, 2);
    assert_eq!(sample_index(0, 10, 80), 0);
}

#[test]
fn panes_are_listed_by_project_tab_and_place() {
    let w = workspace();
    let list = w.pane_snapshot();
    let said: Vec<(u64, u64, u32, u32, bool)> = list
        .iter()
        .map(|line| (line.id.0, line.project.0, line.tab, line.pane, line.active))
        .collect();
    assert_eq!(
        said,
        vec![
            (1, 1, 1, 1, true),
            (2, 1, 1, 2, false),
            (3, 1, 2, 1, false),
            (4, 2, 1, 1, false)
        ]
    );
    assert_eq!(list[2].tab_name, "Tab 2");
    assert_eq!(
        w.panes_of_project(ProjectId(1)),
        vec![PaneId(1), PaneId(2), PaneId(3)]
    );
    let all = vec![PaneId(1), PaneId(2), PaneId(3), PaneId(4)];
    let bound = vec![PaneId(2), PaneId(4)];
    assert_eq!(
        w.panes_to_stop(StopScope::Project(ProjectId(1)), &all, &bound),
        vec![PaneId(2)]
    );
    let projects = w.workspace_snapshot(&vec![PaneId(3)]);
    assert_eq!(projects[0].tabs, 2);
    assert_eq!(projects[0].panes, 3);
    assert_eq!(projects[0].attention, 1);
    assert!(projects[0].active);
    assert!(!projects[1].active);
}

#[test]
fn project_tags_are_listed_in_order_once() {
    let titles: Vec<String> = vec![
        "# project beta: x".into(),
        "plain".into(),
        "# project alpha: y".into(),
        "# project beta: z".into(),
    ];
    assert_eq!(project_names(&titles), vec!["alpha", "beta"]);
}

#[test]
fn a_new_project_needs_a_name_and_a_home() {
    let plan = plan_project(" web ", "~/code", Some("/home/u")).unwrap();
    assert_eq!((plan.name.as_str(), plan.root.as_str()), ("web", "/home/u/code"));
    assert!(matches!(
        plan_project("", "/x", None),
        Err(ProjectRefusal::Incomplete)
    ));
    assert!(matches!(
        plan_project("web", "~/code", None),
        Err(ProjectRefusal::NoHome)
    ));
}

#[test]
fn a_saved_workspace_comes_back_as_it_was() {
    let w = workspace();
    let snapshot = w.snapshot();
    let mut other = workspace();
    other.windows.truncate(1);
    other.projects.truncate(1);
    let live = vec![PaneId(1), PaneId(2), PaneId(3), PaneId(4)];
    other.restore(snapshot, &live, None);
    assert_eq!(other.windows.len(), 3);
    assert_eq!(ids(&other.windows[0].layout), vec![1, 2]);
    assert_eq!(other.projects.len(), 2);
    assert_eq!(other.active_window, 0);
    assert_eq!(other.next_project_id, 3);

    let snapshot = w.snapshot();
    let mut partial = workspace();
    partial.restore(snapshot, &vec![PaneId(2), PaneId(4)], None);
    assert_eq!(ids(&partial.windows[0].layout), vec![2]);
    assert_eq!(partial.windows.len(), 2);
}

#[test]
fn a_remembered_workspace_gets_fresh_panes() {
    let w = workspace();
    let definition = w
        .workspace_definition(SidebarScope::Workspace, SidebarScope::Project)
        .unwrap();
    assert!(definition.agent_scope_workspace);
    assert!(!definition.server_scope_workspace);
    assert_eq!(definition.projects.len(), 2);
    assert_eq!(definition.projects[0].tabs.len(), 2);
    let mut fresh = workspace();
    let tabs = vec![
        RestoredTab {
            project: ProjectId(1),
            name: None,
            layout: split(leaf(21), leaf(22)),
        },
        RestoredTab {
            project: ProjectId(1),
            name: None,
            layout: leaf(23),
        },
        RestoredTab {
            project: ProjectId(2),
            name: None,
            layout: leaf(24),
        },
    ];
    assert!(fresh.restore_workspace_definition(&definition, tabs));
    assert_eq!(fresh.windows.len(), 3);
    assert_eq!(ids(&fresh.windows[0].layout), vec![21, 22]);
    assert_eq!(fresh.active_project, ProjectId(1));
}

fn imported(projects: usize, tabs: usize) -> ImportedWorkspace {
    ImportedWorkspace {
        projects: (0..projects)
            .map(|i| ImportedProject {
                name: format!("p{i}"),
                root: format!("/r{i}"),
                source_id: format!("s{i}"),
                tabs: (0..tabs).map(|_| ImportedTab { name: None }).collect(),
            })
            .collect(),
    }
}

#[test]
fn imports_are_held_to_their_bounds() {
    assert!(validate_import(&imported(2, 1), &vec![true, true]).is_ok());
    assert!(matches!(
        validate_import(&imported(0, 1), &vec![]),
        Err(ImportError::NoProjects)
    ));
    assert!(matches!(
        validate_import(&imported(257, 1), &vec![true; 257]),
        Err(ImportError::TooManyProjects)
    ));
    assert!(matches!(
        validate_import(&imported(1, 1), &vec![false]),
        Err(ImportError::PathUnavailable(0))
    ));
    assert!(matches!(
        validate_import(&imported(2, 0), &vec![true, true]),
        Err(ImportError::TabCount(0))
    ));
    let mut unnamed = imported(1, 1);
    unnamed.projects[0].name = "  ".into();
    assert!(matches!(
        validate_import(&unnamed, &vec![true]),
        Err(ImportError::ProjectName)
    ));
    let mut long = imported(1, 1);
    long.projects[0].tabs[0].name = Some("x".repeat(257));
    assert!(matches!(
        validate_import(&long, &vec![true]),
        Err(ImportError::TabName(0))
    ));
}

#[test]
fn notes_are_cleaned_expire_and_are_removed_by_an_empty_value() {
    assert_eq!(sanitize_metadata_key(" br an/ch.x_1-2! "), "branch.x_1-2");
    assert_eq!(sanitize_metadata_key(&"k".repeat(40)).len(), 32);
    assert_eq!(sanitize_metadata_value("  v  "), "v");
    assert_eq!(sanitize_metadata_value(&"é".repeat(300)).chars().count(), 200);
    let mut store = MetadataStore::new();
    assert!(set_metadata(&mut store, 1, "branch", "main", None, 0));
    assert!(set_metadata(&mut store, 1, "hint", "x", Some(0), 1_000));
    assert!(!set_metadata(&mut store, 1, "!!", "x", None, 0));
    assert_eq!(store.get(1, "branch").map(|v| v.as_str()), Some("main"));
    assert!(!store.expire(1_999));
    assert!(store.expire(2_000));
    assert!(store.get(1, "hint").is_none());
    assert!(set_metadata(&mut store, 1, "branch", " ", None, 0));
    assert!(store.get(1, "branch").is_none());
}

#[test]
fn rects_of_a_layout_cover_the_area_without_overlap() {
    let layout = split(leaf(1), split(leaf(2), leaf(3)));
    let geometry = layout.compute(Rect::new(0, 0, 101, 30));
    let one = geometry.rect_of(PaneId(1)).unwrap();
    let two = geometry.rect_of(PaneId(2)).unwrap();
    let three = geometry.rect_of(PaneId(3)).unwrap();
    assert_eq!(one.w + two.w + three.w + 2, 101);
    assert_eq!(geometry.dividers.len(), 2);
    assert!(one.x + one.w < two.x && two.x + two.w < three.x);
    assert!(geometry.rect_of(PaneId(9)).is_none());
    assert_eq!(ids(&layout.without(PaneId(2)).unwrap()), vec![1, 3]);
    assert!(leaf(1).without(PaneId(1)).is_none());
}
