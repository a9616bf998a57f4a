use uniterm_server::cwd::{osc7_working_directory, update_working_directory};
use uniterm_server::pane_io::pane_input_has_capacity;
use uniterm_server::queue::{ClientQueue, WriteOutcome, MAX_PENDING_INPUT};
use uniterm_server::scope::SidebarScope;
use uniterm_server::search_path::{
    merge_search_paths, normalize_remote_search_path, MAX_REMOTE_SEARCH_PATH_ENTRIES,
};

const MAX_PENDING_CLIENT: usize = 16 * 1024 * 1024;

#[test]
fn remote_search_path_accepts_only_bounded_absolute_entries() {
    assert_eq!(
        normalize_remote_search_path(vec![
            "/home/test/bin".into(),
            "/usr/bin".into(),
            "/home/test/bin".into(),
        ]),
        Some(vec!["/home/test/bin".into(), "/usr/bin".into()])
    );
    assert_eq!(normalize_remote_search_path(Vec::new()), None);
    assert_eq!(
        normalize_remote_search_path(vec!["relative/bin".into()]),
        None
    );
    assert_eq!(
        normalize_remote_search_path(vec!["/bin".into(); MAX_REMOTE_SEARCH_PATH_ENTRIES + 1]),
        None
    );
}

#[test]
fn remote_search_path_widens_but_never_narrows_agent_lookup() {
    let existing = vec!["/usr/bin".to_string(), "/opt/agents/bin".to_string()];
    let merged = merge_search_paths(
        vec!["/home/u/.local/bin".to_string(), "/usr/bin".to_string()],
        &existing,
    );
    assert_eq!(
        merged,
        vec![
            "/home/u/.local/bin".to_string(),
            "/usr/bin".to_string(),
            "/opt/agents/bin".to_string()
        ]
    );
}

#[test]
fn slow_client_queue_is_bounded_and_disconnected() {
    let mut client = ClientQueue::new(MAX_PENDING_CLIENT);
    client.queue(&vec![0; MAX_PENDING_CLIENT]);
    assert_eq!(client.unsent().len(), MAX_PENDING_CLIENT);
    client.queue(&[1]);
    assert!(client.is_dead());
    assert!(client.unsent().is_empty());
}

#[test]
fn protocol_output_before_first_render_does_not_defer_the_frame() {
    let mut client = ClientQueue::new(MAX_PENDING_CLIENT);
    let title = b"title".to_vec();
    let render = b"first frame".to_vec();
    let nested = b"nested".to_vec();

    client.queue(&title);
    client.queue_render(&render);
    client.queue(&nested);
    assert!(!client.owes_repaint());

    let expected = [title, render, nested].concat();
    assert_eq!(client.unsent(), &expected[..]);
    assert!(client.may_flush());
    client.accept_write(WriteOutcome::Wrote(expected.len()));
    assert!(!client.wants_write());
    assert!(!client.holds_render());
    assert!(client.unsent().is_empty());
}

#[test]
fn backpressured_render_bursts_collapse_to_one_repaint() {
    let mut client = ClientQueue::new(MAX_PENDING_CLIENT);
    let first = vec![0; 2 * 1024 * 1024];
    let later = vec![1; 2 * 1024 * 1024];
    client.queue_render(&first);
    for _ in 0..16 {
        client.queue_render(&later);
    }

    assert_eq!(client.unsent().len(), first.len());
    assert!(client.owes_repaint());
    assert!(!client.is_dead());
    assert!(!client.may_flush());
    assert_eq!(client.unsent().len(), first.len());
}

#[test]
fn osc7_working_directories_are_absolute_and_percent_decoded() {
    assert_eq!(
        osc7_working_directory("file://work-mac/Users/max/Work/Uniterm%20CLI"),
        Some("/Users/max/Work/Uniterm CLI".to_string())
    );
    assert_eq!(
        osc7_working_directory("file:///tmp/project"),
        Some("/tmp/project".to_string())
    );
    assert_eq!(
        osc7_working_directory("file:/tmp/project"),
        Some("/tmp/project".to_string())
    );
    assert_eq!(osc7_working_directory("file:relative"), None);
    assert_eq!(osc7_working_directory("file:///tmp/bad%2"), None);
    assert_eq!(osc7_working_directory("https://example.com/tmp"), None);
}

#[test]
fn cwd_cache_advances_only_for_a_new_valid_osc7_path() {
    let mut cwd = Some("/work/old".to_string());
    assert!(!update_working_directory(
        &mut cwd,
        Some("file:///work/old")
    ));
    assert!(!update_working_directory(&mut cwd, Some("file:relative")));
    assert!(update_working_directory(
        &mut cwd,
        Some("file://host/work/new")
    ));
    assert_eq!(cwd, Some("/work/new".to_string()));
}

#[test]
fn pane_input_capacity_rejects_only_overflow() {
    assert!(pane_input_has_capacity(MAX_PENDING_INPUT, 0));
    assert!(pane_input_has_capacity(MAX_PENDING_INPUT - 1, 1));
    assert!(!pane_input_has_capacity(MAX_PENDING_INPUT, 1));
    assert!(!pane_input_has_capacity(usize::MAX, 1));
}

#[test]
fn sidebar_scope_uses_full_and_compact_labels() {
    assert_eq!(SidebarScope::Project.label(23), "project");
    assert_eq!(SidebarScope::Workspace.label(23), "workspace");
    assert_eq!(SidebarScope::Project.label(15), "proj");
    assert_eq!(SidebarScope::Workspace.label(15), "all");
}

#[test]
fn unchanged_client_interest_does_not_reregister_the_stream() {
    let mut client = ClientQueue::new(MAX_PENDING_CLIENT);
    assert_eq!(client.interest_change(), None);
    client.queue(b"pending");
    assert_eq!(client.interest_change(), Some(true));
    assert_eq!(client.interest_change(), Some(true));
    client.interest_registered(true);
    assert_eq!(client.interest_change(), None);
}
