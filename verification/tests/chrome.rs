use uniterm_server::canvas::file_sidebar_rows_for;
use uniterm_server::chrome_text::{
    fit_cell_text, fit_centered_button_label, fit_centered_ellipsis, format_change_count,
    sanitize_chrome_text,
};
use uniterm_server::path_text::compact_project_path;
use uniterm_server::types::Rect;
use uniterm_server::template::{render_named_template, TemplateValue};

#[test]
fn fixed_chrome_text_clips_and_pads_to_its_cell_width() {
    assert_eq!(fit_cell_text("workspace", 4), "work");
    assert_eq!(fit_cell_text("tab", 8), "tab     ");
    assert_eq!(fit_cell_text("馈x", 2), "馈");
    assert_eq!(fit_cell_text("👩‍💻x", 2), "👩‍💻");
}

#[test]
fn observatory_tab_labels_center_and_ellipsize() {
    assert_eq!(fit_centered_ellipsis("Agents", 12), "   Agents   ");
    assert_eq!(fit_centered_ellipsis("Files", 12), "   Files    ");
    assert_eq!(fit_centered_ellipsis("Servers", 6), "Serve…");
    assert_eq!(fit_centered_ellipsis("Servers", 1), "…");
    assert_eq!(fit_centered_ellipsis("馈x", 6), " 馈x  ");
}

#[test]
fn templates_reject_unknown_tokens_and_sanitize_terminal_controls() {
    let values = vec![TemplateValue {
        name: "workspace".into(),
        value: "Uniterm".into(),
    }];
    assert_eq!(
        render_named_template("{{{workspace}}}", &values).as_deref(),
        Some("{Uniterm}")
    );
    assert!(render_named_template("{misspelled}", &Vec::new()).is_none());
    assert_eq!(
        sanitize_chrome_text("safe\x1b]9;forged\x07", 512),
        "safe]9;forged"
    );
}

#[test]
fn footer_button_labels_keep_odd_padding_on_the_leading_side() {
    assert_eq!(fit_centered_button_label("New Task", 9), " New Task");
    assert_eq!(fit_centered_button_label("Tasks...", 11), "  Tasks... ");
    assert_eq!(fit_centered_button_label("Config", 11), "   Config  ");
}

#[test]
fn large_git_change_counts_stay_compact() {
    assert_eq!(format_change_count(9_999), "9999");
    assert_eq!(format_change_count(12_345), "12.3k");
    assert_eq!(format_change_count(250_000), "250k");
}

#[test]
fn project_paths_use_shell_prompt_abbreviation() {
    assert_eq!(compact_project_path("/var/lib/uniterm", None), "/v/l/uniterm");
    let home = "/home/max";
    assert_eq!(
        compact_project_path("/home/max/Work/uniterm", Some(home)),
        "~/W/uniterm"
    );
}

#[test]
fn file_sidebar_click_rows_follow_the_optional_git_summary() {
    let area = Rect::new(0, 1, 30, 12);
    let clean = file_sidebar_rows_for(area, false);
    assert_eq!(clean.divider, None);
    assert_eq!(clean.slot_at(3), None);
    assert_eq!(clean.slot_at(4), Some(0));

    let changed = file_sidebar_rows_for(area, true);
    assert_eq!(changed.divider, Some(5));
    assert_eq!(changed.slot_at(5), None);
    assert_eq!(changed.slot_at(6), Some(0));
    assert_eq!(changed.capacity(), clean.capacity().saturating_sub(2));
}
