use workflow_manager::ui::components::{
    browser_lines, browser_title, centered_rect, dropdown_area, dropdown_choice, dropdown_computable, dropdown_scroll_offset, filter_entries,
    history_lines, path_lines, Area, PathEntry,
};
use workflow_manager::ui::screens::{
    close_confirmation_lines, empty_tabs_lines, footer_line, header_line, main_layout,
    notification_height, notification_lines, MainContent, NotificationLevel, Screen,
};
use workflow_manager::ui::styled::{Color, SpanStyle, StyledLine};
use workflow_manager::ui::tabs::{
    tab_bar_line, tab_content_title, tab_names_computable, tab_separator, TabSummary,
};
use workflow_manager::text::shortenable;
use workflow_manager::ui::tree::{
    run_previews_computable, running_title_text, running_view_lines, tree_previews_computable,
    AgentNode, PhaseNode, RunStatus, TaskNode, TreeState,
};
use workflow_manager::ui::workflows::{
    detail_values_computable, edit_title_text, is_field_required, workflow_detail_lines, workflow_edit_lines,
    workflow_list_lines, FieldInfo, FieldKind, WorkflowInfo,
};

fn look(fg: Color, bg: Color, bold: bool, italic: bool, reversed: bool, underlined: bool) -> SpanStyle {
    SpanStyle { fg, bg, bold, italic, reversed, underlined }
}

fn no_style() -> SpanStyle {
    look(Color::Default, Color::Default, false, false, false, false)
}

fn fg(c: Color) -> SpanStyle {
    look(c, Color::Default, false, false, false, false)
}

fn strong(c: Color) -> SpanStyle {
    look(c, Color::Default, true, false, false, false)
}

fn span_list(line: &StyledLine) -> Vec<(String, SpanStyle)> {
    line.spans.iter().map(|s| (s.text.clone(), s.style)).collect()
}

fn sp(t: &str, s: SpanStyle) -> (String, SpanStyle) {
    (t.to_string(), s)
}

fn pairs(v: &[(&str, &str)]) -> Vec<(String, String)> {
    v.iter().map(|(a, b)| (a.to_string(), b.to_string())).collect()
}

// ---------------------------------------------------------------------------
// Header, footer, notices, notifications
// ---------------------------------------------------------------------------

#[test]
fn header_names_the_screen_and_the_quit_key() {
    let l = header_line(Screen::WorkflowList);
    assert_eq!(
        span_list(&l),
        vec![
            sp("Workflow Manager v0.2.0 - Workflows", strong(Color::White)),
            sp("      ", no_style()),
            sp("[Q]", strong(Color::Default)),
            sp("uit", no_style()),
        ]
    );
    assert_eq!(header_line(Screen::Chat).spans[0].text, "Workflow Manager v0.2.0 - AI Chat");
}

#[test]
fn footer_of_the_list_lists_its_keys() {
    let l = footer_line(Screen::WorkflowList, false);
    assert_eq!(
        span_list(&l),
        vec![
            sp("[↑↓]", strong(Color::Default)),
            sp(" Navigate  ", no_style()),
            sp("[Enter/V]", strong(Color::Default)),
            sp(" View  ", no_style()),
            sp("[Q]", strong(Color::Default)),
            sp(" Quit", no_style()),
        ]
    );
}

#[test]
fn footer_while_editing_a_field_marks_typing_in_white() {
    let l = footer_line(Screen::WorkflowEdit, true);
    assert_eq!(l.spans.len(), 8);
    assert_eq!(span_list(&l)[0], sp("TYPE", strong(Color::White)));
    assert_eq!(span_list(&l)[1], sp(" to edit  ", no_style()));
    assert_eq!(span_list(&l)[7], sp(" Delete", no_style()));
    let browsing = footer_line(Screen::WorkflowEdit, false);
    assert_eq!(browsing.spans.len(), 10);
    assert_eq!(span_list(&browsing)[4], sp("[L]", strong(Color::Default)));
}

#[test]
fn notices_of_the_tab_view() {
    let empty = empty_tabs_lines();
    assert_eq!(empty.len(), 7);
    assert!(empty[0].spans.is_empty());
    assert_eq!(span_list(&empty[3]), vec![sp("No workflows running", strong(Color::Gray))]);
    assert_eq!(span_list(&empty[5]), vec![sp("Press [Ctrl+T] or click [+ New]", fg(Color::White))]);
    let close = close_confirmation_lines();
    assert_eq!(close.len(), 7);
    assert_eq!(span_list(&close[1]), vec![sp("Close Running Workflow?", strong(Color::Yellow))]);
    assert_eq!(
        span_list(&close[6]),
        vec![
            sp("[Y]", strong(Color::White)),
            sp(" Yes  ", no_style()),
            sp("[N]", strong(Color::Red)),
            sp(" No", no_style()),
        ]
    );
}

#[test]
fn main_area_shows_tab_bar_in_tab_mode() {
    assert_eq!(main_layout(Screen::Tabs, false, 0, 0), (true, MainContent::EmptyTabs));
    assert_eq!(main_layout(Screen::Tabs, false, 3, 1), (true, MainContent::Tab(1)));
    assert_eq!(main_layout(Screen::Tabs, false, 3, 3), (true, MainContent::Nothing));
    assert_eq!(main_layout(Screen::WorkflowEdit, true, 2, 0), (true, MainContent::View(Screen::WorkflowEdit)));
    assert_eq!(main_layout(Screen::WorkflowList, false, 2, 0), (false, MainContent::View(Screen::WorkflowList)));
}

#[test]
fn notification_area_grows_to_three_notifications() {
    assert_eq!(notification_height(0), 0);
    assert_eq!(notification_height(2), 6);
    assert_eq!(notification_height(3), 9);
    assert_eq!(notification_height(7), 9);
}

#[test]
fn notification_shows_icon_title_and_message_lines() {
    let lines = notification_lines(NotificationLevel::Warning, "Saved", "first\nsecond");
    assert_eq!(lines.len(), 2);
    assert_eq!(
        span_list(&lines[0]),
        vec![sp("⚠ Saved ", look(Color::Black, Color::Yellow, true, false, false, false))]
    );
    assert_eq!(span_list(&lines[1]), vec![sp("first", no_style()), sp("second", no_style())]);
    let err = notification_lines(NotificationLevel::Error, "Failed", "");
    assert_eq!(span_list(&err[0]), vec![sp("✗ Failed ", look(Color::White, Color::Red, true, false, false, false))]);
    assert!(err[1].spans.is_empty());
}

// ---------------------------------------------------------------------------
// Tab bar
// ---------------------------------------------------------------------------

fn tab(name: &str, instance: usize, status: RunStatus) -> TabSummary {
    TabSummary { name: name.to_string(), instance, status }
}

#[test]
fn tab_bar_shows_titles_and_new_button() {
    let tabs = vec![tab("research", 1, RunStatus::Running), tab("very_long_workflow", 2, RunStatus::Completed)];
    let l = tab_bar_line(&tabs, 0, 80);
    assert_eq!(
        span_list(&l),
        vec![
            sp("[ research #1 ● ]", look(Color::White, Color::DarkGray, true, false, false, false)),
            sp(" ", no_style()),
            sp("[ very_lo... #2 ✓ ]", fg(Color::Gray)),
            sp(" ", no_style()),
            sp(" ", no_style()),
            sp("[+ New]", strong(Color::White)),
        ]
    );
}

#[test]
fn tab_bar_scrolls_to_keep_the_active_tab() {
    let tabs = vec![
        tab("aaaa", 1, RunStatus::Completed),
        tab("bbbb", 2, RunStatus::Failed),
        tab("cccc", 3, RunStatus::Running),
    ];
    let l = tab_bar_line(&tabs, 2, 30);
    assert_eq!(
        span_list(&l),
        vec![
            sp("[ cccc #3 ● ]", look(Color::White, Color::DarkGray, true, false, false, false)),
            sp(" ", no_style()),
            sp(" ", no_style()),
            sp("[+ New]", strong(Color::White)),
        ]
    );
}

#[test]
fn tab_bar_stops_after_the_tab_that_overflows() {
    let tabs = vec![tab("aaaa", 1, RunStatus::NotStarted), tab("bbbb", 2, RunStatus::Failed)];
    // room for tabs: 14 bytes; the first title takes 16 with its space
    let l = tab_bar_line(&tabs, 0, 24);
    assert_eq!(
        span_list(&l),
        vec![
            sp("[ aaaa #1 ○ ]", look(Color::White, Color::DarkGray, true, false, false, false)),
            sp(" ", no_style()),
            sp(" ", no_style()),
            sp("[+ New]", strong(Color::White)),
        ]
    );
}

#[test]
fn tab_content_is_titled_by_name_and_run() {
    assert_eq!(tab_content_title(&tab("research", 3, RunStatus::Running)), " research #3 ");
}

#[test]
fn tab_separator_is_a_heavy_rule() {
    assert_eq!(span_list(&tab_separator(4)), vec![sp("━━━━", no_style())]);
    assert_eq!(span_list(&tab_separator(0)), vec![sp("", no_style())]);
}

// ---------------------------------------------------------------------------
// Dropdown and file browser
// ---------------------------------------------------------------------------

#[test]
fn dropdown_sits_below_its_field_inside_the_area() {
    let area = Area { x: 1, y: 2, width: 40, height: 30 };
    assert_eq!(dropdown_area(area, 1, 3), Area { x: 3, y: 10, width: 36, height: 5 });
    // too low: moved up so that it ends at the bottom of the area
    assert_eq!(dropdown_area(area, 6, 20), Area { x: 3, y: 22, width: 36, height: 10 });
    let narrow = Area { x: 0, y: 0, width: 3, height: 4 };
    assert_eq!(dropdown_area(narrow, 0, 1), Area { x: 2, y: 1, width: 0, height: 3 });
}

#[test]
fn popup_is_centred_in_the_area() {
    let r = centered_rect(50, 30, Area { x: 0, y: 0, width: 100, height: 100 });
    assert_eq!(r, Area { x: 25, y: 35, width: 50, height: 30 });
    let full = centered_rect(100, 100, Area { x: 3, y: 4, width: 20, height: 10 });
    assert_eq!(full, Area { x: 3, y: 4, width: 20, height: 10 });
}

#[test]
fn dropdown_scrolls_to_the_selected_item() {
    assert_eq!(dropdown_scroll_offset(2, 10), 0);
    assert_eq!(dropdown_scroll_offset(8, 10), 1);
    assert_eq!(dropdown_scroll_offset(12, 10), 5);
}

#[test]
fn history_dropdown_highlights_the_selection() {
    let items = vec!["one".to_string(), "two".to_string()];
    let lines = history_lines(&items, 1);
    assert_eq!(span_list(&lines[0]), vec![sp("  ", no_style()), sp("one", fg(Color::White))]);
    assert_eq!(
        span_list(&lines[1]),
        vec![sp("  ", no_style()), sp("two", look(Color::Black, Color::Yellow, true, false, false, false))]
    );
}

fn entry(name: Option<&str>, is_dir: bool) -> PathEntry {
    PathEntry { name: name.map(|n| n.to_string()), is_dir }
}

#[test]
fn path_dropdown_names_parent_dirs_and_files() {
    let items = vec![entry(Some("up"), true), entry(Some("src"), true), entry(Some("a.rs"), false), entry(None, false)];
    let lines = path_lines(&items, 2);
    assert_eq!(span_list(&lines[0]), vec![sp("../", fg(Color::Cyan))]);
    assert_eq!(span_list(&lines[1]), vec![sp("src/", fg(Color::Cyan))]);
    assert_eq!(span_list(&lines[2]), vec![sp("a.rs", look(Color::Black, Color::Yellow, true, false, false, false))]);
    assert_eq!(span_list(&lines[3]), vec![sp("?", fg(Color::White))]);
}

#[test]
fn file_browser_search_keeps_fuzzy_matches() {
    let items = vec![
        entry(None, true),
        entry(Some("lib.rs"), false),
        entry(Some("main.rs"), false),
        entry(Some("README.md"), false),
    ];
    assert_eq!(filter_entries(&items, ""), vec![0, 1, 2, 3]);
    assert_eq!(filter_entries(&items, "main"), vec![2]);
    assert_eq!(filter_entries(&items, "mn"), vec![2]);
    assert_eq!(filter_entries(&items, "zzz"), Vec::<usize>::new());
}

#[test]
fn file_browser_lines_mark_selection_and_icons() {
    let items = vec![entry(None, true), entry(Some("docs"), true), entry(Some("main.rs"), false)];
    let lines = browser_lines(&items, "", 2);
    assert_eq!(lines.len(), 3);
    assert_eq!(span_list(&lines[0]), vec![sp("  ", no_style()), sp("📁 ", no_style()), sp("..", fg(Color::Cyan))]);
    assert_eq!(span_list(&lines[1]), vec![sp("  ", no_style()), sp("📁 ", no_style()), sp("docs", fg(Color::Cyan))]);
    assert_eq!(
        span_list(&lines[2]),
        vec![sp("▶ ", no_style()), sp("📄 ", no_style()), sp("main.rs", strong(Color::Yellow))]
    );
    let found = browser_lines(&items, "doc", 2);
    assert_eq!(found.len(), 1);
    assert_eq!(span_list(&found[0])[2], sp("docs", fg(Color::Cyan)));
}

#[test]
fn file_browser_title_shows_directory_or_search() {
    assert_eq!(browser_title("/tmp", ""), " File Browser: /tmp ");
    assert_eq!(browser_title("/tmp", "ab"), " File Browser [search: ab] ");
}

// ---------------------------------------------------------------------------
// Workflow screens
// ---------------------------------------------------------------------------

fn field(name: &str, label: &str, kind: FieldKind, required: bool, phases: Option<Vec<usize>>) -> FieldInfo {
    FieldInfo {
        name: name.to_string(),
        label: label.to_string(),
        description: format!("the {}", name),
        kind,
        required,
        required_for_phases: phases,
    }
}

fn workflow(fields: Vec<FieldInfo>, built_in: bool) -> WorkflowInfo {
    WorkflowInfo {
        id: "research".to_string(),
        name: "Research".to_string(),
        description: "Runs research".to_string(),
        built_in,
        fields,
    }
}

#[test]
fn field_required_for_the_earliest_selected_phase() {
    let f = field("input", "Input", FieldKind::Other, false, Some(vec![0, 1]));
    assert!(is_field_required(&f, &pairs(&[("phases", " 2, 1 ,x")])));
    assert!(!is_field_required(&f, &pairs(&[("phases", "2,3")])));
    assert!(!is_field_required(&f, &pairs(&[("phases", "")])));
    assert!(!is_field_required(&f, &Vec::new()));
    // the first entry for a name counts
    assert!(is_field_required(&f, &pairs(&[("phases", "0"), ("phases", "4")])));
    let plain_field = field("topic", "Topic", FieldKind::Other, true, None);
    assert!(is_field_required(&plain_field, &Vec::new()));
}

#[test]
fn workflow_list_marks_the_selected_workflow() {
    let mut user = workflow(Vec::new(), false);
    user.name = "Mine".to_string();
    user.description = "custom".to_string();
    let ws = vec![workflow(Vec::new(), true), user];
    let lines = workflow_list_lines(&ws, 1);
    assert_eq!(lines.len(), 6);
    assert_eq!(
        span_list(&lines[0]),
        vec![sp("   ", no_style()), sp("Research", fg(Color::Gray)), sp(" ", no_style()), sp("[Built-in]", fg(Color::DarkGray))]
    );
    assert_eq!(span_list(&lines[1]), vec![sp("     Runs research", fg(Color::DarkGray))]);
    assert!(lines[2].spans.is_empty());
    assert_eq!(
        span_list(&lines[3]),
        vec![sp(" ▶ ", no_style()), sp("Mine", strong(Color::White)), sp(" ", no_style()), sp("[User]", fg(Color::DarkGray))]
    );
}

#[test]
fn workflow_detail_lists_fields_and_values() {
    let w = workflow(
        vec![
            field("topic", "Topic", FieldKind::Other, true, None),
            field("output", "Output", FieldKind::Other, false, None),
        ],
        true,
    );
    let long = "x".repeat(70);
    let values = pairs(&[("topic", long.as_str()), ("other", "")]);
    let lines = workflow_detail_lines(&w, &values);
    assert_eq!(lines.len(), 12 + 2 + 3);
    assert_eq!(span_list(&lines[0]), vec![sp("Name: ", fg(Color::Gray)), sp("Research", strong(Color::White))]);
    assert_eq!(span_list(&lines[6]), vec![sp("Source: ", fg(Color::Gray)), sp("Built-in workflow", fg(Color::Yellow))]);
    assert_eq!(span_list(&lines[8]), vec![sp("Fields: ", fg(Color::Gray)), sp("2", fg(Color::White))]);
    assert_eq!(span_list(&lines[10]), vec![sp("Arguments: ", fg(Color::Gray)), sp("1 configured", fg(Color::White))]);
    let shown = format!("{}...", "x".repeat(60));
    assert_eq!(
        span_list(&lines[12]),
        vec![sp("  • ", fg(Color::DarkGray)), sp("Topic", fg(Color::White)), sp(": ", no_style()), sp(&shown, fg(Color::White))]
    );
    assert_eq!(span_list(&lines[13])[3], sp("<empty>", fg(Color::DarkGray)));
    assert_eq!(span_list(&lines[16]), vec![sp("[L]", strong(Color::White)), sp(" Launch workflow", no_style())]);
}

#[test]
fn workflow_detail_counts_no_argument_in_grey() {
    let w = workflow(Vec::new(), false);
    let lines = workflow_detail_lines(&w, &Vec::new());
    assert_eq!(span_list(&lines[6])[1], sp("User-defined workflow", fg(Color::Yellow)));
    assert_eq!(span_list(&lines[10])[1], sp("0 configured", fg(Color::DarkGray)));
}

#[test]
fn workflow_form_shows_labels_values_and_cursor() {
    let w = workflow(
        vec![
            field("phases", "Phases", FieldKind::PhaseSelector, true, None),
            field("state", "State", FieldKind::StateFile { pattern: "*.yaml".to_string() }, false, Some(vec![1])),
        ],
        true,
    );
    let values = pairs(&[("phases", "1,2")]);
    let lines = workflow_edit_lines(&w, &values, 1, false, "");
    assert_eq!(lines.len(), 8);
    assert_eq!(span_list(&lines[0]), vec![sp("Phases*: ", strong(Color::White))]);
    assert_eq!(span_list(&lines[1]), vec![sp("  the phases", fg(Color::DarkGray))]);
    assert_eq!(span_list(&lines[2]), vec![sp("  ", no_style()), sp("1,2", fg(Color::White)), sp("", no_style())]);
    assert!(lines[3].spans.is_empty());
    assert_eq!(span_list(&lines[4]), vec![sp("State*: ", strong(Color::White))]);
    assert_eq!(
        span_list(&lines[6]),
        vec![sp("  ", no_style()), sp("<select file matching *.yaml>", strong(Color::Yellow)), sp("", no_style())]
    );
    let editing = workflow_edit_lines(&w, &values, 0, true, "3");
    assert_eq!(
        span_list(&editing[2]),
        vec![
            sp("  ", no_style()),
            sp("3", look(Color::White, Color::Default, true, false, false, true)),
            sp(" █", fg(Color::White)),
        ]
    );
    // the field list is unchanged by the edit buffer: "State" still depends on the saved phases
    assert_eq!(span_list(&editing[4]), vec![sp("State*: ", strong(Color::White))]);
    let unset = workflow_edit_lines(&w, &Vec::new(), 0, false, "");
    assert_eq!(span_list(&unset[4]), vec![sp("State: ", strong(Color::White))]);
    assert_eq!(
        span_list(&unset[6]),
        vec![sp("  ", no_style()), sp("<select file matching *.yaml>", look(Color::DarkGray, Color::Default, false, true, false, false)), sp("", no_style())]
    );
}

#[test]
fn form_and_running_titles() {
    assert_eq!(edit_title_text("Research", false), " Configure: Research ");
    assert_eq!(edit_title_text("Research", true), " Configure: Research [EDITING] ");
    assert_eq!(running_title_text("Research", true), "Running: Research [IN PROGRESS]");
    assert_eq!(running_title_text("Research", false), "Running: Research [COMPLETED]");
}

// ---------------------------------------------------------------------------
// The view of a running workflow
// ---------------------------------------------------------------------------

fn strings(v: &[&str]) -> Vec<String> {
    v.iter().map(|s| s.to_string()).collect()
}

fn build_phase() -> PhaseNode {
    PhaseNode {
        id: 1,
        name: "Build".to_string(),
        status: RunStatus::Running,
        tasks: vec![TaskNode {
            id: "t1".to_string(),
            description: "Compile".to_string(),
            status: RunStatus::Completed,
            messages: strings(&["m1"]),
            agents: vec![AgentNode {
                id: "a1".to_string(),
                name: "coder".to_string(),
                status: RunStatus::Running,
                messages: strings(&["x", "y"]),
            }],
        }],
        output_files: vec![("out.txt".to_string(), "result".to_string())],
    }
}

fn tree_state(expanded_phases: Vec<usize>, expanded_tasks: Vec<String>) -> TreeState {
    TreeState {
        expanded_phases,
        expanded_tasks,
        expanded_agents: Vec::new(),
        selected_phase: 0,
        selected_task: None,
        selected_agent: None,
        agent_scroll: Vec::new(),
    }
}

#[test]
fn running_view_unfolds_phase_task_and_output() {
    let st = tree_state(vec![1], strings(&["t1"]));
    let lines = running_view_lines(&st, &vec![build_phase()], &strings(&["done"]));
    assert_eq!(lines.len(), 12);
    assert_eq!(
        span_list(&lines[0]),
        vec![sp("▶ ", fg(Color::Yellow)), sp("▼ ", fg(Color::White)), sp("Phase 1: Build", strong(Color::White))]
    );
    assert_eq!(
        span_list(&lines[1]),
        vec![sp("  ", no_style()), sp("✓ ", fg(Color::White)), sp("▼ ", fg(Color::White)), sp("Compile", fg(Color::White))]
    );
    assert_eq!(span_list(&lines[2]), vec![sp("    ", no_style()), sp("m1", fg(Color::Gray))]);
    assert_eq!(
        span_list(&lines[3]),
        vec![sp("    ", no_style()), sp("▶ ", fg(Color::Yellow)), sp("▶ ", fg(Color::White)), sp("@coder", fg(Color::Magenta))]
    );
    assert_eq!(span_list(&lines[4]), vec![sp("      ", no_style()), sp("y", fg(Color::Gray))]);
    assert_eq!(span_list(&lines[5]), vec![sp("  ", no_style()), sp("Output files:", fg(Color::White))]);
    assert_eq!(
        span_list(&lines[6]),
        vec![sp("    ", no_style()), sp("📄 out.txt", fg(Color::White)), sp(" - ", no_style()), sp("result", fg(Color::Gray))]
    );
    assert!(lines[7].spans.is_empty());
    assert_eq!(span_list(&lines[8]), vec![sp("─────────────────", fg(Color::DarkGray))]);
    assert_eq!(span_list(&lines[9]), vec![sp("Workflow Output:", strong(Color::White))]);
    assert!(lines[10].spans.is_empty());
    assert_eq!(span_list(&lines[11]), vec![sp("done", no_style())]);
}

#[test]
fn running_view_of_folded_phase_previews_last_message() {
    let st = tree_state(Vec::new(), Vec::new());
    let lines = running_view_lines(&st, &vec![build_phase()], &Vec::new());
    assert_eq!(lines.len(), 2);
    assert_eq!(
        span_list(&lines[0]),
        vec![
            sp("▶ ", fg(Color::Yellow)),
            sp("▶ ", fg(Color::White)),
            sp("Phase 1: Build", strong(Color::White)),
            sp(" - m1", fg(Color::DarkGray)),
        ]
    );
    assert!(lines[1].spans.is_empty());
}

#[test]
fn preconditions_of_the_views_can_be_checked() {
    assert!(shortenable("héllo", 3, 1));
    assert!(!shortenable("héllo", 3, 2));
    assert!(shortenable("hé", 3, 2));
    let tabs = vec![tab("très_long_nom", 1, RunStatus::Running)];
    // the first seven bytes of "très_long_nom" end after "très_l"
    assert!(tab_names_computable(&tabs));
    let bad = vec![tab("aaaaaaé_long", 1, RunStatus::Running)];
    assert!(!tab_names_computable(&bad));
    let w = workflow(vec![field("topic", "Topic", FieldKind::Other, true, None)], true);
    let cut = format!("{}é{}", "v".repeat(59), "w".repeat(5));
    assert!(!detail_values_computable(&w, &pairs(&[("topic", cut.as_str())])));
    assert!(detail_values_computable(&w, &pairs(&[("topic", "short")])));
    let area = Area { x: 0, y: 0, width: 10, height: 10 };
    assert!(dropdown_computable(area, 3, 5));
    assert!(!dropdown_computable(Area { x: 0, y: 65530, width: 10, height: 10 }, 1, 5));
    let st = tree_state(Vec::new(), Vec::new());
    assert!(run_previews_computable(&st, &vec![build_phase()]));
    assert!(tree_previews_computable(&st, &vec![build_phase()]));
    let mut p = build_phase();
    p.tasks[0].messages = vec![format!("{}é", "m".repeat(39))];
    assert!(!run_previews_computable(&st, &vec![p]));
}

#[test]
fn history_dropdown_comes_before_completions() {
    assert_eq!(dropdown_choice(3, 5), Some((3, " History ")));
    assert_eq!(dropdown_choice(0, 5), Some((5, " Tab Completion ")));
    assert_eq!(dropdown_choice(0, 0), None);
}
