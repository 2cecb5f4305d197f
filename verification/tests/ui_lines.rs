use workflow_manager::ui::chat::{
    chat_log_lines, chat_message_lines, chat_pane_lines, chat_title, input_title, logs_border,
    ChatMessage, ChatPane, ChatPhase, ChatRole, ToolCallRecord,
};
use workflow_manager::ui::markdown::format_message_content;
use workflow_manager::ui::styled::{Color, SpanStyle, StyledLine};
use workflow_manager::ui::tree::{
    tab_content_lines, text_line, window_bounds, AgentNode, PhaseNode, RunStatus, TaskNode,
    TreeState,
};

fn plain() -> SpanStyle {
    SpanStyle { fg: Color::Default, bg: Color::Default, bold: false, italic: false, reversed: false, underlined: false }
}

fn style(fg: Color, bold: bool) -> SpanStyle {
    SpanStyle { fg, bg: Color::Default, bold, italic: false, reversed: false, underlined: false }
}

fn spans(line: &StyledLine) -> Vec<(String, SpanStyle)> {
    line.spans.iter().map(|s| (s.text.clone(), s.style)).collect()
}

fn texts(lines: &[StyledLine]) -> Vec<String> {
    lines
        .iter()
        .map(|l| l.spans.iter().map(|s| s.text.as_str()).collect::<Vec<_>>().concat())
        .collect()
}

// ---------------------------------------------------------------------------
// Markdown formatting
// ---------------------------------------------------------------------------

#[test]
fn markdown_header_list_and_plain_lines() {
    let lines = format_message_content("**Tools:** available\n\n1. First **item**\n- bullet\n* star\nplain text  ");
    assert_eq!(lines.len(), 6);
    assert_eq!(
        spans(&lines[0]),
        vec![
            ("  Tools:".to_string(), style(Color::White, true)),
            (" available".to_string(), style(Color::White, false)),
        ]
    );
    assert!(lines[1].spans.is_empty());
    assert_eq!(
        spans(&lines[2]),
        vec![
            ("  • ".to_string(), plain()),
            ("First ".to_string(), plain()),
            ("item".to_string(), style(Color::Cyan, true)),
        ]
    );
    assert_eq!(spans(&lines[3]), vec![("  • bullet".to_string(), plain())]);
    assert_eq!(spans(&lines[4]), vec![("  • star".to_string(), plain())]);
    assert_eq!(spans(&lines[5]), vec![("plain text".to_string(), plain())]);
}

#[test]
fn markdown_unclosed_bold_repeats_the_rest() {
    let lines = format_message_content("a **b");
    assert_eq!(
        spans(&lines[0]),
        vec![
            ("".to_string(), plain()),
            ("a ".to_string(), plain()),
            ("**b".to_string(), plain()),
            ("a **b".to_string(), plain()),
        ]
    );
}

#[test]
fn markdown_header_without_closing_is_plain_text() {
    let lines = format_message_content("**open");
    assert_eq!(
        spans(&lines[0]),
        vec![
            ("".to_string(), plain()),
            ("**open".to_string(), plain()),
            ("**open".to_string(), plain()),
        ]
    );
}

#[test]
fn markdown_two_digit_number_is_not_a_list_item() {
    let lines = format_message_content("12. twelve\r\n");
    assert_eq!(lines.len(), 1);
    assert_eq!(spans(&lines[0]), vec![("12. twelve".to_string(), plain())]);
}

#[test]
fn markdown_of_empty_text_has_no_line() {
    assert!(format_message_content("").is_empty());
    assert_eq!(format_message_content("\n").len(), 1);
}

// ---------------------------------------------------------------------------
// Chat panes
// ---------------------------------------------------------------------------

fn message(role: ChatRole, content: &str, calls: Vec<ToolCallRecord>) -> ChatMessage {
    ChatMessage { role, content: content.to_string(), tool_calls: calls }
}

fn call(name: &str, input: &str, output: &str) -> ToolCallRecord {
    ToolCallRecord { name: name.to_string(), input: input.to_string(), output: output.to_string() }
}

#[test]
fn chat_log_without_tool_calls_is_a_placeholder() {
    let lines = chat_log_lines(&vec![message(ChatRole::User, "hi", vec![])], "Helper");
    assert_eq!(
        texts(&lines),
        vec![
            "No tool calls yet...".to_string(),
            "".to_string(),
            "Tool calls will appear here when Helper uses workflows.".to_string(),
        ]
    );
}

#[test]
fn chat_log_lists_calls_per_message() {
    let msgs = vec![
        message(ChatRole::User, "hi", vec![]),
        message(
            ChatRole::Assistant,
            "done",
            vec![call("list_workflows", "{}", "a\r\nb"), call("run", "", "")],
        ),
    ];
    let lines = chat_log_lines(&msgs, "Helper");
    assert_eq!(
        texts(&lines),
        vec![
            "═══ Helper's response #2 ═══".to_string(),
            "".to_string(),
            "🔧 Tool #1: list_workflows".to_string(),
            "  Input: {}".to_string(),
            "  Output:".to_string(),
            "    a".to_string(),
            "    b".to_string(),
            "".to_string(),
            "🔧 Tool #2: run".to_string(),
            "".to_string(),
        ]
    );
    assert_eq!(spans(&lines[2])[0].1, style(Color::Yellow, true));
}

#[test]
fn chat_log_truncates_long_output() {
    let out: Vec<String> = (1..=52).map(|i| format!("line {}", i)).collect();
    let msgs = vec![message(ChatRole::User, "x", vec![call("t", "", &out.join("\n"))])];
    let lines = chat_log_lines(&msgs, "Helper");
    let t = texts(&lines);
    assert_eq!(t[0], "═══ After user message #1 ═══");
    assert_eq!(t[4], "    line 1");
    assert_eq!(t[53], "    line 50");
    assert_eq!(t[54], "    ... (truncated)");
    assert_eq!(t.len(), 56);
}

#[test]
fn chat_messages_show_author_text_and_tool_note() {
    let msgs = vec![
        message(ChatRole::User, "hello", vec![]),
        message(ChatRole::Assistant, "**Done**", vec![call("a", "", ""), call("b", "", "")]),
    ];
    let lines = chat_message_lines(&msgs, "Helper", Some(('⠋', 12)));
    assert_eq!(
        texts(&lines),
        vec![
            "You: ".to_string(),
            "hello".to_string(),
            "".to_string(),
            "Helper: ".to_string(),
            "  Done".to_string(),
            "".to_string(),
            "  🔧 2 tool(s) used (see logs →)".to_string(),
            "".to_string(),
            "⠋ Thinking…".to_string(),
            "  (esc to interrupt · 12s)".to_string(),
        ]
    );
    assert!(chat_message_lines(&vec![], "Helper", None).is_empty());
}

// ---------------------------------------------------------------------------
// Workflow tree
// ---------------------------------------------------------------------------

fn state() -> TreeState {
    TreeState {
        expanded_phases: vec![],
        expanded_tasks: vec![],
        expanded_agents: vec![],
        selected_phase: 0,
        selected_task: None,
        selected_agent: None,
        agent_scroll: vec![],
    }
}

fn agent(id: &str, n: usize) -> AgentNode {
    AgentNode {
        id: id.to_string(),
        name: "files".to_string(),
        status: RunStatus::Running,
        messages: (1..=n).map(|i| format!("m{}", i)).collect(),
    }
}

fn phase() -> PhaseNode {
    PhaseNode {
        id: 1,
        name: "Expand".to_string(),
        status: RunStatus::Completed,
        tasks: vec![TaskNode {
            id: "t1".to_string(),
            description: "Expand task 1".to_string(),
            status: RunStatus::Failed,
            messages: vec!["started".to_string(), "a very long message that goes past forty bytes".to_string()],
            agents: vec![agent("a1", 7)],
        }],
        output_files: vec![("out.yaml".to_string(), "Tasks".to_string())],
    }
}

#[test]
fn folded_phase_previews_its_last_message() {
    let lines = tab_content_lines(&state(), &vec![phase()], &vec![]);
    assert_eq!(lines.len(), 1);
    assert_eq!(
        texts(&lines)[0],
        "✓ ▶ Phase 1: Expand - a very long message that goes past forty..."
    );
}

#[test]
fn unfolded_tree_shows_tasks_agents_window_and_files() {
    let mut st = state();
    st.expanded_phases = vec![1];
    st.expanded_tasks = vec!["t1".to_string()];
    st.expanded_agents = vec!["a1".to_string()];
    st.selected_phase = 1;
    st.selected_agent = Some("a1".to_string());
    let lines = tab_content_lines(&st, &vec![phase()], &vec![]);
    assert_eq!(
        texts(&lines),
        vec![
            "✓ ▼ Phase 1: Expand".to_string(),
            "  ✗ ▼ Expand task 1".to_string(),
            "    started".to_string(),
            "    a very long message that goes past forty bytes".to_string(),
            "    ▶ ▼ @files".to_string(),
            "      m3".to_string(),
            "      m4".to_string(),
            "      m5".to_string(),
            "      m6".to_string(),
            "      m7".to_string(),
            "      [Showing 3-7 of 7]".to_string(),
            "  Output files:".to_string(),
            "    📄 out.yaml - Tasks".to_string(),
        ]
    );
    assert!(spans(&lines[4])[3].1.reversed);
    assert!(!spans(&lines[0])[2].1.reversed);
}

#[test]
fn agent_window_follows_recorded_scroll() {
    assert_eq!(window_bounds(7, None), (2, 7));
    assert_eq!(window_bounds(7, Some(0)), (0, 5));
    assert_eq!(window_bounds(7, Some(99)), (6, 7));
    assert_eq!(window_bounds(3, None), (0, 3));
}

#[test]
fn tab_without_phases_shows_raw_output() {
    let lines = tab_content_lines(&state(), &vec![], &vec!["one".to_string(), "".to_string(), "a\nb".to_string()]);
    assert_eq!(lines.len(), 3);
    assert_eq!(spans(&lines[0]), vec![("one".to_string(), plain())]);
    assert!(lines[1].spans.is_empty());
    assert_eq!(lines[2].spans.len(), 2);
    assert_eq!(text_line("x\r\ny").spans.len(), 2);
}

#[test]
fn chat_pane_shows_setup_and_failure_notices() {
    let loading = chat_pane_lines(&ChatPhase::Loading { spinner: '⠋' }, &Vec::new(), "Helper", None);
    assert_eq!(loading.len(), 6);
    assert_eq!(
        spans(&loading[3]),
        vec![("    ⠋ ".to_string(), style(Color::White, true)), ("Initializing Helper...".to_string(), style(Color::Yellow, false))]
    );
    assert_eq!(spans(&loading[5]), vec![("    Please wait while we set up your AI assistant".to_string(), style(Color::DarkGray, false))]);
    let failed = chat_pane_lines(&ChatPhase::Failed { error: "no key".to_string() }, &Vec::new(), "Helper", None);
    assert_eq!(failed.len(), 5);
    assert_eq!(spans(&failed[2]), vec![("    ✗ Initialization Failed".to_string(), style(Color::Red, true))]);
    assert_eq!(spans(&failed[4]), vec![("    no key".to_string(), style(Color::Red, false))]);
    let ready = chat_pane_lines(&ChatPhase::Ready, &Vec::new(), "Helper", Some(('⠋', 3)));
    assert_eq!(ready.len(), chat_message_lines(&Vec::new(), "Helper", Some(('⠋', 3))).len());
}

#[test]
fn chat_titles_follow_the_session_state() {
    assert_eq!(chat_title(&ChatPhase::Loading { spinner: '⠋' }, "..", "Helper", ChatPane::Messages), (" Chat with Helper [..] ".to_string(), Color::Yellow));
    assert_eq!(chat_title(&ChatPhase::Failed { error: "x".to_string() }, "..", "Helper", ChatPane::Logs), (" Chat with Helper [✗] ".to_string(), Color::Red));
    assert_eq!(chat_title(&ChatPhase::Ready, "..", "Helper", ChatPane::Messages), (" Chat with Helper [✓] ".to_string(), Color::White));
    assert_eq!(chat_title(&ChatPhase::Ready, "..", "Helper", ChatPane::Logs), (" Chat with Helper [✓] ".to_string(), Color::DarkGray));
    assert_eq!(input_title(&ChatPhase::Failed { error: "x".to_string() }), (" Error: x ".to_string(), Color::Red));
    assert_eq!(input_title(&ChatPhase::Loading { spinner: '⠋' }), (" Please wait... ".to_string(), Color::DarkGray));
    assert_eq!(input_title(&ChatPhase::Ready), (" Type your message (Enter to send, Tab to switch pane) ".to_string(), Color::White));
    assert_eq!(logs_border(ChatPane::Logs), Color::Yellow);
    assert_eq!(logs_border(ChatPane::Messages), Color::DarkGray);
}
