//! The content of a workflow tab: the tree of its phases, their tasks and
//! the agents of each task, with what they last reported.
use vstd::prelude::*;

use crate::text::{can_shorten, decimal, push_decimal, push_str, shorten, shortenable, shortened, text_lines};
use crate::ui::styled::{
    bold, colored, empty_line, line_of, lines_view, plain, push_line, Color, SpanStyle, StyledLine,
};

verus! {

/// The state of a phase, a task or an agent.
#[derive(Clone, Copy, Debug, PartialEq, Eq, Structural)]
pub enum RunStatus {
    NotStarted,
    Running,
    Completed,
    Failed,
}

/// An agent working on a task.
pub struct AgentNode {
    pub id: String,
    pub name: String,
    pub status: RunStatus,
    pub messages: Vec<String>,
}

/// A task of a phase.
pub struct TaskNode {
    pub id: String,
    pub description: String,
    pub status: RunStatus,
    pub messages: Vec<String>,
    pub agents: Vec<AgentNode>,
}

/// A phase of a running workflow, with the files it wrote (path, description).
pub struct PhaseNode {
    pub id: usize,
    pub name: String,
    pub status: RunStatus,
    pub tasks: Vec<TaskNode>,
    pub output_files: Vec<(String, String)>,
}

/// Which nodes of the tree are unfolded and selected, and where the message
/// window of an agent is scrolled to (agent id, first message shown).
pub struct TreeState {
    pub expanded_phases: Vec<usize>,
    pub expanded_tasks: Vec<String>,
    pub expanded_agents: Vec<String>,
    pub selected_phase: usize,
    pub selected_task: Option<String>,
    pub selected_agent: Option<String>,
    pub agent_scroll: Vec<(String, usize)>,
}

/// The views of a list of strings.
pub open spec fn texts(v: Seq<String>) -> Seq<Seq<char>> {
    v.map_values(|s: String| s@)
}

/// The icon of a state.
pub open spec fn status_icon(s: RunStatus) -> Seq<char> {
    match s {
        RunStatus::NotStarted => "○"@,
        RunStatus::Running => "▶"@,
        RunStatus::Completed => "✓"@,
        RunStatus::Failed => "✗"@,
    }
}

/// The colour of a state.
pub open spec fn status_color(s: RunStatus) -> Color {
    match s {
        RunStatus::NotStarted => Color::Gray,
        RunStatus::Running => Color::Yellow,
        RunStatus::Completed => Color::White,
        RunStatus::Failed => Color::Red,
    }
}

/// The icon of an unfolded or folded node.
pub open spec fn fold_icon(expanded: bool) -> Seq<char> {
    if expanded {
        "▼"@
    } else {
        "▶"@
    }
}

/// The preview span of a folded node: its last message, cut at `limit` bytes.
pub open spec fn preview_spans(messages: Seq<Seq<char>>, expanded: bool, limit: nat) -> Seq<
    (Seq<char>, SpanStyle),
> {
    if !expanded && messages.len() > 0 {
        seq![(" - "@ + shortened(messages.last(), limit, limit), colored(Color::DarkGray))]
    } else {
        seq![]
    }
}

/// A preview can be cut where it is shown.
pub open spec fn preview_ok(messages: Seq<Seq<char>>, expanded: bool, limit: nat) -> bool {
    !expanded && messages.len() > 0 ==> can_shorten(messages.last(), limit, limit)
}

/// `v` holds the text `s`.
pub open spec fn has_text(v: Seq<String>, s: Seq<char>) -> bool {
    exists|i: int| 0 <= i < v.len() && #[trigger] v[i]@ == s
}

/// The scroll position recorded for the agent `id`: the first entry for it.
pub open spec fn scroll_of(entries: Seq<(String, usize)>, id: Seq<char>) -> Option<usize>
    decreases entries.len(),
{
    if entries.len() == 0 {
        None
    } else if entries[0].0@ == id {
        Some(entries[0].1)
    } else {
        scroll_of(entries.skip(1), id)
    }
}

/// The number of agent messages shown at once.
pub open spec fn window_size() -> nat {
    5
}

/// The first and last (exclusive) message shown of an unfolded agent with
/// `total` messages: from its recorded position, else the last five.
pub open spec fn message_window(total: nat, offset: Option<usize>) -> (nat, nat) {
    let default = if total > window_size() {
        (total - window_size()) as nat
    } else {
        0
    };
    let off = match offset {
        Some(o) => o as nat,
        None => default,
    };
    let start = if off < (total - 1) as nat {
        off
    } else {
        (total - 1) as nat
    };
    let end = if start + window_size() < total {
        start + window_size()
    } else {
        total
    };
    (start, end)
}

/// The first four spans of an agent's line: indentation, state, fold and name.
pub open spec fn agent_head_spans(st: TreeState, a: AgentNode) -> Seq<(Seq<char>, SpanStyle)> {
    let expanded = has_text(st.expanded_agents@, a.id@);
    let selected = st.selected_agent matches Some(s) && s@ == a.id@;
    seq![
        ("    "@, plain()),
        (status_icon(a.status) + " "@, colored(status_color(a.status))),
        (fold_icon(expanded) + " "@, colored(Color::White)),
        ("@"@ + a.name@, if selected {
            SpanStyle { fg: Color::Magenta, bg: Color::Default, bold: false, italic: false, reversed: true, underlined: false }
        } else {
            colored(Color::Magenta)
        }),
    ]
}

/// The line of a task: state, fold and description, and when folded the
/// preview of its last message (30 bytes).
pub open spec fn task_head_spans(st: TreeState, phase_id: usize, t: TaskNode) -> Seq<
    (Seq<char>, SpanStyle),
> {
    let expanded = has_text(st.expanded_tasks@, t.id@);
    let selected = st.selected_phase == phase_id && (st.selected_task matches Some(s) && s@
        == t.id@) && st.selected_agent is None;
    seq![
        ("  "@, plain()),
        (status_icon(t.status) + " "@, colored(status_color(t.status))),
        (fold_icon(expanded) + " "@, colored(Color::White)),
        (t.description@, if selected {
            SpanStyle { fg: Color::White, bg: Color::Default, bold: false, italic: false, reversed: true, underlined: false }
        } else {
            colored(Color::White)
        }),
    ] + preview_spans(texts(t.messages@), expanded, 30)
}

/// The line of a phase: state, fold, number and name, and when folded the
/// preview of the last message of its last task (40 bytes).
pub open spec fn phase_head_spans(st: TreeState, p: PhaseNode) -> Seq<(Seq<char>, SpanStyle)> {
    let expanded = st.expanded_phases@.contains(p.id);
    let selected = st.selected_phase == p.id && st.selected_task is None
        && st.selected_agent is None;
    seq![
        (status_icon(p.status) + " "@, colored(status_color(p.status))),
        (fold_icon(expanded) + " "@, colored(Color::White)),
        ("Phase "@ + decimal(p.id as nat) + ": "@ + p.name@, if selected {
            SpanStyle { fg: Color::White, bg: Color::Default, bold: true, italic: false, reversed: true, underlined: false }
        } else {
            bold(Color::White)
        }),
    ] + preview_spans(phase_last_messages(p), expanded, 40)
}

/// The indented lines of a list of messages.
pub open spec fn message_lines(msgs: Seq<Seq<char>>, indent: Seq<char>) -> Seq<
    Seq<(Seq<char>, SpanStyle)>,
> {
    msgs.map_values(|m: Seq<char>| seq![(indent, plain()), (m, colored(Color::Gray))])
}

/// The lines of an agent.
pub open spec fn agent_lines(st: TreeState, a: AgentNode) -> Seq<Seq<(Seq<char>, SpanStyle)>> {
    let msgs = texts(a.messages@);
    let expanded = has_text(st.expanded_agents@, a.id@);
    let head = agent_head_spans(st, a) + preview_spans(msgs, expanded, 50);
    let body = if expanded && msgs.len() > 0 {
        let w = message_window(msgs.len(), scroll_of(st.agent_scroll@, a.id@));
        msgs.subrange(w.0 as int, w.1 as int).map_values(
            |m: Seq<char>| seq![("      "@, plain()), (m, colored(Color::Gray))],
        ) + (if msgs.len() > window_size() {
            seq![
                seq![
                    ("      [Showing "@ + decimal(w.0 + 1) + "-"@ + decimal(w.1) + " of "@ + decimal(
                        msgs.len(),
                    ) + "]"@, SpanStyle {
                        fg: Color::White,
                        bg: Color::Default,
                        bold: false,
                        italic: true,
                        reversed: false,
                        underlined: false,
                    }),
                ],
            ]
        } else {
            seq![]
        })
    } else {
        seq![]
    };
    seq![head] + body
}

/// The lines of the agents of a task.
pub open spec fn agents_lines(st: TreeState, agents: Seq<AgentNode>) -> Seq<
    Seq<(Seq<char>, SpanStyle)>,
>
    decreases agents.len(),
{
    if agents.len() == 0 {
        seq![]
    } else {
        agents_lines(st, agents.drop_last()) + agent_lines(st, agents.last())
    }
}

/// The lines of a task of the phase `phase_id`.
pub open spec fn task_lines(st: TreeState, phase_id: usize, t: TaskNode) -> Seq<
    Seq<(Seq<char>, SpanStyle)>,
> {
    let expanded = has_text(st.expanded_tasks@, t.id@);
    let body = if expanded {
        message_lines(texts(t.messages@), "    "@) + agents_lines(st, t.agents@)
    } else {
        seq![]
    };
    seq![task_head_spans(st, phase_id, t)] + body
}

/// The lines of the tasks of a phase.
pub open spec fn tasks_lines(st: TreeState, phase_id: usize, tasks: Seq<TaskNode>) -> Seq<
    Seq<(Seq<char>, SpanStyle)>,
>
    decreases tasks.len(),
{
    if tasks.len() == 0 {
        seq![]
    } else {
        tasks_lines(st, phase_id, tasks.drop_last()) + task_lines(st, phase_id, tasks.last())
    }
}

/// The lines of the files a phase wrote.
pub open spec fn output_file_lines(files: Seq<(String, String)>) -> Seq<Seq<(Seq<char>, SpanStyle)>> {
    if files.len() == 0 {
        seq![]
    } else {
        seq![seq![("  "@, plain()), ("Output files:"@, colored(Color::White))]] + files.map_values(
            |f: (String, String)|
                seq![
                    ("    "@, plain()),
                    ("📄 "@, colored(Color::White)),
                    (f.0@, colored(Color::Yellow)),
                    (" - "@, plain()),
                    (f.1@, colored(Color::Gray)),
                ],
        )
    }
}

/// The last message of the last task of a phase, when there is one.
pub open spec fn phase_last_messages(p: PhaseNode) -> Seq<Seq<char>> {
    if p.tasks@.len() > 0 {
        texts(p.tasks@.last().messages@)
    } else {
        seq![]
    }
}

/// The lines of a phase.
pub open spec fn phase_lines(st: TreeState, p: PhaseNode) -> Seq<Seq<(Seq<char>, SpanStyle)>> {
    let expanded = st.expanded_phases@.contains(p.id);
    let head = phase_head_spans(st, p);
    if expanded {
        seq![head] + tasks_lines(st, p.id, p.tasks@) + output_file_lines(p.output_files@)
    } else {
        seq![head]
    }
}

/// The lines of a list of phases.
pub open spec fn phases_lines(st: TreeState, phases: Seq<PhaseNode>) -> Seq<
    Seq<(Seq<char>, SpanStyle)>,
>
    decreases phases.len(),
{
    if phases.len() == 0 {
        seq![]
    } else {
        phases_lines(st, phases.drop_last()) + phase_lines(st, phases.last())
    }
}

/// The spans of a text shown as one line: one per line of the text.
pub open spec fn raw_line(s: Seq<char>) -> Seq<(Seq<char>, SpanStyle)> {
    text_lines(s).map_values(|l: Seq<char>| (l, plain()))
}

/// The content of a tab: the tree of its phases, or, before any phase is
/// known, the workflow's raw output, one line per output line.
pub open spec fn tab_lines(st: TreeState, phases: Seq<PhaseNode>, output: Seq<String>) -> Seq<
    Seq<(Seq<char>, SpanStyle)>,
> {
    if phases.len() > 0 {
        phases_lines(st, phases)
    } else {
        output.map_values(|s: String| raw_line(s@))
    }
}

/// The previews shown for an agent can be cut.
pub open spec fn agent_previews_ok(st: TreeState, a: AgentNode) -> bool {
    preview_ok(texts(a.messages@), has_text(st.expanded_agents@, a.id@), 50)
}

/// The previews shown for a task and its agents can be cut.
pub open spec fn task_previews_ok(st: TreeState, t: TaskNode) -> bool {
    &&& preview_ok(texts(t.messages@), has_text(st.expanded_tasks@, t.id@), 30)
    &&& has_text(st.expanded_tasks@, t.id@) ==> forall|k: int|
        0 <= k < t.agents@.len() ==> agent_previews_ok(st, #[trigger] t.agents@[k])
}

/// The previews shown for a phase, its tasks and their agents can be cut.
pub open spec fn phase_previews_ok(st: TreeState, p: PhaseNode) -> bool {
    &&& preview_ok(phase_last_messages(p), st.expanded_phases@.contains(p.id), 40)
    &&& st.expanded_phases@.contains(p.id) ==> forall|k: int|
        0 <= k < p.tasks@.len() ==> task_previews_ok(st, #[trigger] p.tasks@[k])
}

/// Every preview of the tree can be cut: the last message shown after a
/// folded node is cut at its limit (40 bytes for a phase, 30 for a task, 50
/// for an agent) only where a character starts.
pub open spec fn tree_previews_ok(st: TreeState, phases: Seq<PhaseNode>) -> bool {
    forall|k: int| 0 <= k < phases.len() ==> phase_previews_ok(st, #[trigger] phases[k])
}


fn icon_with_space(s: RunStatus) -> (res: String)
    ensures
        res@ == status_icon(s) + " "@,
{
    proof {
        reveal_strlit(" ");
        reveal_strlit("○");
        reveal_strlit("▶");
        reveal_strlit("✓");
        reveal_strlit("✗");
    }
    match s {
        RunStatus::NotStarted => {
            let r = String::from_str("○ ");
            proof { reveal_strlit("○ "); }
            assert(r@ =~= status_icon(s) + " "@);
            r
        },
        RunStatus::Running => {
            let r = String::from_str("▶ ");
            proof { reveal_strlit("▶ "); }
            assert(r@ =~= status_icon(s) + " "@);
            r
        },
        RunStatus::Completed => {
            let r = String::from_str("✓ ");
            proof { reveal_strlit("✓ "); }
            assert(r@ =~= status_icon(s) + " "@);
            r
        },
        RunStatus::Failed => {
            let r = String::from_str("✗ ");
            proof { reveal_strlit("✗ "); }
            assert(r@ =~= status_icon(s) + " "@);
            r
        },
    }
}

fn fold_with_space(expanded: bool) -> (res: String)
    ensures
        res@ == fold_icon(expanded) + " "@,
{
    proof {
        reveal_strlit(" ");
        reveal_strlit("▼");
        reveal_strlit("▶");
        reveal_strlit("▼ ");
        reveal_strlit("▶ ");
    }
    if expanded {
        let r = String::from_str("▼ ");
        assert(r@ =~= fold_icon(expanded) + " "@);
        r
    } else {
        let r = String::from_str("▶ ");
        assert(r@ =~= fold_icon(expanded) + " "@);
        r
    }
}

fn status_style(s: RunStatus) -> (res: SpanStyle)
    ensures
        res == colored(status_color(s)),
{
    let c = match s {
        RunStatus::NotStarted => Color::Gray,
        RunStatus::Running => Color::Yellow,
        RunStatus::Completed => Color::White,
        RunStatus::Failed => Color::Red,
    };
    SpanStyle { fg: c, bg: Color::Default, bold: false, italic: false, reversed: false, underlined: false }
}

fn contains_text(v: &Vec<String>, s: &str) -> (r: bool)
    ensures
        r == has_text(v@, s@),
{
    let mut i: usize = 0;
    while i < v.len()
        invariant
            i <= v.len(),
            forall|k: int| 0 <= k < i ==> #[trigger] v@[k]@ != s@,
        decreases v.len() - i,
    {
        if crate::text::text_eq(v[i].as_str(), s) {
            assert(v@[i as int]@ == s@);
            return true;
        }
        i = i + 1;
    }
    false
}

fn contains_id(v: &Vec<usize>, id: usize) -> (r: bool)
    ensures
        r == v@.contains(id),
{
    let mut i: usize = 0;
    while i < v.len()
        invariant
            i <= v.len(),
            forall|k: int| 0 <= k < i ==> v@[k] != id,
        decreases v.len() - i,
    {
        if v[i] == id {
            assert(v@[i as int] == id);
            return true;
        }
        i = i + 1;
    }
    false
}

fn scroll_lookup(entries: &Vec<(String, usize)>, id: &str) -> (r: Option<usize>)
    ensures
        r == scroll_of(entries@, id@),
{
    let mut i: usize = 0;
    assert(entries@.skip(0) =~= entries@);
    while i < entries.len()
        invariant
            i <= entries.len(),
            scroll_of(entries@, id@) == scroll_of(entries@.skip(i as int), id@),
        decreases entries.len() - i,
    {
        let ghost rest = entries@.skip(i as int);
        assert(rest[0] == entries@[i as int]);
        assert(rest.skip(1) =~= entries@.skip(i + 1));
        if crate::text::text_eq(entries[i].0.as_str(), id) {
            return Some(entries[i].1);
        }
        i = i + 1;
    }
    None
}

/// The messages of an unfolded agent that are shown (see `message_window`).
pub fn window_bounds(total: usize, offset: Option<usize>) -> (r: (usize, usize))
    requires
        total > 0,
    ensures
        r.0 as nat == message_window(total as nat, offset).0,
        r.1 as nat == message_window(total as nat, offset).1,
        r.0 < r.1 <= total,
{
    let default = if total > 5 {
        total - 5
    } else {
        0
    };
    let off = match offset {
        Some(o) => o,
        None => default,
    };
    let start = if off < total - 1 {
        off
    } else {
        total - 1
    };
    let end = if total >= 5 && start < total - 5 {
        start + 5
    } else {
        total
    };
    (start, end)
}

fn push_preview(line: &mut StyledLine, messages: &Vec<String>, expanded: bool, limit: usize)
    requires
        preview_ok(texts(messages@), expanded, limit as nat),
    ensures
        final(line)@ == old(line)@ + preview_spans(texts(messages@), expanded, limit as nat),
{
    if !expanded && messages.len() > 0 {
        let last = &messages[messages.len() - 1];
        assert(texts(messages@).last() == last@);
        let mut text = String::from_str(" - ");
        let short = shorten(last.as_str(), limit, limit);
        push_str(&mut text, short.as_str());
        line.push(text, SpanStyle { fg: Color::DarkGray, bg: Color::Default, bold: false, italic: false, reversed: false, underlined: false });
    } else {
        assert(old(line)@ + preview_spans(texts(messages@), expanded, limit as nat) =~= old(line)@);
    }
}

fn agent_head(st: &TreeState, a: &AgentNode) -> (res: StyledLine)
    ensures
        res@ == agent_head_spans(*st, *a),
{
    let expanded = contains_text(&st.expanded_agents, a.id.as_str());
    let selected = match &st.selected_agent {
        Some(s) => crate::text::text_eq(s.as_str(), a.id.as_str()),
        None => false,
    };
    let mut head = line_of(String::from_str("    "), SpanStyle { fg: Color::Default, bg: Color::Default, bold: false, italic: false, reversed: false, underlined: false });
    head.push(icon_with_space(a.status), status_style(a.status));
    head.push(fold_with_space(expanded), SpanStyle { fg: Color::White, bg: Color::Default, bold: false, italic: false, reversed: false, underlined: false });
    let mut name = String::from_str("@");
    push_str(&mut name, a.name.as_str());
    head.push(name, SpanStyle { fg: Color::Magenta, bg: Color::Default, bold: false, italic: false, reversed: selected, underlined: false });
    assert(head@ =~= agent_head_spans(*st, *a));
    head
}

fn task_head(st: &TreeState, phase_id: usize, t: &TaskNode) -> (res: StyledLine)
    requires
        preview_ok(texts(t.messages@), has_text(st.expanded_tasks@, t.id@), 30),
    ensures
        res@ == task_head_spans(*st, phase_id, *t),
{
    let expanded = contains_text(&st.expanded_tasks, t.id.as_str());
    let task_selected = match &st.selected_task {
        Some(s) => crate::text::text_eq(s.as_str(), t.id.as_str()),
        None => false,
    };
    let selected = st.selected_phase == phase_id && task_selected && st.selected_agent.is_none();
    let mut head = line_of(String::from_str("  "), SpanStyle { fg: Color::Default, bg: Color::Default, bold: false, italic: false, reversed: false, underlined: false });
    head.push(icon_with_space(t.status), status_style(t.status));
    head.push(fold_with_space(expanded), SpanStyle { fg: Color::White, bg: Color::Default, bold: false, italic: false, reversed: false, underlined: false });
    head.push(t.description.clone(), SpanStyle { fg: Color::White, bg: Color::Default, bold: false, italic: false, reversed: selected, underlined: false });
    push_preview(&mut head, &t.messages, expanded, 30);
    assert(head@ =~= task_head_spans(*st, phase_id, *t));
    head
}

fn phase_head(st: &TreeState, p: &PhaseNode) -> (res: StyledLine)
    requires
        preview_ok(phase_last_messages(*p), st.expanded_phases@.contains(p.id), 40),
    ensures
        res@ == phase_head_spans(*st, *p),
{
    let expanded = contains_id(&st.expanded_phases, p.id);
    let selected = st.selected_phase == p.id && st.selected_task.is_none()
        && st.selected_agent.is_none();
    let mut head = line_of(icon_with_space(p.status), status_style(p.status));
    head.push(fold_with_space(expanded), SpanStyle { fg: Color::White, bg: Color::Default, bold: false, italic: false, reversed: false, underlined: false });
    let mut title = String::from_str("Phase ");
    push_decimal(&mut title, p.id as u64);
    push_str(&mut title, ": ");
    push_str(&mut title, p.name.as_str());
    head.push(title, SpanStyle { fg: Color::White, bg: Color::Default, bold: true, italic: false, reversed: selected, underlined: false });
    if p.tasks.len() > 0 {
        let last = &p.tasks[p.tasks.len() - 1];
        assert(phase_last_messages(*p) == texts(last.messages@));
        push_preview(&mut head, &last.messages, expanded, 40);
    } else {
        assert(phase_last_messages(*p) =~= Seq::<Seq<char>>::empty());
        assert(head@ =~= head@ + preview_spans(phase_last_messages(*p), expanded, 40));
    }
    assert(head@ =~= phase_head_spans(*st, *p));
    head
}

fn push_messages(lines: &mut Vec<StyledLine>, msgs: &Vec<String>, indent: &str)
    ensures
        lines_view(final(lines)@) == lines_view(old(lines)@) + message_lines(texts(msgs@), indent@),
{
    let ghost start = lines_view(lines@);
    let ghost mv = texts(msgs@);
    let mut k: usize = 0;
    while k < msgs.len()
        invariant
            k <= msgs.len(),
            mv == texts(msgs@),
            lines_view(lines@) == start + message_lines(mv.take(k as int), indent@),
        decreases msgs.len() - k,
    {
        let mut l = line_of(String::from_str(indent), SpanStyle { fg: Color::Default, bg: Color::Default, bold: false, italic: false, reversed: false, underlined: false });
        l.push(msgs[k].clone(), SpanStyle { fg: Color::Gray, bg: Color::Default, bold: false, italic: false, reversed: false, underlined: false });
        let ghost lv = l@;
        push_line(lines, l);
        proof {
            assert(mv[k as int] == msgs@[k as int]@);
            assert(lv =~= seq![(indent@, plain()), (mv[k as int], colored(Color::Gray))]);
            assert(mv.take(k + 1) =~= mv.take(k as int).push(mv[k as int]));
            assert(message_lines(mv.take(k + 1), indent@) =~= message_lines(mv.take(k as int), indent@).push(lv));
        }
        k = k + 1;
    }
    assert(mv.take(mv.len() as int) =~= mv);
}


fn push_agent_lines(lines: &mut Vec<StyledLine>, st: &TreeState, a: &AgentNode)
    requires
        agent_previews_ok(*st, *a),
    ensures
        lines_view(final(lines)@) == lines_view(old(lines)@) + agent_lines(*st, *a),
{
    let ghost before = lines_view(lines@);
    let ghost msgs = texts(a.messages@);
    let expanded = contains_text(&st.expanded_agents, a.id.as_str());
    let mut head = agent_head(st, a);
    push_preview(&mut head, &a.messages, expanded, 50);
    let ghost head_v = head@;
    push_line(lines, head);
    let ghost after_head = lines_view(lines@);
    let total = a.messages.len();
    if expanded && total > 0 {
        let offset = scroll_lookup(&st.agent_scroll, a.id.as_str());
        let (start, end) = window_bounds(total, offset);
        let mut k = start;
        while k < end
            invariant
                start <= k <= end <= total,
                total == a.messages@.len(),
                msgs == texts(a.messages@),
                lines_view(lines@) == after_head + msgs.subrange(start as int, k as int).map_values(
                    |m: Seq<char>| seq![("      "@, plain()), (m, colored(Color::Gray))],
                ),
            decreases end - k,
        {
            let mut l = line_of(String::from_str("      "), SpanStyle { fg: Color::Default, bg: Color::Default, bold: false, italic: false, reversed: false, underlined: false });
            l.push(a.messages[k].clone(), SpanStyle { fg: Color::Gray, bg: Color::Default, bold: false, italic: false, reversed: false, underlined: false });
            let ghost lv = l@;
            push_line(lines, l);
            proof {
                assert(msgs[k as int] == a.messages@[k as int]@);
                assert(lv =~= seq![("      "@, plain()), (msgs[k as int], colored(Color::Gray))]);
                assert(msgs.subrange(start as int, k + 1) =~= msgs.subrange(start as int, k as int).push(
                    msgs[k as int],
                ));
                assert(msgs.subrange(start as int, k + 1).map_values(
                    |m: Seq<char>| seq![("      "@, plain()), (m, colored(Color::Gray))],
                ) =~= msgs.subrange(start as int, k as int).map_values(
                    |m: Seq<char>| seq![("      "@, plain()), (m, colored(Color::Gray))],
                ).push(lv));
            }
            k = k + 1;
        }
        let ghost after_window = lines_view(lines@);
        if total > 5 {
            let mut ind = String::from_str("      [Showing ");
            push_decimal(&mut ind, (start + 1) as u64);
            push_str(&mut ind, "-");
            push_decimal(&mut ind, end as u64);
            push_str(&mut ind, " of ");
            push_decimal(&mut ind, total as u64);
            push_str(&mut ind, "]");
            push_line(lines, line_of(ind, SpanStyle { fg: Color::White, bg: Color::Default, bold: false, italic: true, reversed: false, underlined: false }));
        }
        proof {
            let w = message_window(msgs.len(), scroll_of(st.agent_scroll@, a.id@));
            assert(w.0 == start && w.1 == end);
            let extra = if msgs.len() > window_size() {
                seq![
                    seq![
                        ("      [Showing "@ + decimal(w.0 + 1) + "-"@ + decimal(w.1) + " of "@
                            + decimal(msgs.len()) + "]"@, SpanStyle {
                            fg: Color::White,
                            bg: Color::Default,
                            bold: false,
                            italic: true,
                            reversed: false,
                            underlined: false,
                        }),
                    ],
                ]
            } else {
                Seq::<Seq<(Seq<char>, SpanStyle)>>::empty()
            };
            assert(lines_view(lines@) =~= after_window + extra);
        }
    }
    proof {
        if !(expanded && total > 0) {
            assert(lines_view(lines@) =~= before + seq![head_v]);
        }
        assert(lines_view(lines@) =~= before + agent_lines(*st, *a));
    }
}


fn push_task_lines(lines: &mut Vec<StyledLine>, st: &TreeState, phase_id: usize, t: &TaskNode)
    requires
        task_previews_ok(*st, *t),
    ensures
        lines_view(final(lines)@) == lines_view(old(lines)@) + task_lines(*st, phase_id, *t),
{
    let ghost before = lines_view(lines@);
    let ghost msgs = texts(t.messages@);
    let expanded = contains_text(&st.expanded_tasks, t.id.as_str());
    let head = task_head(st, phase_id, t);
    push_line(lines, head);
    let ghost after_head = lines_view(lines@);
    if expanded {
        push_messages(lines, &t.messages, "    ");
        let ghost after_msgs = lines_view(lines@);
        let mut j: usize = 0;
        while j < t.agents.len()
            invariant
                j <= t.agents.len(),
                expanded,
                expanded == has_text(st.expanded_tasks@, t.id@),
                task_previews_ok(*st, *t),
                lines_view(lines@) == after_msgs + agents_lines(*st, t.agents@.take(j as int)),
            decreases t.agents.len() - j,
        {
            assert(t.agents@.take(j + 1).drop_last() =~= t.agents@.take(j as int));
            assert(agent_previews_ok(*st, t.agents@[j as int]));
            push_agent_lines(lines, st, &t.agents[j]);
            j = j + 1;
        }
        assert(t.agents@.take(t.agents@.len() as int) =~= t.agents@);
        assert(lines_view(lines@) =~= before + task_lines(*st, phase_id, *t));
    } else {
        assert(lines_view(lines@) =~= before + task_lines(*st, phase_id, *t));
    }
}

fn push_phase_lines(lines: &mut Vec<StyledLine>, st: &TreeState, p: &PhaseNode)
    requires
        phase_previews_ok(*st, *p),
    ensures
        lines_view(final(lines)@) == lines_view(old(lines)@) + phase_lines(*st, *p),
{
    let ghost before = lines_view(lines@);
    let expanded = contains_id(&st.expanded_phases, p.id);
    let head = phase_head(st, p);
    push_line(lines, head);
    if expanded {
        let ghost after_head = lines_view(lines@);
        let mut k: usize = 0;
        while k < p.tasks.len()
            invariant
                k <= p.tasks.len(),
                expanded,
                expanded == st.expanded_phases@.contains(p.id),
                phase_previews_ok(*st, *p),
                lines_view(lines@) == after_head + tasks_lines(*st, p.id, p.tasks@.take(k as int)),
            decreases p.tasks.len() - k,
        {
            assert(p.tasks@.take(k + 1).drop_last() =~= p.tasks@.take(k as int));
            assert(task_previews_ok(*st, p.tasks@[k as int]));
            push_task_lines(lines, st, p.id, &p.tasks[k]);
            k = k + 1;
        }
        assert(p.tasks@.take(p.tasks@.len() as int) =~= p.tasks@);
        let ghost after_tasks = lines_view(lines@);
        let files = &p.output_files;
        if files.len() > 0 {
            let mut h = line_of(String::from_str("  "), SpanStyle { fg: Color::Default, bg: Color::Default, bold: false, italic: false, reversed: false, underlined: false });
            h.push(String::from_str("Output files:"), SpanStyle { fg: Color::White, bg: Color::Default, bold: false, italic: false, reversed: false, underlined: false });
            assert(h@ =~= seq![("  "@, plain()), ("Output files:"@, colored(Color::White))]);
            push_line(lines, h);
            let ghost after_h = lines_view(lines@);
            let mut j: usize = 0;
            while j < files.len()
                invariant
                    j <= files.len(),
                    lines_view(lines@) == after_h + files@.take(j as int).map_values(
                        |f: (String, String)|
                            seq![
                                ("    "@, plain()),
                                ("📄 "@, colored(Color::White)),
                                (f.0@, colored(Color::Yellow)),
                                (" - "@, plain()),
                                (f.1@, colored(Color::Gray)),
                            ],
                    ),
                decreases files.len() - j,
            {
                let mut l = line_of(String::from_str("    "), SpanStyle { fg: Color::Default, bg: Color::Default, bold: false, italic: false, reversed: false, underlined: false });
                l.push(String::from_str("📄 "), SpanStyle { fg: Color::White, bg: Color::Default, bold: false, italic: false, reversed: false, underlined: false });
                l.push(files[j].0.clone(), SpanStyle { fg: Color::Yellow, bg: Color::Default, bold: false, italic: false, reversed: false, underlined: false });
                l.push(String::from_str(" - "), SpanStyle { fg: Color::Default, bg: Color::Default, bold: false, italic: false, reversed: false, underlined: false });
                l.push(files[j].1.clone(), SpanStyle { fg: Color::Gray, bg: Color::Default, bold: false, italic: false, reversed: false, underlined: false });
                let ghost lv = l@;
                push_line(lines, l);
                proof {
                    let f = files@[j as int];
                    assert(lv =~= seq![
                        ("    "@, plain()),
                        ("📄 "@, colored(Color::White)),
                        (f.0@, colored(Color::Yellow)),
                        (" - "@, plain()),
                        (f.1@, colored(Color::Gray)),
                    ]);
                    assert(files@.take(j + 1).map_values(
                        |f: (String, String)|
                            seq![
                                ("    "@, plain()),
                                ("📄 "@, colored(Color::White)),
                                (f.0@, colored(Color::Yellow)),
                                (" - "@, plain()),
                                (f.1@, colored(Color::Gray)),
                            ],
                    ) =~= files@.take(j as int).map_values(
                        |f: (String, String)|
                            seq![
                                ("    "@, plain()),
                                ("📄 "@, colored(Color::White)),
                                (f.0@, colored(Color::Yellow)),
                                (" - "@, plain()),
                                (f.1@, colored(Color::Gray)),
                            ],
                    ).push(lv));
                }
                j = j + 1;
            }
            assert(files@.take(files@.len() as int) =~= files@);
            assert(lines_view(lines@) =~= after_tasks + output_file_lines(files@));
        } else {
            assert(lines_view(lines@) =~= after_tasks + output_file_lines(files@));
        }
        assert(lines_view(lines@) =~= before + phase_lines(*st, *p));
    } else {
        assert(lines_view(lines@) =~= before + phase_lines(*st, *p));
    }
}

/// The content of a workflow tab: for each phase its line (state, fold,
/// number and name, and when folded the last message of its last task);
/// under an unfolded phase its tasks, under an unfolded task its messages
/// and agents, under an unfolded agent a window of five of its messages,
/// and after the tasks the files the phase wrote. Before any phase is
/// known, the raw output of the workflow.
pub fn tab_content_lines(st: &TreeState, phases: &Vec<PhaseNode>, output: &Vec<String>) -> (res: Vec<
    StyledLine,
>)
    requires
        tree_previews_ok(*st, phases@),
    ensures
        lines_view(res@) == tab_lines(*st, phases@, output@),
{
    let mut lines: Vec<StyledLine> = Vec::new();
    assert(lines_view(lines@) =~= Seq::<Seq<(Seq<char>, SpanStyle)>>::empty());
    if phases.len() > 0 {
        let mut i: usize = 0;
        while i < phases.len()
            invariant
                i <= phases.len(),
                tree_previews_ok(*st, phases@),
                lines_view(lines@) == phases_lines(*st, phases@.take(i as int)),
            decreases phases.len() - i,
        {
            assert(phases@.take(i + 1).drop_last() =~= phases@.take(i as int));
            assert(phase_previews_ok(*st, phases@[i as int]));
            push_phase_lines(&mut lines, st, &phases[i]);
            i = i + 1;
        }
        assert(phases@.take(phases@.len() as int) =~= phases@);
    } else {
        let mut i: usize = 0;
        while i < output.len()
            invariant
                i <= output.len(),
                lines_view(lines@) == output@.take(i as int).map_values(|s: String| raw_line(s@)),
            decreases output.len() - i,
        {
            let l = text_line(output[i].as_str());
            let ghost lv = l@;
            push_line(&mut lines, l);
            assert(output@.take(i + 1).map_values(|s: String| raw_line(s@)) =~= output@.take(
                i as int,
            ).map_values(|s: String| raw_line(s@)).push(lv));
            i = i + 1;
        }
        assert(output@.take(output@.len() as int) =~= output@);
    }
    lines
}

/// A text as one line: a plain span per line of the text.
pub fn text_line(s: &str) -> (res: StyledLine)
    ensures
        res@ == raw_line(s@),
{
    let cs = crate::text::str_to_chars(s);
    let mut line = empty_line();
    let mut p: usize = 0;
    let ghost all = text_lines(cs@);
    while p < cs.len()
        invariant_except_break
            line@ + crate::text::lines_from(cs@, p as nat).map_values(|l: Seq<char>| (l, plain()))
                == all.map_values(|l: Seq<char>| (l, plain())),
        invariant
            p <= cs.len(),
            cs@ == s@,
            all == text_lines(cs@),
        ensures
            line@ == all.map_values(|l: Seq<char>| (l, plain())),
        decreases cs.len() - p,
    {
        let (c, j) = crate::text::line_bounds(&cs, p);
        let ghost piece = cs@.subrange(p as int, c as int);
        let ghost before = line@;
        line.push(crate::text::chars_to_string(&cs, p, c), SpanStyle { fg: Color::Default, bg: Color::Default, bold: false, italic: false, reversed: false, underlined: false });
        proof {
            let rest = crate::text::lines_from(cs@, (j + 1) as nat);
            if j < cs.len() {
                assert(crate::text::lines_from(cs@, p as nat) == seq![piece] + rest);
                assert((seq![piece] + rest).map_values(|l: Seq<char>| (l, plain())) =~= seq![
                    (piece, plain()),
                ] + rest.map_values(|l: Seq<char>| (l, plain())));
            } else {
                assert(crate::text::lines_from(cs@, p as nat) == seq![piece]);
                assert(seq![piece].map_values(|l: Seq<char>| (l, plain())) =~= seq![(piece, plain())]);
                assert(line@ =~= before.push((piece, plain())));
            }
        }
        if j >= cs.len() {
            break;
        }
        p = j + 1;
    }
    proof {
        if p >= cs.len() {
            assert(crate::text::lines_from(cs@, p as nat) =~= Seq::<Seq<char>>::empty());
        }
    }
    line
}


// ============================================================================
// The view of a running workflow
// ============================================================================

/// An agent in the view of a running workflow: its line, then its last
/// message when folded, or all its messages when unfolded.
pub open spec fn run_agent_lines(st: TreeState, a: AgentNode) -> Seq<Seq<(Seq<char>, SpanStyle)>> {
    let msgs = texts(a.messages@);
    let expanded = has_text(st.expanded_agents@, a.id@);
    seq![agent_head_spans(st, a)] + (if expanded {
        message_lines(msgs, "      "@)
    } else if msgs.len() > 0 {
        seq![seq![("      "@, plain()), (msgs.last(), colored(Color::Gray))]]
    } else {
        seq![]
    })
}

/// The agents of a task in the view of a running workflow.
pub open spec fn run_agents_lines(st: TreeState, agents: Seq<AgentNode>) -> Seq<
    Seq<(Seq<char>, SpanStyle)>,
>
    decreases agents.len(),
{
    if agents.len() == 0 {
        seq![]
    } else {
        run_agents_lines(st, agents.drop_last()) + run_agent_lines(st, agents.last())
    }
}

/// A task in the view of a running workflow.
pub open spec fn run_task_lines(st: TreeState, phase_id: usize, t: TaskNode) -> Seq<
    Seq<(Seq<char>, SpanStyle)>,
> {
    seq![task_head_spans(st, phase_id, t)] + (if has_text(st.expanded_tasks@, t.id@) {
        message_lines(texts(t.messages@), "    "@) + run_agents_lines(st, t.agents@)
    } else {
        seq![]
    })
}

/// The tasks of a phase in the view of a running workflow.
pub open spec fn run_tasks_lines(st: TreeState, phase_id: usize, tasks: Seq<TaskNode>) -> Seq<
    Seq<(Seq<char>, SpanStyle)>,
>
    decreases tasks.len(),
{
    if tasks.len() == 0 {
        seq![]
    } else {
        run_tasks_lines(st, phase_id, tasks.drop_last()) + run_task_lines(
            st,
            phase_id,
            tasks.last(),
        )
    }
}

/// The files a phase wrote, in the view of a running workflow.
pub open spec fn run_output_file_lines(files: Seq<(String, String)>) -> Seq<
    Seq<(Seq<char>, SpanStyle)>,
> {
    if files.len() == 0 {
        seq![]
    } else {
        seq![seq![("  "@, plain()), ("Output files:"@, colored(Color::White))]] + files.map_values(
            |f: (String, String)|
                seq![
                    ("    "@, plain()),
                    ("📄 "@ + f.0@, colored(Color::White)),
                    (" - "@, plain()),
                    (f.1@, colored(Color::Gray)),
                ],
        )
    }
}

/// A phase in the view of a running workflow, followed by a blank line.
pub open spec fn run_phase_lines(st: TreeState, p: PhaseNode) -> Seq<Seq<(Seq<char>, SpanStyle)>> {
    seq![phase_head_spans(st, p)] + (if st.expanded_phases@.contains(p.id) {
        run_tasks_lines(st, p.id, p.tasks@) + run_output_file_lines(p.output_files@)
    } else {
        seq![]
    }) + seq![seq![]]
}

/// The phases in the view of a running workflow.
pub open spec fn run_phases_lines(st: TreeState, phases: Seq<PhaseNode>) -> Seq<
    Seq<(Seq<char>, SpanStyle)>,
>
    decreases phases.len(),
{
    if phases.len() == 0 {
        seq![]
    } else {
        run_phases_lines(st, phases.drop_last()) + run_phase_lines(st, phases.last())
    }
}

/// The view of a running workflow: its phases, then, when it printed
/// anything, a rule, a heading and its output.
pub open spec fn running_lines(st: TreeState, phases: Seq<PhaseNode>, output: Seq<String>) -> Seq<
    Seq<(Seq<char>, SpanStyle)>,
> {
    run_phases_lines(st, phases) + (if output.len() > 0 {
        seq![
            seq![("─────────────────"@, colored(Color::DarkGray))],
            seq![("Workflow Output:"@, bold(Color::White))],
            seq![],
        ] + output.map_values(|s: String| raw_line(s@))
    } else {
        seq![]
    })
}

/// The previews of the view of a running workflow can be cut: those of
/// folded phases, and of folded tasks of unfolded phases.
pub open spec fn run_previews_ok(st: TreeState, phases: Seq<PhaseNode>) -> bool {
    forall|k: int|
        0 <= k < phases.len() ==> {
            let p = #[trigger] phases[k];
            &&& preview_ok(phase_last_messages(p), st.expanded_phases@.contains(p.id), 40)
            &&& st.expanded_phases@.contains(p.id) ==> forall|j: int|
                0 <= j < p.tasks@.len() ==> preview_ok(
                    texts((#[trigger] p.tasks@[j]).messages@),
                    has_text(st.expanded_tasks@, p.tasks@[j].id@),
                    30,
                )
        }
}

/// The title of the view of a running workflow.
pub open spec fn running_title(name: Seq<char>, running: bool) -> Seq<char> {
    "Running: "@ + name + " "@ + if running {
        "[IN PROGRESS]"@
    } else {
        "[COMPLETED]"@
    }
}

/// The title of the view of a running workflow named `name`.
pub fn running_title_text(name: &str, running: bool) -> (res: String)
    ensures
        res@ == running_title(name@, running),
{
    let mut t = String::from_str("Running: ");
    push_str(&mut t, name);
    push_str(&mut t, " ");
    if running {
        push_str(&mut t, "[IN PROGRESS]");
    } else {
        push_str(&mut t, "[COMPLETED]");
    }
    t
}

fn push_run_agent_lines(lines: &mut Vec<StyledLine>, st: &TreeState, a: &AgentNode)
    ensures
        lines_view(final(lines)@) == lines_view(old(lines)@) + run_agent_lines(*st, *a),
{
    let ghost before = lines_view(lines@);
    let expanded = contains_text(&st.expanded_agents, a.id.as_str());
    push_line(lines, agent_head(st, a));
    let ghost after_head = lines_view(lines@);
    if expanded {
        push_messages(lines, &a.messages, "      ");
    } else if a.messages.len() > 0 {
        let mut l = line_of(String::from_str("      "), SpanStyle { fg: Color::Default, bg: Color::Default, bold: false, italic: false, reversed: false, underlined: false });
        l.push(a.messages[a.messages.len() - 1].clone(), SpanStyle { fg: Color::Gray, bg: Color::Default, bold: false, italic: false, reversed: false, underlined: false });
        assert(texts(a.messages@).last() == a.messages@[a.messages.len() - 1]@);
        assert(l@ =~= seq![("      "@, plain()), (texts(a.messages@).last(), colored(Color::Gray))]);
        push_line(lines, l);
    }
    assert(lines_view(lines@) =~= before + run_agent_lines(*st, *a));
}

fn push_run_task_lines(lines: &mut Vec<StyledLine>, st: &TreeState, phase_id: usize, t: &TaskNode)
    requires
        preview_ok(texts(t.messages@), has_text(st.expanded_tasks@, t.id@), 30),
    ensures
        lines_view(final(lines)@) == lines_view(old(lines)@) + run_task_lines(*st, phase_id, *t),
{
    let ghost before = lines_view(lines@);
    let expanded = contains_text(&st.expanded_tasks, t.id.as_str());
    push_line(lines, task_head(st, phase_id, t));
    if expanded {
        push_messages(lines, &t.messages, "    ");
        let ghost after_msgs = lines_view(lines@);
        let mut j: usize = 0;
        while j < t.agents.len()
            invariant
                j <= t.agents.len(),
                lines_view(lines@) == after_msgs + run_agents_lines(*st, t.agents@.take(j as int)),
            decreases t.agents.len() - j,
        {
            assert(t.agents@.take(j + 1).drop_last() =~= t.agents@.take(j as int));
            push_run_agent_lines(lines, st, &t.agents[j]);
            j = j + 1;
        }
        assert(t.agents@.take(t.agents@.len() as int) =~= t.agents@);
    }
    assert(lines_view(lines@) =~= before + run_task_lines(*st, phase_id, *t));
}

fn push_run_phase_lines(lines: &mut Vec<StyledLine>, st: &TreeState, p: &PhaseNode)
    requires
        preview_ok(phase_last_messages(*p), st.expanded_phases@.contains(p.id), 40),
        st.expanded_phases@.contains(p.id) ==> forall|j: int|
            0 <= j < p.tasks@.len() ==> preview_ok(
                texts((#[trigger] p.tasks@[j]).messages@),
                has_text(st.expanded_tasks@, p.tasks@[j].id@),
                30,
            ),
    ensures
        lines_view(final(lines)@) == lines_view(old(lines)@) + run_phase_lines(*st, *p),
{
    let ghost before = lines_view(lines@);
    let expanded = contains_id(&st.expanded_phases, p.id);
    push_line(lines, phase_head(st, p));
    let ghost after_head = lines_view(lines@);
    if expanded {
        let mut k: usize = 0;
        while k < p.tasks.len()
            invariant
                k <= p.tasks.len(),
                expanded,
                expanded == st.expanded_phases@.contains(p.id),
                st.expanded_phases@.contains(p.id) ==> forall|j: int|
                    0 <= j < p.tasks@.len() ==> preview_ok(
                        texts((#[trigger] p.tasks@[j]).messages@),
                        has_text(st.expanded_tasks@, p.tasks@[j].id@),
                        30,
                    ),
                lines_view(lines@) == after_head + run_tasks_lines(
                    *st,
                    p.id,
                    p.tasks@.take(k as int),
                ),
            decreases p.tasks.len() - k,
        {
            assert(p.tasks@.take(k + 1).drop_last() =~= p.tasks@.take(k as int));
            push_run_task_lines(lines, st, p.id, &p.tasks[k]);
            k = k + 1;
        }
        assert(p.tasks@.take(p.tasks@.len() as int) =~= p.tasks@);
        let ghost after_tasks = lines_view(lines@);
        let files = &p.output_files;
        if files.len() > 0 {
            let mut h = line_of(String::from_str("  "), SpanStyle { fg: Color::Default, bg: Color::Default, bold: false, italic: false, reversed: false, underlined: false });
            h.push(String::from_str("Output files:"), SpanStyle { fg: Color::White, bg: Color::Default, bold: false, italic: false, reversed: false, underlined: false });
            assert(h@ =~= seq![("  "@, plain()), ("Output files:"@, colored(Color::White))]);
            push_line(lines, h);
            let ghost after_h = lines_view(lines@);
            let mut j: usize = 0;
            while j < files.len()
                invariant
                    j <= files.len(),
                    lines_view(lines@) == after_h + files@.take(j as int).map_values(
                        |f: (String, String)|
                            seq![
                                ("    "@, plain()),
                                ("📄 "@ + f.0@, colored(Color::White)),
                                (" - "@, plain()),
                                (f.1@, colored(Color::Gray)),
                            ],
                    ),
                decreases files.len() - j,
            {
                let mut l = line_of(String::from_str("    "), SpanStyle { fg: Color::Default, bg: Color::Default, bold: false, italic: false, reversed: false, underlined: false });
                let mut path = String::from_str("📄 ");
                push_str(&mut path, files[j].0.as_str());
                l.push(path, SpanStyle { fg: Color::White, bg: Color::Default, bold: false, italic: false, reversed: false, underlined: false });
                l.push(String::from_str(" - "), SpanStyle { fg: Color::Default, bg: Color::Default, bold: false, italic: false, reversed: false, underlined: false });
                l.push(files[j].1.clone(), SpanStyle { fg: Color::Gray, bg: Color::Default, bold: false, italic: false, reversed: false, underlined: false });
                let ghost lv = l@;
                push_line(lines, l);
                proof {
                    let f = files@[j as int];
                    assert(lv =~= seq![
                        ("    "@, plain()),
                        ("📄 "@ + f.0@, colored(Color::White)),
                        (" - "@, plain()),
                        (f.1@, colored(Color::Gray)),
                    ]);
                    assert(files@.take(j + 1).map_values(
                        |f: (String, String)|
                            seq![
                                ("    "@, plain()),
                                ("📄 "@ + f.0@, colored(Color::White)),
                                (" - "@, plain()),
                                (f.1@, colored(Color::Gray)),
                            ],
                    ) =~= files@.take(j as int).map_values(
                        |f: (String, String)|
                            seq![
                                ("    "@, plain()),
                                ("📄 "@ + f.0@, colored(Color::White)),
                                (" - "@, plain()),
                                (f.1@, colored(Color::Gray)),
                            ],
                    ).push(lv));
                }
                j = j + 1;
            }
            assert(files@.take(files@.len() as int) =~= files@);
            assert(lines_view(lines@) =~= after_tasks + run_output_file_lines(files@));
        } else {
            assert(lines_view(lines@) =~= after_tasks + run_output_file_lines(files@));
        }
    }
    let ghost after_body = lines_view(lines@);
    push_line(lines, empty_line());
    assert(lines_view(lines@) =~= before + run_phase_lines(*st, *p));
}

/// The view of a running workflow: each phase's line, under an unfolded
/// phase its tasks and the files it wrote, under an unfolded task its
/// messages and agents, for each agent its last message (all of them when
/// unfolded), a blank line after each phase; then the workflow's output
/// under a rule and a heading when it printed anything.
pub fn running_view_lines(st: &TreeState, phases: &Vec<PhaseNode>, output: &Vec<String>) -> (res:
    Vec<StyledLine>)
    requires
        run_previews_ok(*st, phases@),
    ensures
        lines_view(res@) == running_lines(*st, phases@, output@),
{
    let mut lines: Vec<StyledLine> = Vec::new();
    assert(lines_view(lines@) =~= Seq::<Seq<(Seq<char>, SpanStyle)>>::empty());
    let mut i: usize = 0;
    while i < phases.len()
        invariant
            i <= phases.len(),
            run_previews_ok(*st, phases@),
            lines_view(lines@) == run_phases_lines(*st, phases@.take(i as int)),
        decreases phases.len() - i,
    {
        assert(phases@.take(i + 1).drop_last() =~= phases@.take(i as int));
        let ghost p = phases@[i as int];
        assert(preview_ok(phase_last_messages(p), st.expanded_phases@.contains(p.id), 40));
        push_run_phase_lines(&mut lines, st, &phases[i]);
        i = i + 1;
    }
    assert(phases@.take(phases@.len() as int) =~= phases@);
    let ghost after_phases = lines_view(lines@);
    if output.len() > 0 {
        push_line(&mut lines, line_of(String::from_str("─────────────────"), SpanStyle { fg: Color::DarkGray, bg: Color::Default, bold: false, italic: false, reversed: false, underlined: false }));
        push_line(&mut lines, line_of(String::from_str("Workflow Output:"), SpanStyle { fg: Color::White, bg: Color::Default, bold: true, italic: false, reversed: false, underlined: false }));
        push_line(&mut lines, empty_line());
        let ghost after_heading = lines_view(lines@);
        let mut k: usize = 0;
        while k < output.len()
            invariant
                k <= output.len(),
                lines_view(lines@) == after_heading + output@.take(k as int).map_values(
                    |s: String| raw_line(s@),
                ),
            decreases output.len() - k,
        {
            let l = text_line(output[k].as_str());
            let ghost lv = l@;
            push_line(&mut lines, l);
            assert(output@.take(k + 1).map_values(|s: String| raw_line(s@)) =~= output@.take(
                k as int,
            ).map_values(|s: String| raw_line(s@)).push(lv));
            k = k + 1;
        }
        assert(output@.take(output@.len() as int) =~= output@);
    }
    assert(lines_view(lines@) =~= running_lines(*st, phases@, output@));
    lines
}

} // verus!

verus! {

// ============================================================================
// Checking that previews can be cut
// ============================================================================

fn preview_computable(messages: &Vec<String>, expanded: bool, limit: usize) -> (r: bool)
    ensures
        r == preview_ok(texts(messages@), expanded, limit as nat),
{
    if !expanded && messages.len() > 0 {
        let last = &messages[messages.len() - 1];
        assert(texts(messages@).last() == last@);
        shortenable(last.as_str(), limit, limit)
    } else {
        true
    }
}

fn phase_preview_computable(st: &TreeState, p: &PhaseNode) -> (r: bool)
    ensures
        r == preview_ok(phase_last_messages(*p), st.expanded_phases@.contains(p.id), 40),
{
    let expanded = contains_id(&st.expanded_phases, p.id);
    if p.tasks.len() > 0 {
        preview_computable(&p.tasks[p.tasks.len() - 1].messages, expanded, 40)
    } else {
        true
    }
}

fn task_previews_computable(st: &TreeState, t: &TaskNode) -> (r: bool)
    ensures
        r == task_previews_ok(*st, *t),
{
    let expanded = contains_text(&st.expanded_tasks, t.id.as_str());
    if !preview_computable(&t.messages, expanded, 30) {
        return false;
    }
    if !expanded {
        return true;
    }
    let mut k: usize = 0;
    while k < t.agents.len()
        invariant
            k <= t.agents.len(),
            expanded == has_text(st.expanded_tasks@, t.id@),
            expanded,
            forall|q: int| 0 <= q < k ==> agent_previews_ok(*st, #[trigger] t.agents@[q]),
        decreases t.agents.len() - k,
    {
        let a = &t.agents[k];
        let a_expanded = contains_text(&st.expanded_agents, a.id.as_str());
        if !preview_computable(&a.messages, a_expanded, 50) {
            assert(!agent_previews_ok(*st, t.agents@[k as int]));
            return false;
        }
        k = k + 1;
    }
    true
}

fn phase_previews_computable(st: &TreeState, p: &PhaseNode) -> (r: bool)
    ensures
        r == phase_previews_ok(*st, *p),
{
    if !phase_preview_computable(st, p) {
        return false;
    }
    if !contains_id(&st.expanded_phases, p.id) {
        return true;
    }
    let mut k: usize = 0;
    while k < p.tasks.len()
        invariant
            k <= p.tasks.len(),
            st.expanded_phases@.contains(p.id),
            preview_ok(phase_last_messages(*p), st.expanded_phases@.contains(p.id), 40),
            forall|q: int| 0 <= q < k ==> task_previews_ok(*st, #[trigger] p.tasks@[q]),
        decreases p.tasks.len() - k,
    {
        if !task_previews_computable(st, &p.tasks[k]) {
            return false;
        }
        k = k + 1;
    }
    true
}

/// Whether every preview of the tab's tree can be cut (see
/// `tree_previews_ok`), as `tab_content_lines` needs.
pub fn tree_previews_computable(st: &TreeState, phases: &Vec<PhaseNode>) -> (r: bool)
    ensures
        r == tree_previews_ok(*st, phases@),
{
    let mut i: usize = 0;
    while i < phases.len()
        invariant
            i <= phases.len(),
            forall|q: int| 0 <= q < i ==> phase_previews_ok(*st, #[trigger] phases@[q]),
        decreases phases.len() - i,
    {
        if !phase_previews_computable(st, &phases[i]) {
            return false;
        }
        i = i + 1;
    }
    true
}

/// Whether every preview of the view of a running workflow can be cut (see
/// `run_previews_ok`), as `running_view_lines` needs.
pub fn run_previews_computable(st: &TreeState, phases: &Vec<PhaseNode>) -> (r: bool)
    ensures
        r == run_previews_ok(*st, phases@),
{
    let mut i: usize = 0;
    while i < phases.len()
        invariant
            i <= phases.len(),
            run_previews_ok(*st, phases@.take(i as int)),
        decreases phases.len() - i,
    {
        let p = &phases[i];
        if !phase_preview_computable(st, p) {
            assert(!run_previews_ok(*st, phases@)) by {
                assert(phases@[i as int] == *p);
            }
            return false;
        }
        if contains_id(&st.expanded_phases, p.id) {
            let mut k: usize = 0;
            while k < p.tasks.len()
                invariant
                    k <= p.tasks.len(),
                    i < phases.len(),
                    *p == phases@[i as int],
                    st.expanded_phases@.contains(p.id),
                    forall|q: int|
                        0 <= q < k ==> preview_ok(
                            texts((#[trigger] p.tasks@[q]).messages@),
                            has_text(st.expanded_tasks@, p.tasks@[q].id@),
                            30,
                        ),
                decreases p.tasks.len() - k,
            {
                let t = &p.tasks[k];
                let t_expanded = contains_text(&st.expanded_tasks, t.id.as_str());
                if !preview_computable(&t.messages, t_expanded, 30) {
                    assert(!run_previews_ok(*st, phases@)) by {
                        assert(phases@[i as int] == *p);
                        assert(p.tasks@[k as int] == *t);
                    }
                    return false;
                }
                k = k + 1;
            }
        }
        assert(run_previews_ok(*st, phases@.take(i + 1))) by {
            assert forall|q: int| 0 <= q < i + 1 implies {
                let ph = #[trigger] phases@.take(i + 1)[q];
                &&& preview_ok(phase_last_messages(ph), st.expanded_phases@.contains(ph.id), 40)
                &&& st.expanded_phases@.contains(ph.id) ==> forall|j: int|
                    0 <= j < ph.tasks@.len() ==> preview_ok(
                        texts((#[trigger] ph.tasks@[j]).messages@),
                        has_text(st.expanded_tasks@, ph.tasks@[j].id@),
                        30,
                    )
            } by {
                if q < i {
                    assert(phases@.take(i + 1)[q] == phases@.take(i as int)[q]);
                }
            }
        }
        i = i + 1;
    }
    assert(phases@.take(phases@.len() as int) =~= phases@);
    true
}

} // verus!
