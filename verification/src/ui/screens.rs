//! The fixed parts of the screen: the header, the key hints of the footer,
//! the notices shown over the tab view, and the notifications.
use vstd::prelude::*;

use crate::text::{push_str, shortened};
use crate::ui::styled::{
    bold, colored, empty_line, line_of, lines_view, plain, push_line, Color, SpanStyle, StyledLine,
};
use crate::ui::tree::raw_line;

verus! {

/// The screen being shown.
#[derive(Clone, Copy, Debug, PartialEq, Eq, Structural)]
pub enum Screen {
    WorkflowList,
    WorkflowDetail,
    WorkflowEdit,
    WorkflowRunning,
    Tabs,
    Chat,
}

/// The title in the header for a screen.
pub open spec fn header_title(s: Screen) -> Seq<char> {
    match s {
        Screen::WorkflowList => "Workflow Manager v0.2.0 - Workflows"@,
        Screen::WorkflowDetail => "Workflow Manager v0.2.0 - Workflow Detail"@,
        Screen::WorkflowEdit => "Workflow Manager v0.2.0 - Configure Workflow"@,
        Screen::WorkflowRunning => "Workflow Manager v0.2.0 - Running Workflow"@,
        Screen::Tabs => "Workflow Manager v0.2.0 - Running Workflows"@,
        Screen::Chat => "Workflow Manager v0.2.0 - AI Chat"@,
    }
}

/// The style of a key in the hints: bold.
pub open spec fn key_style() -> SpanStyle {
    bold(Color::Default)
}

/// The header: the screen's title and the key that quits.
pub open spec fn header_spans(s: Screen) -> Seq<(Seq<char>, SpanStyle)> {
    seq![
        (header_title(s), bold(Color::White)),
        ("      "@, plain()),
        ("[Q]"@, key_style()),
        ("uit"@, plain()),
    ]
}

/// The key hints of a screen, as (key, what it does) pairs.
pub open spec fn footer_keys(s: Screen, editing: bool) -> Seq<(Seq<char>, Seq<char>)> {
    match s {
        Screen::WorkflowList => seq![
            ("[↑↓]"@, " Navigate  "@),
            ("[Enter/V]"@, " View  "@),
            ("[Q]"@, " Quit"@),
        ],
        Screen::WorkflowDetail => seq![
            ("[E]"@, " Edit  "@),
            ("[Esc/B]"@, " Back  "@),
            ("[Q]"@, " Quit"@),
        ],
        Screen::WorkflowEdit => if editing {
            seq![
                ("TYPE"@, " to edit  "@),
                ("[Enter]"@, " Save  "@),
                ("[Esc]"@, " Cancel  "@),
                ("[Backspace]"@, " Delete"@),
            ]
        } else {
            seq![
                ("[↑↓]"@, " Navigate  "@),
                ("[Enter]"@, " Edit  "@),
                ("[L]"@, " Launch  "@),
                ("[Esc/B]"@, " Back  "@),
                ("[Q]"@, " Quit"@),
            ]
        },
        Screen::WorkflowRunning => seq![
            ("[↑↓/jk]"@, " Navigate  "@),
            ("[Enter]"@, " Expand/Collapse  "@),
            ("[Space]"@, " Toggle All  "@),
            ("[Esc/B]"@, " Back  "@),
            ("[Q]"@, " Quit"@),
        ],
        Screen::Tabs => seq![
            ("[↑↓/jk]"@, " Navigate  "@),
            ("[←→/hl]"@, " Scroll Agent  "@),
            ("[Enter]"@, " Expand  "@),
            ("[Space]"@, " Toggle All  "@),
            ("[Tab]"@, " Switch  "@),
            ("[E]"@, " Edit  "@),
            ("[R]"@, " Rerun  "@),
            ("[C]"@, " Close  "@),
            ("[A]"@, " AI Chat  "@),
            ("[Q]"@, " Quit"@),
        ],
        Screen::Chat => seq![
            ("[↑↓]"@, " Scroll  "@),
            ("[Enter]"@, " Send  "@),
            ("[Esc]"@, " Back  "@),
            ("[Ctrl+Q]"@, " Quit"@),
        ],
    }
}

/// The spans of key hints: each key in bold, then what it does; the `TYPE`
/// hint of the form being edited is also white.
pub open spec fn key_spans(keys: Seq<(Seq<char>, Seq<char>)>) -> Seq<(Seq<char>, SpanStyle)>
    decreases keys.len(),
{
    if keys.len() == 0 {
        seq![]
    } else {
        let k = keys.last();
        key_spans(keys.drop_last()) + seq![
            (k.0, if k.0 == "TYPE"@ {
                bold(Color::White)
            } else {
                key_style()
            }),
            (k.1, plain()),
        ]
    }
}

/// The footer of a screen (`editing`: a field of the form is being edited).
pub open spec fn footer_spans(s: Screen, editing: bool) -> Seq<(Seq<char>, SpanStyle)> {
    key_spans(footer_keys(s, editing))
}

/// The header line of a screen.
pub fn header_line(s: Screen) -> (res: StyledLine)
    ensures
        res@ == header_spans(s),
{
    let title = match s {
        Screen::WorkflowList => String::from_str("Workflow Manager v0.2.0 - Workflows"),
        Screen::WorkflowDetail => String::from_str("Workflow Manager v0.2.0 - Workflow Detail"),
        Screen::WorkflowEdit => String::from_str("Workflow Manager v0.2.0 - Configure Workflow"),
        Screen::WorkflowRunning => String::from_str("Workflow Manager v0.2.0 - Running Workflow"),
        Screen::Tabs => String::from_str("Workflow Manager v0.2.0 - Running Workflows"),
        Screen::Chat => String::from_str("Workflow Manager v0.2.0 - AI Chat"),
    };
    let mut l = line_of(title, SpanStyle { fg: Color::White, bg: Color::Default, bold: true, italic: false, reversed: false, underlined: false });
    l.push(String::from_str("      "), SpanStyle { fg: Color::Default, bg: Color::Default, bold: false, italic: false, reversed: false, underlined: false });
    l.push(String::from_str("[Q]"), SpanStyle { fg: Color::Default, bg: Color::Default, bold: true, italic: false, reversed: false, underlined: false });
    l.push(String::from_str("uit"), SpanStyle { fg: Color::Default, bg: Color::Default, bold: false, italic: false, reversed: false, underlined: false });
    assert(l@ =~= header_spans(s));
    l
}

fn key_pair(line: &mut StyledLine, keys: Ghost<Seq<(Seq<char>, Seq<char>)>>, k: &str, what: &str)
    requires
        old(line)@ == key_spans(keys@),
        k@.len() > 0,
        k@[0] == '[',
    ensures
        final(line)@ == key_spans(keys@.push((k@, what@))),
{
    assert(k@ != "TYPE"@) by {
        reveal_strlit("TYPE");
        assert("TYPE"@[0] == 'T');
    }
    line.push(String::from_str(k), SpanStyle { fg: Color::Default, bg: Color::Default, bold: true, italic: false, reversed: false, underlined: false });
    line.push(String::from_str(what), SpanStyle { fg: Color::Default, bg: Color::Default, bold: false, italic: false, reversed: false, underlined: false });
    assert(keys@.push((k@, what@)).drop_last() =~= keys@);
    assert(final(line)@ =~= key_spans(keys@.push((k@, what@))));
}

/// The footer line of a screen: its key hints.
pub fn footer_line(s: Screen, editing: bool) -> (res: StyledLine)
    ensures
        res@ == footer_spans(s, editing),
{
    let mut l = empty_line();
    let ghost mut ks: Seq<(Seq<char>, Seq<char>)> = seq![];
    assert(l@ =~= key_spans(ks));
    proof {
        reveal_strlit("TYPE");
        reveal_strlit("[↑↓]");
        reveal_strlit("[Enter/V]");
        reveal_strlit("[Q]");
        reveal_strlit("[E]");
        reveal_strlit("[Esc/B]");
        reveal_strlit("[Enter]");
        reveal_strlit("[Esc]");
        reveal_strlit("[Backspace]");
        reveal_strlit("[L]");
        reveal_strlit("[↑↓/jk]");
        reveal_strlit("[Space]");
        reveal_strlit("[←→/hl]");
        reveal_strlit("[Tab]");
        reveal_strlit("[R]");
        reveal_strlit("[C]");
        reveal_strlit("[A]");
        reveal_strlit("[Ctrl+Q]");
    }
    match s {
        Screen::WorkflowList => {
            key_pair(&mut l, Ghost(ks), "[↑↓]", " Navigate  ");
            proof { ks = ks.push(("[↑↓]"@, " Navigate  "@)); }
            key_pair(&mut l, Ghost(ks), "[Enter/V]", " View  ");
            proof { ks = ks.push(("[Enter/V]"@, " View  "@)); }
            key_pair(&mut l, Ghost(ks), "[Q]", " Quit");
            proof { ks = ks.push(("[Q]"@, " Quit"@)); }
        },
        Screen::WorkflowDetail => {
            key_pair(&mut l, Ghost(ks), "[E]", " Edit  ");
            proof { ks = ks.push(("[E]"@, " Edit  "@)); }
            key_pair(&mut l, Ghost(ks), "[Esc/B]", " Back  ");
            proof { ks = ks.push(("[Esc/B]"@, " Back  "@)); }
            key_pair(&mut l, Ghost(ks), "[Q]", " Quit");
            proof { ks = ks.push(("[Q]"@, " Quit"@)); }
        },
        Screen::WorkflowEdit => {
            if editing {
                l.push(String::from_str("TYPE"), SpanStyle { fg: Color::White, bg: Color::Default, bold: true, italic: false, reversed: false, underlined: false });
                l.push(String::from_str(" to edit  "), SpanStyle { fg: Color::Default, bg: Color::Default, bold: false, italic: false, reversed: false, underlined: false });
                proof {
                    let nk = ks.push(("TYPE"@, " to edit  "@));
                    assert(nk.drop_last() =~= ks);
                    ks = nk;
                }
                assert(l@ =~= key_spans(ks));
                key_pair(&mut l, Ghost(ks), "[Enter]", " Save  ");
                proof { ks = ks.push(("[Enter]"@, " Save  "@)); }
                key_pair(&mut l, Ghost(ks), "[Esc]", " Cancel  ");
                proof { ks = ks.push(("[Esc]"@, " Cancel  "@)); }
                key_pair(&mut l, Ghost(ks), "[Backspace]", " Delete");
                proof { ks = ks.push(("[Backspace]"@, " Delete"@)); }
            } else {
                key_pair(&mut l, Ghost(ks), "[↑↓]", " Navigate  ");
                proof { ks = ks.push(("[↑↓]"@, " Navigate  "@)); }
                key_pair(&mut l, Ghost(ks), "[Enter]", " Edit  ");
                proof { ks = ks.push(("[Enter]"@, " Edit  "@)); }
                key_pair(&mut l, Ghost(ks), "[L]", " Launch  ");
                proof { ks = ks.push(("[L]"@, " Launch  "@)); }
                key_pair(&mut l, Ghost(ks), "[Esc/B]", " Back  ");
                proof { ks = ks.push(("[Esc/B]"@, " Back  "@)); }
                key_pair(&mut l, Ghost(ks), "[Q]", " Quit");
                proof { ks = ks.push(("[Q]"@, " Quit"@)); }
            }
        },
        Screen::WorkflowRunning => {
            key_pair(&mut l, Ghost(ks), "[↑↓/jk]", " Navigate  ");
            proof { ks = ks.push(("[↑↓/jk]"@, " Navigate  "@)); }
            key_pair(&mut l, Ghost(ks), "[Enter]", " Expand/Collapse  ");
            proof { ks = ks.push(("[Enter]"@, " Expand/Collapse  "@)); }
            key_pair(&mut l, Ghost(ks), "[Space]", " Toggle All  ");
            proof { ks = ks.push(("[Space]"@, " Toggle All  "@)); }
            key_pair(&mut l, Ghost(ks), "[Esc/B]", " Back  ");
            proof { ks = ks.push(("[Esc/B]"@, " Back  "@)); }
            key_pair(&mut l, Ghost(ks), "[Q]", " Quit");
            proof { ks = ks.push(("[Q]"@, " Quit"@)); }
        },
        Screen::Tabs => {
            key_pair(&mut l, Ghost(ks), "[↑↓/jk]", " Navigate  ");
            proof { ks = ks.push(("[↑↓/jk]"@, " Navigate  "@)); }
            key_pair(&mut l, Ghost(ks), "[←→/hl]", " Scroll Agent  ");
            proof { ks = ks.push(("[←→/hl]"@, " Scroll Agent  "@)); }
            key_pair(&mut l, Ghost(ks), "[Enter]", " Expand  ");
            proof { ks = ks.push(("[Enter]"@, " Expand  "@)); }
            key_pair(&mut l, Ghost(ks), "[Space]", " Toggle All  ");
            proof { ks = ks.push(("[Space]"@, " Toggle All  "@)); }
            key_pair(&mut l, Ghost(ks), "[Tab]", " Switch  ");
            proof { ks = ks.push(("[Tab]"@, " Switch  "@)); }
            key_pair(&mut l, Ghost(ks), "[E]", " Edit  ");
            proof { ks = ks.push(("[E]"@, " Edit  "@)); }
            key_pair(&mut l, Ghost(ks), "[R]", " Rerun  ");
            proof { ks = ks.push(("[R]"@, " Rerun  "@)); }
            key_pair(&mut l, Ghost(ks), "[C]", " Close  ");
            proof { ks = ks.push(("[C]"@, " Close  "@)); }
            key_pair(&mut l, Ghost(ks), "[A]", " AI Chat  ");
            proof { ks = ks.push(("[A]"@, " AI Chat  "@)); }
            key_pair(&mut l, Ghost(ks), "[Q]", " Quit");
            proof { ks = ks.push(("[Q]"@, " Quit"@)); }
        },
        Screen::Chat => {
            key_pair(&mut l, Ghost(ks), "[↑↓]", " Scroll  ");
            proof { ks = ks.push(("[↑↓]"@, " Scroll  "@)); }
            key_pair(&mut l, Ghost(ks), "[Enter]", " Send  ");
            proof { ks = ks.push(("[Enter]"@, " Send  "@)); }
            key_pair(&mut l, Ghost(ks), "[Esc]", " Back  ");
            proof { ks = ks.push(("[Esc]"@, " Back  "@)); }
            key_pair(&mut l, Ghost(ks), "[Ctrl+Q]", " Quit");
            proof { ks = ks.push(("[Ctrl+Q]"@, " Quit"@)); }
        },
    }
    assert(ks =~= footer_keys(s, editing));
    l
}


// ============================================================================
// Notices of the tab view
// ============================================================================

/// What the tab view shows when no workflow is open.
pub open spec fn empty_tabs_notice() -> Seq<Seq<(Seq<char>, SpanStyle)>> {
    seq![
        seq![],
        seq![],
        seq![],
        seq![("No workflows running"@, bold(Color::Gray))],
        seq![],
        seq![("Press [Ctrl+T] or click [+ New]"@, colored(Color::White))],
        seq![("to start a new workflow"@, colored(Color::White))],
    ]
}

/// What the tab view asks before closing a running workflow.
pub open spec fn close_confirmation_notice() -> Seq<Seq<(Seq<char>, SpanStyle)>> {
    seq![
        seq![],
        seq![("Close Running Workflow?"@, bold(Color::Yellow))],
        seq![],
        seq![("This workflow is still running."@, colored(Color::White))],
        seq![("Closing will kill the process."@, colored(Color::White))],
        seq![],
        seq![
            ("[Y]"@, bold(Color::White)),
            (" Yes  "@, plain()),
            ("[N]"@, bold(Color::Red)),
            (" No"@, plain()),
        ],
    ]
}

/// The lines shown when no workflow is open.
pub fn empty_tabs_lines() -> (res: Vec<StyledLine>)
    ensures
        lines_view(res@) == empty_tabs_notice(),
{
    let mut lines: Vec<StyledLine> = Vec::new();
    push_line(&mut lines, empty_line());
    push_line(&mut lines, empty_line());
    push_line(&mut lines, empty_line());
    push_line(&mut lines, line_of(String::from_str("No workflows running"), SpanStyle { fg: Color::Gray, bg: Color::Default, bold: true, italic: false, reversed: false, underlined: false }));
    push_line(&mut lines, empty_line());
    push_line(&mut lines, line_of(String::from_str("Press [Ctrl+T] or click [+ New]"), SpanStyle { fg: Color::White, bg: Color::Default, bold: false, italic: false, reversed: false, underlined: false }));
    push_line(&mut lines, line_of(String::from_str("to start a new workflow"), SpanStyle { fg: Color::White, bg: Color::Default, bold: false, italic: false, reversed: false, underlined: false }));
    assert(lines_view(lines@) =~= empty_tabs_notice());
    lines
}

/// The lines that ask before closing a running workflow.
pub fn close_confirmation_lines() -> (res: Vec<StyledLine>)
    ensures
        lines_view(res@) == close_confirmation_notice(),
{
    let mut lines: Vec<StyledLine> = Vec::new();
    push_line(&mut lines, empty_line());
    push_line(&mut lines, line_of(String::from_str("Close Running Workflow?"), SpanStyle { fg: Color::Yellow, bg: Color::Default, bold: true, italic: false, reversed: false, underlined: false }));
    push_line(&mut lines, empty_line());
    push_line(&mut lines, line_of(String::from_str("This workflow is still running."), SpanStyle { fg: Color::White, bg: Color::Default, bold: false, italic: false, reversed: false, underlined: false }));
    push_line(&mut lines, line_of(String::from_str("Closing will kill the process."), SpanStyle { fg: Color::White, bg: Color::Default, bold: false, italic: false, reversed: false, underlined: false }));
    push_line(&mut lines, empty_line());
    let mut answer = line_of(String::from_str("[Y]"), SpanStyle { fg: Color::White, bg: Color::Default, bold: true, italic: false, reversed: false, underlined: false });
    answer.push(String::from_str(" Yes  "), SpanStyle { fg: Color::Default, bg: Color::Default, bold: false, italic: false, reversed: false, underlined: false });
    answer.push(String::from_str("[N]"), SpanStyle { fg: Color::Red, bg: Color::Default, bold: true, italic: false, reversed: false, underlined: false });
    answer.push(String::from_str(" No"), SpanStyle { fg: Color::Default, bg: Color::Default, bold: false, italic: false, reversed: false, underlined: false });
    assert(answer@ =~= close_confirmation_notice()[6]);
    push_line(&mut lines, answer);
    assert(lines_view(lines@) =~= close_confirmation_notice());
    lines
}

// ============================================================================
// What the main area shows
// ============================================================================

/// What is drawn in the main area of the screen.
#[derive(Clone, Copy, Debug, PartialEq, Eq, Structural)]
pub enum MainContent {
    /// The notice that no workflow is open.
    EmptyTabs,
    /// The content of the open tab at this position.
    Tab(usize),
    /// Nothing: the active tab is not among the open ones.
    Nothing,
    /// The screen itself (any screen but the tab view).
    View(Screen),
}

/// The layout of the main area: whether the tab bar is shown above it (on
/// the tab view, and while a new tab is being set up), and what it holds.
pub open spec fn main_layout_spec(screen: Screen, in_new_tab_flow: bool, open_tabs: usize, active: usize) -> (
    bool,
    MainContent,
) {
    let tab_mode = screen == Screen::Tabs || in_new_tab_flow;
    (
        tab_mode,
        if screen == Screen::Tabs {
            if open_tabs == 0 {
                MainContent::EmptyTabs
            } else if active < open_tabs {
                MainContent::Tab(active)
            } else {
                MainContent::Nothing
            }
        } else {
            MainContent::View(screen)
        },
    )
}

/// The layout of the main area (see `main_layout_spec`).
pub fn main_layout(screen: Screen, in_new_tab_flow: bool, open_tabs: usize, active: usize) -> (r: (
    bool,
    MainContent,
))
    ensures
        r == main_layout_spec(screen, in_new_tab_flow, open_tabs, active),
{
    let on_tabs = match screen {
        Screen::Tabs => true,
        _ => false,
    };
    let tab_mode = on_tabs || in_new_tab_flow;
    let content = if on_tabs {
        if open_tabs == 0 {
            MainContent::EmptyTabs
        } else if active < open_tabs {
            MainContent::Tab(active)
        } else {
            MainContent::Nothing
        }
    } else {
        MainContent::View(screen)
    };
    (tab_mode, content)
}

// ============================================================================
// Notifications
// ============================================================================

/// How serious a notification is.
#[derive(Clone, Copy, Debug, PartialEq, Eq, Structural)]
pub enum NotificationLevel {
    Error,
    Warning,
    Info,
    Success,
}

/// The background colour, text colour and icon of a level.
pub open spec fn level_look(l: NotificationLevel) -> (Color, Color, Seq<char>) {
    match l {
        NotificationLevel::Error => (Color::Red, Color::White, "✗"@),
        NotificationLevel::Warning => (Color::Yellow, Color::Black, "⚠"@),
        NotificationLevel::Info => (Color::Blue, Color::White, "ℹ"@),
        NotificationLevel::Success => (Color::Green, Color::White, "✓"@),
    }
}

/// The two lines of a notification: its icon and title on the level's
/// colours, and its message.
pub open spec fn notification_lines_spec(level: NotificationLevel, title: Seq<char>, message: Seq<
    char,
>) -> Seq<Seq<(Seq<char>, SpanStyle)>> {
    let look = level_look(level);
    seq![
        seq![
            (look.2 + " "@ + title + " "@, SpanStyle {
                fg: look.1,
                bg: look.0,
                bold: true,
                italic: false,
                reversed: false,
                underlined: false,
            }),
        ],
        raw_line(message),
    ]
}

/// The height of the notification area for `n` active notifications:
/// three rows each, nine at most.
pub fn notification_height(n: usize) -> (h: usize)
    ensures
        h == if n < 3 {
            3 * n
        } else {
            9
        },
{
    if n < 3 {
        3 * n
    } else {
        9
    }
}

/// The lines of one notification (see `notification_lines_spec`).
pub fn notification_lines(level: NotificationLevel, title: &str, message: &str) -> (res: Vec<
    StyledLine,
>)
    ensures
        lines_view(res@) == notification_lines_spec(level, title@, message@),
{
    let (bg, fg, icon) = match level {
        NotificationLevel::Error => (Color::Red, Color::White, "✗"),
        NotificationLevel::Warning => (Color::Yellow, Color::Black, "⚠"),
        NotificationLevel::Info => (Color::Blue, Color::White, "ℹ"),
        NotificationLevel::Success => (Color::Green, Color::White, "✓"),
    };
    assert(icon@ == level_look(level).2);
    let mut head = String::from_str(icon);
    push_str(&mut head, " ");
    push_str(&mut head, title);
    push_str(&mut head, " ");
    let mut lines: Vec<StyledLine> = Vec::new();
    push_line(&mut lines, line_of(head, SpanStyle { fg, bg, bold: true, italic: false, reversed: false, underlined: false }));
    push_line(&mut lines, crate::ui::tree::text_line(message));
    assert(lines_view(lines@) =~= notification_lines_spec(level, title@, message@));
    lines
}

} // verus!
