//! The bar of open workflow tabs: which tabs fit, from which one on, and
//! how each is labelled.
use vstd::prelude::*;

use crate::text::{
    can_shorten, decimal, push_decimal, push_str, shorten, shortenable, shortened, utf8_len,
    utf8_length,
};
use crate::ui::styled::{bold, colored, empty_line, line_of, plain, Color, SpanStyle, StyledLine};
use crate::ui::tree::RunStatus;

verus! {

/// What the tab bar shows of an open workflow.
pub struct TabSummary {
    /// The workflow's name.
    pub name: String,
    /// Which run of the workflow this tab holds (`#n`).
    pub instance: usize,
    pub status: RunStatus,
}

/// The icon of a tab's state.
pub open spec fn tab_icon(s: RunStatus) -> Seq<char> {
    match s {
        RunStatus::Running => "●"@,
        RunStatus::Completed => "✓"@,
        RunStatus::Failed => "✗"@,
        RunStatus::NotStarted => "○"@,
    }
}

/// The title of a tab: its name (cut to seven bytes and `...` when longer
/// than ten), its run number and its state.
pub open spec fn tab_title(t: TabSummary) -> Seq<char> {
    "[ "@ + shortened(t.name@, 10, 7) + " #"@ + decimal(t.instance as nat) + " "@ + tab_icon(t.status)
        + " ]"@
}

/// The room a tab is counted to take when the bar scrolls.
pub open spec fn tab_room(t: TabSummary) -> nat {
    utf8_len(t.name@) + 5
}

/// Scanning the first `n` tabs: the first tab shown and the room taken since
/// it. A tab that does not fit in `half` after the room taken moves the
/// start past it.
pub open spec fn scan_first(tabs: Seq<TabSummary>, n: nat, half: nat) -> (nat, nat)
    decreases n,
{
    if n == 0 || n > tabs.len() {
        (0, 0)
    } else {
        let prev = scan_first(tabs, (n - 1) as nat, half);
        let w = tab_room(tabs[n - 1]);
        if prev.1 + w > half {
            (n, 0)
        } else {
            (prev.0, prev.1 + w)
        }
    }
}

/// The first tab shown: the tabs before the active one are scanned.
pub open spec fn first_visible(tabs: Seq<TabSummary>, active: nat, half: nat) -> nat {
    scan_first(tabs, if active < tabs.len() {
        active
    } else {
        tabs.len()
    }, half).0
}

/// The style of a tab's title.
pub open spec fn tab_style(active: bool) -> SpanStyle {
    if active {
        SpanStyle {
            fg: Color::White,
            bg: Color::DarkGray,
            bold: true,
            italic: false,
            reversed: false,
            underlined: false,
        }
    } else {
        colored(Color::Gray)
    }
}

/// The spans of the tabs from `i` on, after `used` bytes of spans: each tab's
/// title and a space; the tab after which the spans exceed `max` bytes is
/// the last one shown.
pub open spec fn bar_from(tabs: Seq<TabSummary>, i: nat, active: nat, max: nat, used: nat) -> Seq<
    (Seq<char>, SpanStyle),
>
    decreases tabs.len() - i,
{
    if i >= tabs.len() {
        seq![]
    } else {
        let title = tab_title(tabs[i as int]);
        let here = seq![(title, tab_style(i == active)), (" "@, plain())];
        let now = used + utf8_len(title) + 1;
        if now > max {
            here
        } else {
            here + bar_from(tabs, i + 1, active, max, now)
        }
    }
}

/// The tab line for a bar `width` columns wide: the tabs that fit, from the
/// first shown, then the button that opens a new one.
pub open spec fn tab_bar(tabs: Seq<TabSummary>, active: nat, width: nat) -> Seq<
    (Seq<char>, SpanStyle),
> {
    let max = (width - 10) as nat;
    bar_from(tabs, first_visible(tabs, active, max / 2), active, max, 0) + seq![
        (" "@, plain()),
        ("[+ New]"@, bold(Color::White)),
    ]
}

/// Every tab name longer than ten bytes can be cut at seven.
pub open spec fn tab_names_ok(tabs: Seq<TabSummary>) -> bool {
    forall|k: int| 0 <= k < tabs.len() ==> can_shorten((#[trigger] tabs[k]).name@, 10, 7)
}

/// Whether every tab name can be cut as the tab bar does (see
/// `tab_names_ok`), as `tab_bar_line` needs.
pub fn tab_names_computable(tabs: &Vec<TabSummary>) -> (r: bool)
    ensures
        r == tab_names_ok(tabs@),
{
    let mut i: usize = 0;
    while i < tabs.len()
        invariant
            i <= tabs.len(),
            forall|k: int| 0 <= k < i ==> can_shorten((#[trigger] tabs@[k]).name@, 10, 7),
        decreases tabs.len() - i,
    {
        if !shortenable(tabs[i].name.as_str(), 10, 7) {
            return false;
        }
        i = i + 1;
    }
    true
}

fn tab_title_text(t: &TabSummary) -> (res: String)
    requires
        can_shorten(t.name@, 10, 7),
    ensures
        res@ == tab_title(*t),
{
    let mut s = String::from_str("[ ");
    let short = shorten(t.name.as_str(), 10, 7);
    push_str(&mut s, short.as_str());
    push_str(&mut s, " #");
    push_decimal(&mut s, t.instance as u64);
    push_str(&mut s, " ");
    match t.status {
        RunStatus::Running => push_str(&mut s, "●"),
        RunStatus::Completed => push_str(&mut s, "✓"),
        RunStatus::Failed => push_str(&mut s, "✗"),
        RunStatus::NotStarted => push_str(&mut s, "○"),
    }
    push_str(&mut s, " ]");
    s
}

/// The first tab shown in a bar whose scroll room is `half` bytes.
fn first_visible_index(tabs: &Vec<TabSummary>, active: usize, half: usize) -> (r: usize)
    ensures
        r as nat == first_visible(tabs@, active as nat, half as nat),
        r <= tabs@.len(),
{
    let n = if active < tabs.len() {
        active
    } else {
        tabs.len()
    };
    let mut first: usize = 0;
    let mut used: u128 = 0;
    let mut i: usize = 0;
    while i < n
        invariant
            i <= n <= tabs@.len(),
            first <= i,
            (first as nat, used as nat) == scan_first(tabs@, i as nat, half as nat),
            used <= half,
        decreases n - i,
    {
        let w = utf8_length(tabs[i].name.as_str()) + 5;
        if used + w > half as u128 {
            first = i + 1;
            used = 0;
        } else {
            used = used + w;
        }
        i = i + 1;
    }
    first
}

/// The tab line of a bar `width` columns wide (see `tab_bar`).
pub fn tab_bar_line(tabs: &Vec<TabSummary>, active: usize, width: usize) -> (res: StyledLine)
    requires
        width >= 10,
        tab_names_ok(tabs@),
    ensures
        res@ == tab_bar(tabs@, active as nat, width as nat),
{
    let max = width - 10;
    let first = first_visible_index(tabs, active, max / 2);
    let mut line = empty_line();
    let ghost whole = bar_from(tabs@, first as nat, active as nat, max as nat, 0);
    let mut used: u128 = 0;
    let mut i = first;
    loop
        invariant_except_break
            line@ + bar_from(tabs@, i as nat, active as nat, max as nat, used as nat) == whole,
            used <= max,
        invariant
            first <= i <= tabs@.len(),
            tab_names_ok(tabs@),
            whole == bar_from(tabs@, first as nat, active as nat, max as nat, 0),
        ensures
            line@ == whole,
        decreases tabs@.len() - i,
    {
        if i >= tabs.len() {
            assert(line@ =~= whole);
            break;
        }
        assert(can_shorten(tabs@[i as int].name@, 10, 7));
        let title = tab_title_text(&tabs[i]);
        let w = utf8_length(title.as_str());
        let ghost tv = title@;
        let style = if i == active {
            SpanStyle { fg: Color::White, bg: Color::DarkGray, bold: true, italic: false, reversed: false, underlined: false }
        } else {
            SpanStyle { fg: Color::Gray, bg: Color::Default, bold: false, italic: false, reversed: false, underlined: false }
        };
        let ghost before = line@;
        line.push(title, style);
        line.push(String::from_str(" "), SpanStyle { fg: Color::Default, bg: Color::Default, bold: false, italic: false, reversed: false, underlined: false });
        let now = used + w + 1;
        if now > max as u128 {
            assert(line@ =~= whole);
            break;
        }
        proof {
            let rest = bar_from(tabs@, (i + 1) as nat, active as nat, max as nat, now as nat);
            assert(bar_from(tabs@, i as nat, active as nat, max as nat, used as nat) == seq![
                (tv, tab_style(i == active)),
                (" "@, plain()),
            ] + rest);
            assert(line@ + rest =~= before + bar_from(
                tabs@,
                i as nat,
                active as nat,
                max as nat,
                used as nat,
            ));
        }
        used = now;
        i = i + 1;
    }
    line.push(String::from_str(" "), SpanStyle { fg: Color::Default, bg: Color::Default, bold: false, italic: false, reversed: false, underlined: false });
    line.push(String::from_str("[+ New]"), SpanStyle { fg: Color::White, bg: Color::Default, bold: true, italic: false, reversed: false, underlined: false });
    assert(line@ =~= tab_bar(tabs@, active as nat, width as nat));
    line
}

/// The title of an open tab's content: its workflow's name and run number.
pub fn tab_content_title(t: &TabSummary) -> (res: String)
    ensures
        res@ == " "@ + t.name@ + " #"@ + decimal(t.instance as nat) + " "@,
{
    let mut s = String::from_str(" ");
    push_str(&mut s, t.name.as_str());
    push_str(&mut s, " #");
    push_decimal(&mut s, t.instance as u64);
    push_str(&mut s, " ");
    s
}

/// The rule under the tab line: `width` heavy horizontal lines.
pub fn tab_separator(width: usize) -> (res: StyledLine)
    ensures
        res@ == seq![(Seq::new(width as nat, |i: int| '━'), plain())],
{
    let mut s = String::new();
    let mut i: usize = 0;
    while i < width
        invariant
            i <= width,
            s@ == Seq::new(i as nat, |k: int| '━'),
        decreases width - i,
    {
        crate::text::string_push(&mut s, '━');
        assert(s@ =~= Seq::new((i + 1) as nat, |k: int| '━'));
        i = i + 1;
    }
    line_of(s, SpanStyle { fg: Color::Default, bg: Color::Default, bold: false, italic: false, reversed: false, underlined: false })
}

} // verus!
