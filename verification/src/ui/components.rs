//! The dropdown under a form field (history or path completion) and the
//! file browser with its fuzzy search.
use vstd::prelude::*;

use fuzzy_matcher::skim::SkimMatcherV2;
use ratatui::layout::{Constraint, Direction, Layout, Rect};
use fuzzy_matcher::FuzzyMatcher;

use crate::text::push_str;
use crate::ui::styled::{colored, line_of, lines_view, plain, push_line, Color, SpanStyle, StyledLine};

verus! {

/// A rectangle of the terminal, in cells.
#[derive(Clone, Copy, Debug, PartialEq, Eq, Structural)]
pub struct Area {
    pub x: u16,
    pub y: u16,
    pub width: u16,
    pub height: u16,
}

/// The rectangle `a` as (x, y, width, height).
pub open spec fn area_parts(a: Area) -> (u16, u16, u16, u16) {
    (a.x, a.y, a.width, a.height)
}

/// Holds of `part` when the `ratatui` layout solver may give it as the
/// middle of three parts into which it cuts `area` (x, y, width, height)
/// along one direction (rows when `vertical`), with the percentage
/// constraints `outer`, `middle`, `outer`. This is a relation, not a
/// function of its first four arguments: where the constraints leave room,
/// the documentation calls the solver's choice indeterminate, and two calls
/// may give different parts.
pub uninterp spec fn layout_middle_part(
    area: (u16, u16, u16, u16),
    vertical: bool,
    outer: u16,
    middle: u16,
    part: (u16, u16, u16, u16),
) -> bool;

/// The middle of three parts into which the `ratatui` layout solver cuts
/// `area` along one direction (rows when `vertical`), with the percentage
/// constraints `outer`, `middle`, `outer` (`Layout::split` with no margin).
/// The rectangle is handed over as it is, not through `Rect::new` (which
/// would clamp its extent to the `u16` range). Claims that the result is a
/// part the solver gave for these arguments (`layout_middle_part`) and, as
/// `Rect::inner` with no margin and `changes_to_rects` in `ratatui-core`
/// show, that across the cut it keeps the extent of `area`: the column and
/// width of a row, the row and height of a column. Where along the cut the
/// part lies is not claimed: the solver's rounding is not documented and its
/// choice may differ between calls.
#[verifier::external_body]
fn layout_middle(area: Area, vertical: bool, outer: u16, middle: u16) -> (part: Area)
    ensures
        layout_middle_part(area_parts(area), vertical, outer, middle, area_parts(part)),
        vertical ==> part.x == area.x && part.width == area.width,
        !vertical ==> part.y == area.y && part.height == area.height,
{
    let direction = if vertical { Direction::Vertical } else { Direction::Horizontal };
    let parts = Layout::default()
        .direction(direction)
        .constraints([Constraint::Percentage(outer), Constraint::Percentage(middle), Constraint::Percentage(outer)])
        .split(Rect { x: area.x, y: area.y, width: area.width, height: area.height });
    Area { x: parts[1].x, y: parts[1].y, width: parts[1].width, height: parts[1].height }
}

/// `res` is a popup centred in `r` as the layout solver places it: there is
/// a row of `r`, the middle of a vertical cut into (100 - `percent_y`) / 2,
/// `percent_y` and (100 - `percent_y`) / 2 percent, spanning `r`'s columns,
/// and `res` is the middle of that row cut the same way across its width by
/// `percent_x`, on the row's lines.
pub open spec fn centered_in(r: Area, percent_x: u16, percent_y: u16, res: Area) -> bool {
    exists|row: Area|
        #[trigger] layout_middle_part(
            area_parts(r),
            true,
            ((100 - percent_y) / 2) as u16,
            percent_y,
            area_parts(row),
        ) && row.x == r.x && row.width == r.width && layout_middle_part(
            area_parts(row),
            false,
            ((100 - percent_x) / 2) as u16,
            percent_x,
            area_parts(res),
        ) && res.y == row.y && res.height == row.height
}

/// A popup centred in `r`, `percent_x` of its width and `percent_y` of its
/// height: the middle row of a cut into (100 - p) / 2, p and (100 - p) / 2
/// percent of the height, then the middle column of that row cut the same
/// way across its width. The cuts are the layout solver's.
pub fn centered_rect(percent_x: u16, percent_y: u16, r: Area) -> (res: Area)
    requires
        percent_x <= 100,
        percent_y <= 100,
    ensures
        centered_in(r, percent_x, percent_y, res),
{
    let row = layout_middle(r, true, (100 - percent_y) / 2, percent_y);
    let res = layout_middle(row, false, (100 - percent_x) / 2, percent_x);
    assert(layout_middle_part(area_parts(r), true, ((100 - percent_y) / 2) as u16, percent_y, area_parts(row)));
    res
}

/// Which dropdown an input field shows: its history when there is any,
/// else its path completions when there are any, else none; the number of
/// its items and its title.
pub fn dropdown_choice(history_count: usize, completion_count: usize) -> (r: Option<(usize, &'static str)>)
    ensures
        history_count > 0 ==> r == Some((history_count, " History ")),
        history_count == 0 && completion_count > 0 ==> r == Some((completion_count, " Tab Completion ")),
        history_count == 0 && completion_count == 0 ==> r is None,
{
    if history_count > 0 {
        Some((history_count, " History "))
    } else if completion_count > 0 {
        Some((completion_count, " Tab Completion "))
    } else {
        None
    }
}

/// The height of the dropdown for `count` items: their rows and two border
/// rows, ten rows at most.
pub open spec fn dropdown_height(count: usize) -> u16 {
    if 10 < (count as u16) + 2 {
        10
    } else {
        ((count as u16) + 2) as u16
    }
}

/// Where the dropdown of the field at `field_index` is drawn within `area`:
/// four rows below the field (each field takes four rows), moved up so that
/// it ends inside the area, two columns in from each side.
pub open spec fn dropdown_area_spec(area: Area, field_index: usize, count: usize) -> Area {
    let h = dropdown_height(count);
    let below = (area.y + ((field_index * 4) as u16) + 4) as u16;
    let bottom = if area.y + area.height > u16::MAX {
        u16::MAX
    } else {
        (area.y + area.height) as u16
    };
    let top_limit = if bottom >= h {
        (bottom - h) as u16
    } else {
        0u16
    };
    Area {
        x: (area.x + 2) as u16,
        y: if below < top_limit {
            below
        } else {
            top_limit
        },
        width: if area.width >= 4 {
            (area.width - 4) as u16
        } else {
            0u16
        },
        height: h,
    }
}

/// The dropdown's position can be computed without overflow.
pub open spec fn dropdown_fits(area: Area, field_index: usize, count: usize) -> bool {
    &&& field_index * 4 <= usize::MAX
    &&& area.y + ((field_index * 4) as u16) + 4 <= u16::MAX
    &&& (count as u16) + 2 <= u16::MAX
    &&& area.x + 2 <= u16::MAX
}

/// Whether the dropdown's position can be computed (see `dropdown_fits`),
/// as `dropdown_area` needs.
pub fn dropdown_computable(area: Area, field_index: usize, count: usize) -> (r: bool)
    ensures
        r == dropdown_fits(area, field_index, count),
{
    if field_index > usize::MAX / 4 {
        return false;
    }
    let offset = field_index * 4;
    (area.y as u128) + ((offset as u16) as u128) + 4 <= u16::MAX as u128
        && ((count as u16) as u128) + 2 <= u16::MAX as u128
        && (area.x as u128) + 2 <= u16::MAX as u128
}

/// Where the dropdown is drawn (see `dropdown_area_spec`).
pub fn dropdown_area(area: Area, field_index: usize, count: usize) -> (res: Area)
    requires
        dropdown_fits(area, field_index, count),
    ensures
        res == dropdown_area_spec(area, field_index, count),
{
    let field_offset = field_index * 4;
    let below = area.y + field_offset as u16 + 4;
    let c = count as u16 + 2;
    let h = if 10 < c {
        10
    } else {
        c
    };
    let bottom = area.y.saturating_add(area.height);
    let top_limit = bottom.saturating_sub(h);
    Area {
        x: area.x + 2,
        y: if below < top_limit {
            below
        } else {
            top_limit
        },
        width: area.width.saturating_sub(4),
        height: h,
    }
}

/// The first item shown in a dropdown `height` rows high (two of them
/// borders) so that the selected item is visible.
pub open spec fn dropdown_scroll(selected: usize, height: u16) -> usize {
    let visible = if height >= 2 {
        (height - 2) as usize
    } else {
        0usize
    };
    if selected >= visible {
        (selected - (visible - 1)) as usize
    } else {
        0
    }
}

/// The first item shown in the dropdown, for a dropdown with room for at
/// least one item.
pub fn dropdown_scroll_offset(selected: usize, height: u16) -> (r: usize)
    requires
        height >= 3,
    ensures
        r == dropdown_scroll(selected, height),
{
    let visible = (height - 2) as usize;
    if selected >= visible {
        selected - (visible - 1)
    } else {
        0
    }
}

/// The style of the selected entry of the dropdown: black on yellow, bold.
pub open spec fn picked_style() -> SpanStyle {
    SpanStyle {
        fg: Color::Black,
        bg: Color::Yellow,
        bold: true,
        italic: false,
        reversed: false,
        underlined: false,
    }
}

/// The dropdown keeps its selected item in view: with room for at least
/// one item, the first item shown is at or before the selected one, and the
/// selected one is among the `height - 2` items shown.
pub proof fn law_dropdown_keeps_selection_visible(selected: usize, height: u16)
    requires
        height >= 3,
    ensures
        dropdown_scroll(selected, height) <= selected,
        selected < dropdown_scroll(selected, height) + (height - 2),
{
}

/// The lines of the history dropdown: each value indented, the selected
/// one highlighted.
pub open spec fn history_lines_spec(items: Seq<String>, selected: nat) -> Seq<
    Seq<(Seq<char>, SpanStyle)>,
> {
    Seq::new(
        items.len(),
        |i: int|
            seq![
                ("  "@, plain()),
                (items[i]@, if i == selected {
                    picked_style()
                } else {
                    colored(Color::White)
                }),
            ],
    )
}

/// The lines of the history dropdown (see `history_lines_spec`).
pub fn history_lines(items: &Vec<String>, selected: usize) -> (res: Vec<StyledLine>)
    ensures
        lines_view(res@) == history_lines_spec(items@, selected as nat),
{
    let mut lines: Vec<StyledLine> = Vec::new();
    let mut i: usize = 0;
    while i < items.len()
        invariant
            i <= items.len(),
            lines_view(lines@) == history_lines_spec(items@, selected as nat).take(i as int),
        decreases items.len() - i,
    {
        let mut l = line_of(String::from_str("  "), SpanStyle { fg: Color::Default, bg: Color::Default, bold: false, italic: false, reversed: false, underlined: false });
        let style = if i == selected {
            SpanStyle { fg: Color::Black, bg: Color::Yellow, bold: true, italic: false, reversed: false, underlined: false }
        } else {
            SpanStyle { fg: Color::White, bg: Color::Default, bold: false, italic: false, reversed: false, underlined: false }
        };
        l.push(items[i].clone(), style);
        let ghost lv = l@;
        push_line(&mut lines, l);
        assert(lv =~= history_lines_spec(items@, selected as nat)[i as int]);
        assert(history_lines_spec(items@, selected as nat).take(i + 1) =~= history_lines_spec(
            items@,
            selected as nat,
        ).take(i as int).push(lv));
        i = i + 1;
    }
    assert(history_lines_spec(items@, selected as nat).take(items@.len() as int) =~= history_lines_spec(
        items@,
        selected as nat,
    ));
    lines
}

/// An entry of a directory listing: its file name (when it has one that is
/// valid Unicode) and whether it is a directory.
pub struct PathEntry {
    pub name: Option<String>,
    pub is_dir: bool,
}

/// The name shown for entry `i` of the path dropdown: the first entry is
/// the parent directory `../`; a directory ends with `/`; an entry without
/// a name shows `?`.
pub open spec fn path_item_name(e: PathEntry, i: int) -> Seq<char> {
    if i == 0 {
        "../"@
    } else {
        let base = match e.name {
            Some(n) => n@,
            None => "?"@,
        };
        if e.is_dir {
            base + "/"@
        } else {
            base
        }
    }
}

/// The lines of the path dropdown: the selected entry highlighted,
/// directories in cyan.
pub open spec fn path_lines_spec(items: Seq<PathEntry>, selected: nat) -> Seq<
    Seq<(Seq<char>, SpanStyle)>,
> {
    Seq::new(
        items.len(),
        |i: int|
            seq![
                (path_item_name(items[i], i), if i == selected {
                    picked_style()
                } else if items[i].is_dir {
                    colored(Color::Cyan)
                } else {
                    colored(Color::White)
                }),
            ],
    )
}

/// The lines of the path dropdown (see `path_lines_spec`).
pub fn path_lines(items: &Vec<PathEntry>, selected: usize) -> (res: Vec<StyledLine>)
    ensures
        lines_view(res@) == path_lines_spec(items@, selected as nat),
{
    let mut lines: Vec<StyledLine> = Vec::new();
    let mut i: usize = 0;
    while i < items.len()
        invariant
            i <= items.len(),
            lines_view(lines@) == path_lines_spec(items@, selected as nat).take(i as int),
        decreases items.len() - i,
    {
        let e = &items[i];
        let name = if i == 0 {
            String::from_str("../")
        } else {
            let mut base = match &e.name {
                Some(n) => n.clone(),
                None => String::from_str("?"),
            };
            if e.is_dir {
                push_str(&mut base, "/");
            }
            base
        };
        let style = if i == selected {
            SpanStyle { fg: Color::Black, bg: Color::Yellow, bold: true, italic: false, reversed: false, underlined: false }
        } else if e.is_dir {
            SpanStyle { fg: Color::Cyan, bg: Color::Default, bold: false, italic: false, reversed: false, underlined: false }
        } else {
            SpanStyle { fg: Color::White, bg: Color::Default, bold: false, italic: false, reversed: false, underlined: false }
        };
        let l = line_of(name, style);
        let ghost lv = l@;
        push_line(&mut lines, l);
        assert(lv =~= path_lines_spec(items@, selected as nat)[i as int]);
        assert(path_lines_spec(items@, selected as nat).take(i + 1) =~= path_lines_spec(
            items@,
            selected as nat,
        ).take(i as int).push(lv));
        i = i + 1;
    }
    assert(path_lines_spec(items@, selected as nat).take(items@.len() as int) =~= path_lines_spec(
        items@,
        selected as nat,
    ));
    lines
}

// ============================================================================
// The file browser
// ============================================================================

/// The score that `SkimMatcherV2::default().fuzzy_match(choice, pattern)`
/// gives, `None` when `pattern` does not match `choice`.
pub uninterp spec fn skim_score(choice: Seq<char>, pattern: Seq<char>) -> Option<i64>;

/// Fuzzy match of `pattern` in `choice` with the `fuzzy-matcher` crate's
/// `SkimMatcherV2` in its default configuration. Claims that the score is a
/// function of the two texts alone (`skim_score`) and, as the crate's
/// source shows, that an empty pattern matches with score 0.
#[verifier::external_body]
fn skim_fuzzy_match(choice: &str, pattern: &str) -> (r: Option<i64>)
    ensures
        r == skim_score(choice@, pattern@),
        pattern@.len() == 0 ==> r == Some(0i64),
{
    SkimMatcherV2::default().fuzzy_match(choice, pattern)
}

/// Entry `i` is kept by the search: every entry when the search is empty,
/// else the named entries whose name the search fuzzily matches.
pub open spec fn kept_by_search(e: PathEntry, search: Seq<char>) -> bool {
    search.len() == 0 || (e.name matches Some(n) && skim_score(n@, search) is Some)
}

/// The indices of the entries kept by the search, in order.
pub open spec fn search_hits(items: Seq<PathEntry>, search: Seq<char>) -> Seq<usize>
    decreases items.len(),
{
    if items.len() == 0 {
        seq![]
    } else {
        let prev = search_hits(items.drop_last(), search);
        if kept_by_search(items.last(), search) {
            prev.push((items.len() - 1) as usize)
        } else {
            prev
        }
    }
}

/// The indices of the file browser's entries that its search keeps (see
/// `kept_by_search`), in order.
pub fn filter_entries(items: &Vec<PathEntry>, search: &str) -> (res: Vec<usize>)
    ensures
        res@ == search_hits(items@, search@),
{
    let mut res: Vec<usize> = Vec::new();
    let searching = !search.is_empty();
    let mut i: usize = 0;
    while i < items.len()
        invariant
            i <= items.len(),
            searching == (search@.len() > 0),
            res@ == search_hits(items@.take(i as int), search@),
        decreases items.len() - i,
    {
        assert(items@.take(i + 1).drop_last() =~= items@.take(i as int));
        assert(items@.take(i + 1).last() == items@[i as int]);
        let keep = if !searching {
            true
        } else {
            match &items[i].name {
                Some(n) => skim_fuzzy_match(n.as_str(), search).is_some(),
                None => false,
            }
        };
        if keep {
            res.push(i);
        }
        i = i + 1;
    }
    assert(items@.take(items@.len() as int) =~= items@);
    res
}

/// The line of a file browser entry: a marker when selected, an icon for a
/// directory or a file, and its name (`..` when it has none).
pub open spec fn browser_line_spec(e: PathEntry, selected: bool) -> Seq<(Seq<char>, SpanStyle)> {
    seq![
        (if selected {
            "▶ "@
        } else {
            "  "@
        }, plain()),
        ((if e.is_dir {
            "📁"@
        } else {
            "📄"@
        }) + " "@, plain()),
        (match e.name {
            Some(n) => n@,
            None => ".."@,
        }, if selected {
            SpanStyle {
                fg: Color::Yellow,
                bg: Color::Default,
                bold: true,
                italic: false,
                reversed: false,
                underlined: false,
            }
        } else if e.is_dir {
            colored(Color::Cyan)
        } else {
            colored(Color::White)
        }),
    ]
}

/// The lines of the file browser: the entries kept by the search, the one
/// at `selected` (an index into all entries) marked.
pub open spec fn browser_lines_spec(items: Seq<PathEntry>, search: Seq<char>, selected: nat) -> Seq<
    Seq<(Seq<char>, SpanStyle)>,
> {
    search_hits(items, search).map_values(
        |k: usize| browser_line_spec(items[k as int], k as nat == selected),
    )
}

proof fn lemma_search_hits_bounds(items: Seq<PathEntry>, search: Seq<char>)
    requires
        items.len() <= usize::MAX,
    ensures
        forall|j: int|
            0 <= j < search_hits(items, search).len() ==> #[trigger] search_hits(items, search)[j]
                < items.len(),
    decreases items.len(),
{
    if items.len() > 0 {
        let prev = items.drop_last();
        lemma_search_hits_bounds(prev, search);
        let h = search_hits(items, search);
        let ph = search_hits(prev, search);
        assert forall|j: int| 0 <= j < h.len() implies #[trigger] h[j] < items.len() by {
            if j < ph.len() {
                assert(h[j] == ph[j]);
            }
        }
    }
}

/// The lines of the file browser (see `browser_lines_spec`).
pub fn browser_lines(items: &Vec<PathEntry>, search: &str, selected: usize) -> (res: Vec<StyledLine>)
    ensures
        lines_view(res@) == browser_lines_spec(items@, search@, selected as nat),
{
    let hits = filter_entries(items, search);
    let n = items.len();
    proof {
        lemma_search_hits_bounds(items@, search@);
    }
    let ghost all = browser_lines_spec(items@, search@, selected as nat);
    let mut lines: Vec<StyledLine> = Vec::new();
    let mut j: usize = 0;
    while j < hits.len()
        invariant
            j <= hits.len(),
            hits@ == search_hits(items@, search@),
            forall|q: int| 0 <= q < hits@.len() ==> #[trigger] hits@[q] < items@.len(),
            all == browser_lines_spec(items@, search@, selected as nat),
            lines_view(lines@) == all.take(j as int),
        decreases hits.len() - j,
    {
        let k = hits[j];
        let e = &items[k];
        let sel = k == selected;
        let mut l = line_of(
            if sel {
                String::from_str("▶ ")
            } else {
                String::from_str("  ")
            },
            SpanStyle { fg: Color::Default, bg: Color::Default, bold: false, italic: false, reversed: false, underlined: false },
        );
        let mut icon = if e.is_dir {
            String::from_str("📁")
        } else {
            String::from_str("📄")
        };
        push_str(&mut icon, " ");
        l.push(icon, SpanStyle { fg: Color::Default, bg: Color::Default, bold: false, italic: false, reversed: false, underlined: false });
        let name = match &e.name {
            Some(n) => n.clone(),
            None => String::from_str(".."),
        };
        let style = if sel {
            SpanStyle { fg: Color::Yellow, bg: Color::Default, bold: true, italic: false, reversed: false, underlined: false }
        } else if e.is_dir {
            SpanStyle { fg: Color::Cyan, bg: Color::Default, bold: false, italic: false, reversed: false, underlined: false }
        } else {
            SpanStyle { fg: Color::White, bg: Color::Default, bold: false, italic: false, reversed: false, underlined: false }
        };
        l.push(name, style);
        let ghost lv = l@;
        push_line(&mut lines, l);
        assert(lv =~= all[j as int]);
        assert(all.take(j + 1) =~= all.take(j as int).push(lv));
        j = j + 1;
    }
    assert(all.take(all.len() as int) =~= all);
    lines
}

/// The title of the file browser: the directory shown, or the search.
pub open spec fn browser_title_spec(dir: Seq<char>, search: Seq<char>) -> Seq<char> {
    if search.len() == 0 {
        " File Browser: "@ + dir + " "@
    } else {
        " File Browser [search: "@ + search + "] "@
    }
}

/// The title of the file browser (see `browser_title_spec`).
pub fn browser_title(dir: &str, search: &str) -> (res: String)
    ensures
        res@ == browser_title_spec(dir@, search@),
{
    if search.is_empty() {
        let mut t = String::from_str(" File Browser: ");
        push_str(&mut t, dir);
        push_str(&mut t, " ");
        t
    } else {
        let mut t = String::from_str(" File Browser [search: ");
        push_str(&mut t, search);
        push_str(&mut t, "] ");
        t
    }
}

} // verus!
