//! Chat message text with light markdown: bold headers, numbered and
//! bulleted list items and inline bold, turned into styled lines.
use vstd::prelude::*;

use crate::text::{
    chars_to_string, find_from, find_index_from, has_prefix, is_ascii_digit, lemma_find_from_bounds,
    line_bounds, line_end, lines_from, matches_at, push_str, str_to_chars, text_lines, trim,
    trim_range,
};
use crate::ui::styled::{
    bold, colored, empty_line, lines_view, plain, push_line, Color, SpanStyle, StyledLine,
};

verus! {

/// The bold marker `**`.
pub open spec fn stars() -> Seq<char> {
    seq!['*', '*']
}

/// The bullet that starts a list item: two spaces, a bullet, a space.
pub open spec fn bullet() -> Seq<char> {
    seq![' ', ' ', '•', ' ']
}

/// Whether a trimmed line is a list item, and where its content starts: a
/// digit followed by `. `, or `- `, or `* ` (a line that starts with `**` is
/// never an item).
pub open spec fn list_marker(t: Seq<char>) -> (bool, int) {
    if has_prefix(t, stars()) {
        (false, 0)
    } else if t.len() > 0 && is_ascii_digit(t[0]) {
        if matches_at(t, seq!['.', ' '], 1) {
            (true, 3)
        } else {
            (false, 0)
        }
    } else if has_prefix(t, seq!['-', ' ']) {
        (true, 2)
    } else if has_prefix(t, seq!['*', ' ']) {
        (true, 2)
    } else {
        (false, 0)
    }
}

/// Inline bold from position `p`: the spans that the scan emits, and the
/// position of the text it leaves. Text before a `**` is plain; the text
/// between a `**` and the next `**` is bold cyan. An opening `**` without a
/// closing one emits the rest of the text from that `**` as plain and ends
/// the scan, leaving the text from `p`.
pub open spec fn bold_scan(t: Seq<char>, p: int) -> (Seq<(Seq<char>, SpanStyle)>, int)
    decreases t.len() - p,
{
    if p < 0 || p > t.len() {
        (seq![], p)
    } else {
        proof {
            lemma_find_from_bounds(t, stars(), p as nat);
        }
        match find_from(t, stars(), p as nat) {
            None => (seq![], p),
            Some(st) => {
                proof {
                    lemma_find_from_bounds(t, stars(), st + 2);
                }
                let pre = if st > p {
                    seq![(t.subrange(p, st as int), plain())]
                } else {
                    seq![]
                };
                match find_from(t, stars(), st + 2) {
                    Some(e) => {
                        let rest = bold_scan(t, (e + 2) as int);
                        (
                            pre + seq![(t.subrange((st + 2) as int, e as int), bold(Color::Cyan))]
                                + rest.0,
                            rest.1,
                        )
                    },
                    None => (pre + seq![(t.subrange(st as int, t.len() as int), plain())], p),
                }
            },
        }
    }
}

/// The spans of a line's content from `off`, after a list bullet when the
/// line is an item.
pub open spec fn body_spans(t: Seq<char>, is_list: bool, off: int) -> Seq<(Seq<char>, SpanStyle)> {
    if find_from(t, stars(), off as nat) is Some {
        let lead = if is_list {
            bullet()
        } else {
            seq![]
        };
        let sc = bold_scan(t, off);
        seq![(lead, plain())] + sc.0 + (if sc.1 < t.len() {
            seq![(t.subrange(sc.1, t.len() as int), plain())]
        } else {
            seq![]
        })
    } else {
        seq![
            (if is_list {
                bullet() + t.subrange(off, t.len() as int)
            } else {
                t.subrange(off, t.len() as int)
            }, plain()),
        ]
    }
}

/// The styled line of one line of a message, from its trimmed text: an
/// empty line has no span; a line that opens with `**` and closes it again
/// is a header (its bold part indented by two spaces, white and bold, and
/// the rest white); any other line is a list item or plain text with
/// inline bold.
pub open spec fn format_line(line: Seq<char>) -> Seq<(Seq<char>, SpanStyle)> {
    format_trimmed_spec(trim(line))
}

/// The styled lines of a message: one per line of its text.
pub open spec fn format_message(content: Seq<char>) -> Seq<Seq<(Seq<char>, SpanStyle)>> {
    text_lines(content).map_values(|l: Seq<char>| format_line(l))
}

fn copy_range(s: &Vec<char>, lo: usize, hi: usize) -> (res: Vec<char>)
    requires
        lo <= hi <= s.len(),
    ensures
        res@ == s@.subrange(lo as int, hi as int),
{
    let mut res: Vec<char> = Vec::new();
    let mut i = lo;
    while i < hi
        invariant
            lo <= i <= hi <= s.len(),
            res@ == s@.subrange(lo as int, i as int),
        decreases hi - i,
    {
        res.push(s[i]);
        i = i + 1;
    }
    res
}

fn list_marker_exec(t: &Vec<char>) -> (r: (bool, usize))
    ensures
        r.0 == list_marker(t@).0,
        r.1 == list_marker(t@).1,
{
    let n = t.len();
    if n >= 2 && t[0] == '*' && t[1] == '*' {
        assert(has_prefix(t@, stars())) by {
            assert(t@.subrange(0, 2) =~= stars());
        }
        return (false, 0);
    }
    assert(!has_prefix(t@, stars())) by {
        if has_prefix(t@, stars()) {
            assert(t@.subrange(0, 2)[0] == '*');
            assert(t@.subrange(0, 2)[1] == '*');
        }
    }
    if n > 0 && '0' <= t[0] && t[0] <= '9' {
        if n >= 3 && t[1] == '.' && t[2] == ' ' {
            assert(t@.subrange(1, 3) =~= seq!['.', ' ']);
            return (true, 3);
        }
        assert(!matches_at(t@, seq!['.', ' '], 1)) by {
            if matches_at(t@, seq!['.', ' '], 1) {
                assert(t@.subrange(1, 3)[0] == '.');
                assert(t@.subrange(1, 3)[1] == ' ');
            }
        }
        return (false, 0);
    }
    if n >= 2 && t[0] == '-' && t[1] == ' ' {
        assert(t@.subrange(0, 2) =~= seq!['-', ' ']);
        return (true, 2);
    }
    assert(!has_prefix(t@, seq!['-', ' '])) by {
        if has_prefix(t@, seq!['-', ' ']) {
            assert(t@.subrange(0, 2)[0] == '-');
            assert(t@.subrange(0, 2)[1] == ' ');
        }
    }
    if n >= 2 && t[0] == '*' && t[1] == ' ' {
        assert(t@.subrange(0, 2) =~= seq!['*', ' ']);
        return (true, 2);
    }
    assert(!has_prefix(t@, seq!['*', ' '])) by {
        if has_prefix(t@, seq!['*', ' ']) {
            assert(t@.subrange(0, 2)[0] == '*');
            assert(t@.subrange(0, 2)[1] == ' ');
        }
    }
    (false, 0)
}

fn bullet_string() -> (res: String)
    ensures
        res@ == bullet(),
{
    let s = String::from_str("  • ");
    proof {
        reveal_strlit("  • ");
    }
    assert(s@ =~= bullet());
    s
}

fn body_exec(t: &Vec<char>, is_list: bool, off: usize) -> (res: StyledLine)
    requires
        off <= t.len(),
    ensures
        res@ == body_spans(t@, is_list, off as int),
{
    let ds: Vec<char> = vec!['*', '*'];
    assert(ds@ =~= stars());
    let first = find_index_from(t, &ds, off);
    if first.is_none() {
        let rest = chars_to_string(t, off, t.len());
        let mut text = if is_list {
            bullet_string()
        } else {
            String::new()
        };
        push_str(&mut text, rest.as_str());
        let mut line = empty_line();
        line.push(text, SpanStyle { fg: Color::Default, bg: Color::Default, bold: false, italic: false, reversed: false, underlined: false });
        return line;
    }
    let lead = if is_list {
        bullet_string()
    } else {
        String::new()
    };
    let mut line = empty_line();
    line.push(lead, SpanStyle { fg: Color::Default, bg: Color::Default, bold: false, italic: false, reversed: false, underlined: false });
    let ghost whole = bold_scan(t@, off as int);
    let mut p: usize = off;
    loop
        invariant_except_break
            line@ + bold_scan(t@, p as int).0 == seq![
                (if is_list {
                    bullet()
                } else {
                    seq![]
                }, plain()),
            ] + whole.0,
        invariant
            off <= p <= t.len(),
            ds@ == stars(),
            bold_scan(t@, p as int).1 == whole.1,
            whole == bold_scan(t@, off as int),
        ensures
            off <= p <= t.len(),
            whole.1 == p as int,
            line@ == seq![
                (if is_list {
                    bullet()
                } else {
                    seq![]
                }, plain()),
            ] + whole.0,
        decreases t.len() - p,
    {
        proof {
            lemma_find_from_bounds(t@, stars(), p as nat);
        }
        let st = match find_index_from(t, &ds, p) {
            None => {
                assert(bold_scan(t@, p as int).0 =~= Seq::<(Seq<char>, SpanStyle)>::empty());
                assert(line@ + bold_scan(t@, p as int).0 =~= line@);
                break;
            },
            Some(st) => st,
        };
        proof {
            lemma_find_from_bounds(t@, stars(), (st + 2) as nat);
        }
        let ghost before = line@;
        if st > p {
            let pre = chars_to_string(t, p, st);
            line.push(pre, SpanStyle { fg: Color::Default, bg: Color::Default, bold: false, italic: false, reversed: false, underlined: false });
        }
        let ghost pre_spans = if st > p {
            seq![(t@.subrange(p as int, st as int), plain())]
        } else {
            Seq::<(Seq<char>, SpanStyle)>::empty()
        };
        assert(line@ =~= before + pre_spans);
        match find_index_from(t, &ds, st + 2) {
            Some(e) => {
                let inner = chars_to_string(t, st + 2, e);
                line.push(inner, SpanStyle { fg: Color::Cyan, bg: Color::Default, bold: true, italic: false, reversed: false, underlined: false });
                let ghost rest = bold_scan(t@, (e + 2) as int);
                assert(bold_scan(t@, p as int).0 == pre_spans + seq![
                    (t@.subrange(st + 2, e as int), bold(Color::Cyan)),
                ] + rest.0);
                assert(line@ + rest.0 =~= before + bold_scan(t@, p as int).0);
                p = e + 2;
            },
            None => {
                let tail = chars_to_string(t, st, t.len());
                line.push(tail, SpanStyle { fg: Color::Default, bg: Color::Default, bold: false, italic: false, reversed: false, underlined: false });
                assert(bold_scan(t@, p as int).0 =~= pre_spans + seq![
                    (t@.subrange(st as int, t.len() as int), plain()),
                ]);
                assert(line@ =~= before + bold_scan(t@, p as int).0);
                break;
            },
        }
    }
    if p < t.len() {
        let tail = chars_to_string(t, p, t.len());
        line.push(tail, SpanStyle { fg: Color::Default, bg: Color::Default, bold: false, italic: false, reversed: false, underlined: false });
    }
    line
}

/// The styled line of an already trimmed line.
pub open spec fn format_trimmed_spec(t: Seq<char>) -> Seq<(Seq<char>, SpanStyle)> {
    if t.len() == 0 {
        seq![]
    } else if has_prefix(t, stars()) && find_from(t, stars(), 2) is Some {
        let e = find_from(t, stars(), 2)->0;
        seq![(seq![' ', ' '] + t.subrange(2, e as int), bold(Color::White))] + (if e + 2 < t.len() {
            seq![(t.subrange((e + 2) as int, t.len() as int), colored(Color::White))]
        } else {
            seq![]
        })
    } else {
        let m = list_marker(t);
        body_spans(t, m.0, m.1)
    }
}

fn format_trimmed(t: &Vec<char>) -> (res: StyledLine)
    ensures
        res@ == format_trimmed_spec(t@),
{
    if t.len() == 0 {
        return empty_line();
    }
    if t.len() >= 2 && t[0] == '*' && t[1] == '*' {
        assert(has_prefix(t@, stars())) by {
            assert(t@.subrange(0, 2) =~= stars());
        }
        let ds: Vec<char> = vec!['*', '*'];
        assert(ds@ =~= stars());
        proof {
            lemma_find_from_bounds(t@, stars(), 2);
        }
        match find_index_from(t, &ds, 2) {
            Some(e) => {
                let mut head = String::from_str("  ");
                proof {
                    reveal_strlit("  ");
                }
                let inner = chars_to_string(t, 2, e);
                push_str(&mut head, inner.as_str());
                assert(head@ =~= seq![' ', ' '] + t@.subrange(2, e as int));
                let mut line = empty_line();
                line.push(head, SpanStyle { fg: Color::White, bg: Color::Default, bold: true, italic: false, reversed: false, underlined: false });
                if e + 2 < t.len() {
                    let after = chars_to_string(t, e + 2, t.len());
                    line.push(after, SpanStyle { fg: Color::White, bg: Color::Default, bold: false, italic: false, reversed: false, underlined: false });
                }
                return line;
            },
            None => {},
        }
    } else {
        assert(!has_prefix(t@, stars())) by {
            if has_prefix(t@, stars()) {
                assert(t@.subrange(0, 2)[0] == '*');
                assert(t@.subrange(0, 2)[1] == '*');
            }
        }
    }
    let (is_list, off) = list_marker_exec(t);
    body_exec(t, is_list, off)
}

/// Parse message content with basic markdown formatting into styled lines:
/// one line per line of the text.
pub fn format_message_content(content: &str) -> (res: Vec<StyledLine>)
    ensures
        lines_view(res@) == format_message(content@),
{
    let cs = str_to_chars(content);
    let mut lines: Vec<StyledLine> = Vec::new();
    let ghost all = text_lines(cs@);
    let mut i: usize = 0;
    assert(lines_view(lines@) =~= Seq::<Seq<(Seq<char>, SpanStyle)>>::empty());
    while i < cs.len()
        invariant_except_break
            lines_view(lines@) + lines_from(cs@, i as nat).map_values(|l: Seq<char>| format_line(l))
                == all.map_values(|l: Seq<char>| format_line(l)),
        invariant
            i <= cs.len(),
            cs@ == content@,
            all == text_lines(cs@),
        ensures
            lines_view(lines@) == all.map_values(|l: Seq<char>| format_line(l)),
        decreases cs.len() - i,
    {
        let (c, j) = line_bounds(&cs, i);
        let (a, b) = trim_range(&cs, i, c);
        let t = copy_range(&cs, a, b);
        let line = format_trimmed(&t);
        let ghost lv = line@;
        let ghost before = lines_view(lines@);
        push_line(&mut lines, line);
        proof {
            let here = cs@.subrange(i as int, c as int);
            let rest = lines_from(cs@, (j + 1) as nat);
            if j < cs.len() {
                assert(lines_from(cs@, i as nat) == seq![here] + rest);
            } else {
                assert(lines_from(cs@, i as nat) =~= seq![here] + rest);
            }
            assert(lv == format_line(here));
            assert((seq![here] + rest).map_values(|l: Seq<char>| format_line(l)) =~= seq![
                format_line(here),
            ] + rest.map_values(|l: Seq<char>| format_line(l)));
        }
        if j == cs.len() {
            proof {
                assert(lines_from(cs@, (j + 1) as nat) =~= Seq::<Seq<char>>::empty());
                assert(lines_view(lines@) =~= all.map_values(|l: Seq<char>| format_line(l)));
            }
            break;
        }
        i = j + 1;
    }
    lines
}

} // verus!

verus! {

/// Each line of a message gives exactly one styled line, in order, and a
/// line that is empty or white space only gives a blank line.
pub proof fn law_each_message_line_is_one_styled_line(content: Seq<char>)
    ensures
        format_message(content).len() == text_lines(content).len(),
        forall|i: int|
            0 <= i < text_lines(content).len() && trim(#[trigger] text_lines(content)[i]).len() == 0
                ==> format_message(content)[i].len() == 0,
{
}

} // verus!
