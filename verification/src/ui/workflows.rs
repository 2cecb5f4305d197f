//! The workflow screens: the list of available workflows, the details of
//! one, and the form that configures its arguments.
use vstd::prelude::*;

use crate::text::{
    can_shorten, decimal, parse_number_list, parse_separated_numbers, push_decimal, push_str, shortenable,
    shorten, shortened, text_eq,
};
use crate::ui::styled::{
    bold, colored, empty_line, line_of, lines_view, plain, push_line, Color, SpanStyle, StyledLine,
};

verus! {

/// How a field is entered.
pub enum FieldKind {
    /// A comma separated list of phases.
    PhaseSelector,
    /// A saved state file, chosen among the files matching `pattern`.
    StateFile { pattern: String },
    /// Any other field.
    Other,
}

/// A field of a workflow's arguments.
pub struct FieldInfo {
    pub name: String,
    pub label: String,
    pub description: String,
    pub kind: FieldKind,
    /// Whether the field is required (when no phase list decides).
    pub required: bool,
    /// The phases for which the field is required, when that depends on the
    /// phases selected.
    pub required_for_phases: Option<Vec<usize>>,
}

/// A workflow that can be launched.
pub struct WorkflowInfo {
    pub id: String,
    pub name: String,
    pub description: String,
    /// Shipped with the manager (else defined by the user).
    pub built_in: bool,
    pub fields: Vec<FieldInfo>,
}

/// The value entered for the field `name`: the first entry for it, else empty.
pub open spec fn value_of(values: Seq<(String, String)>, name: Seq<char>) -> Seq<char>
    decreases values.len(),
{
    if values.len() == 0 {
        seq![]
    } else if values[0].0@ == name {
        values[0].1@
    } else {
        value_of(values.skip(1), name)
    }
}

pub(crate) fn lookup_value(values: &Vec<(String, String)>, name: &str) -> (res: String)
    ensures
        res@ == value_of(values@, name@),
{
    let mut i: usize = 0;
    assert(values@.skip(0) =~= values@);
    while i < values.len()
        invariant
            i <= values.len(),
            value_of(values@, name@) == value_of(values@.skip(i as int), name@),
        decreases values.len() - i,
    {
        let ghost rest = values@.skip(i as int);
        assert(rest[0] == values@[i as int]);
        assert(rest.skip(1) =~= values@.skip(i + 1));
        if text_eq(values[i].0.as_str(), name) {
            return values[i].1.clone();
        }
        i = i + 1;
    }
    String::new()
}

/// The smallest number of a non-empty list.
pub open spec fn seq_min(s: Seq<nat>) -> nat
    decreases s.len(),
{
    if s.len() <= 1 {
        s[0]
    } else {
        let m = seq_min(s.drop_last());
        if s.last() < m {
            s.last()
        } else {
            m
        }
    }
}

/// Whether a field is required: when it names phases, exactly when the
/// earliest phase selected in the `phases` field is one of them; otherwise
/// as the field says.
pub open spec fn field_required(f: FieldInfo, values: Seq<(String, String)>) -> bool {
    match f.required_for_phases {
        Some(rp) => {
            let ph = parse_number_list(value_of(values, "phases"@), ',', usize::MAX as nat);
            ph.len() > 0 && rp@.contains(seq_min(ph) as usize)
        },
        None => f.required,
    }
}

/// Whether the field `f` is required given the values entered so far.
pub fn is_field_required(f: &FieldInfo, values: &Vec<(String, String)>) -> (r: bool)
    ensures
        r == field_required(*f, values@),
{
    match &f.required_for_phases {
        None => f.required,
        Some(rp) => {
            let phases = lookup_value(values, "phases");
            let max = usize::MAX as u64;
            let ph = parse_separated_numbers(phases.as_str(), ',', max);
            let ghost spec_ph = parse_number_list(phases@, ',', usize::MAX as nat);
            if ph.len() == 0 {
                return false;
            }
            proof {
                crate::text::lemma_parse_number_list_bounded(phases@, ',', usize::MAX as nat);
            }
            let mut m = ph[0];
            let mut i: usize = 1;
            assert(spec_ph.take(1).len() == 1);
            while i < ph.len()
                invariant
                    1 <= i <= ph.len(),
                    ph@.len() == spec_ph.len(),
                    forall|k: int| 0 <= k < ph@.len() ==> ph@[k] as nat == #[trigger] spec_ph[k],
                    m as nat == seq_min(spec_ph.take(i as int)),
                decreases ph.len() - i,
            {
                assert(spec_ph.take(i + 1).drop_last() =~= spec_ph.take(i as int));
                if ph[i] < m {
                    m = ph[i];
                }
                i = i + 1;
            }
            assert(spec_ph.take(spec_ph.len() as int) =~= spec_ph);
            assert(m <= usize::MAX);
            let target = m as usize;
            let mut j: usize = 0;
            while j < rp.len()
                invariant
                    j <= rp.len(),
                    forall|k: int| 0 <= k < j ==> rp@[k] != target,
                    target as nat == seq_min(spec_ph),
                    spec_ph.len() > 0,
                    spec_ph == parse_number_list(value_of(values@, "phases"@), ',', usize::MAX as nat),
                    f.required_for_phases == Some(*rp),
                decreases rp.len() - j,
            {
                if rp[j] == target {
                    assert(rp@[j as int] == target);
                    return true;
                }
                j = j + 1;
            }
            false
        },
    }
}


// ============================================================================
// The list of workflows
// ============================================================================

/// Where a workflow comes from, as the list shows it.
pub open spec fn source_label(built_in: bool) -> Seq<char> {
    if built_in {
        "[Built-in]"@
    } else {
        "[User]"@
    }
}

/// The three lines of a workflow in the list.
pub open spec fn workflow_item_lines(w: WorkflowInfo, selected: bool) -> Seq<
    Seq<(Seq<char>, SpanStyle)>,
> {
    seq![
        seq![
            (" "@ + (if selected {
                "▶"@
            } else {
                " "@
            }) + " "@, plain()),
            (w.name@, if selected {
                bold(Color::White)
            } else {
                colored(Color::Gray)
            }),
            (" "@, plain()),
            (source_label(w.built_in), colored(Color::DarkGray)),
        ],
        seq![("     "@ + w.description@, colored(Color::DarkGray))],
        seq![],
    ]
}

/// The lines of the list of workflows, the one at `selected` marked.
pub open spec fn workflow_list(ws: Seq<WorkflowInfo>, selected: nat) -> Seq<
    Seq<(Seq<char>, SpanStyle)>,
>
    decreases ws.len(),
{
    if ws.len() == 0 {
        seq![]
    } else {
        workflow_list(ws.drop_last(), selected) + workflow_item_lines(
            ws.last(),
            (ws.len() - 1) as nat == selected,
        )
    }
}

/// The list of available workflows: for each a line with a marker when it
/// is selected, its name and where it comes from, a line with its
/// description, and a blank line.
pub fn workflow_list_lines(ws: &Vec<WorkflowInfo>, selected: usize) -> (res: Vec<StyledLine>)
    ensures
        lines_view(res@) == workflow_list(ws@, selected as nat),
{
    let mut lines: Vec<StyledLine> = Vec::new();
    assert(lines_view(lines@) =~= Seq::<Seq<(Seq<char>, SpanStyle)>>::empty());
    let mut i: usize = 0;
    while i < ws.len()
        invariant
            i <= ws.len(),
            lines_view(lines@) == workflow_list(ws@.take(i as int), selected as nat),
        decreases ws.len() - i,
    {
        assert(ws@.take(i + 1).drop_last() =~= ws@.take(i as int));
        let w = &ws[i];
        let sel = i == selected;
        let ghost before = lines_view(lines@);
        let mut lead = String::from_str(" ");
        if sel {
            push_str(&mut lead, "▶");
        } else {
            push_str(&mut lead, " ");
        }
        push_str(&mut lead, " ");
        let mut first = line_of(lead, SpanStyle { fg: Color::Default, bg: Color::Default, bold: false, italic: false, reversed: false, underlined: false });
        first.push(w.name.clone(), if sel {
            SpanStyle { fg: Color::White, bg: Color::Default, bold: true, italic: false, reversed: false, underlined: false }
        } else {
            SpanStyle { fg: Color::Gray, bg: Color::Default, bold: false, italic: false, reversed: false, underlined: false }
        });
        first.push(String::from_str(" "), SpanStyle { fg: Color::Default, bg: Color::Default, bold: false, italic: false, reversed: false, underlined: false });
        let label = if w.built_in {
            String::from_str("[Built-in]")
        } else {
            String::from_str("[User]")
        };
        first.push(label, SpanStyle { fg: Color::DarkGray, bg: Color::Default, bold: false, italic: false, reversed: false, underlined: false });
        let ghost fv = first@;
        push_line(&mut lines, first);
        let mut desc = String::from_str("     ");
        push_str(&mut desc, w.description.as_str());
        let second = line_of(desc, SpanStyle { fg: Color::DarkGray, bg: Color::Default, bold: false, italic: false, reversed: false, underlined: false });
        let ghost sv = second@;
        push_line(&mut lines, second);
        push_line(&mut lines, empty_line());
        proof {
            let item = workflow_item_lines(ws@[i as int], sel);
            assert(fv =~= item[0]);
            assert(sv =~= item[1]);
            assert(lines_view(lines@) =~= before + item);
        }
        i = i + 1;
    }
    assert(ws@.take(ws@.len() as int) =~= ws@);
    lines
}

// ============================================================================
// The details of a workflow
// ============================================================================

/// The number of fields with a non-empty value.
pub open spec fn configured_count(values: Seq<(String, String)>) -> nat
    decreases values.len(),
{
    if values.len() == 0 {
        0
    } else {
        configured_count(values.drop_last()) + if values.last().1@.len() > 0 {
            1nat
        } else {
            0nat
        }
    }
}

/// How a field's value is shown: `<empty>` in grey, else the value cut at
/// 60 bytes.
pub open spec fn value_span(value: Seq<char>) -> (Seq<char>, SpanStyle) {
    if value.len() == 0 {
        ("<empty>"@, colored(Color::DarkGray))
    } else {
        (shortened(value, 60, 60), colored(Color::White))
    }
}

/// The line of a field in the details of a workflow.
pub open spec fn detail_field_line(f: FieldInfo, values: Seq<(String, String)>) -> Seq<
    (Seq<char>, SpanStyle),
> {
    seq![
        ("  • "@, colored(Color::DarkGray)),
        (f.label@, colored(Color::White)),
        (": "@, plain()),
        value_span(value_of(values, f.name@)),
    ]
}

/// The details of a workflow: name, id, description, source, number of
/// fields and of configured arguments, each field with its value, and the
/// key that launches it.
pub open spec fn workflow_detail(w: WorkflowInfo, values: Seq<(String, String)>) -> Seq<
    Seq<(Seq<char>, SpanStyle)>,
> {
    detail_head(w, values) + w.fields@.map_values(|f: FieldInfo| detail_field_line(f, values)) + seq![
        seq![],
        seq![],
        seq![("[L]"@, bold(Color::White)), (" Launch workflow"@, plain())],
    ]
}

/// The first lines of the details of a workflow, before its fields.
pub open spec fn detail_head(w: WorkflowInfo, values: Seq<(String, String)>) -> Seq<
    Seq<(Seq<char>, SpanStyle)>,
> {
    let c = configured_count(values);
    seq![
        seq![("Name: "@, colored(Color::Gray)), (w.name@, bold(Color::White))],
        seq![],
        seq![("ID: "@, colored(Color::Gray)), (w.id@, colored(Color::White))],
        seq![],
        seq![("Description: "@, colored(Color::Gray)), (w.description@, colored(Color::White))],
        seq![],
        seq![
            ("Source: "@, colored(Color::Gray)),
            (if w.built_in {
                "Built-in workflow"@
            } else {
                "User-defined workflow"@
            }, colored(Color::Yellow)),
        ],
        seq![],
        seq![("Fields: "@, colored(Color::Gray)), (decimal(w.fields@.len()), colored(Color::White))],
        seq![],
        seq![
            ("Arguments: "@, colored(Color::Gray)),
            (decimal(c) + " configured"@, colored(
                if c > 0 {
                    Color::White
                } else {
                    Color::DarkGray
                },
            )),
        ],
        seq![],
    ]
}
/// Every field value shown in the details can be cut at 60 bytes.
pub open spec fn detail_values_ok(w: WorkflowInfo, values: Seq<(String, String)>) -> bool {
    forall|k: int|
        0 <= k < w.fields@.len() ==> can_shorten(
            value_of(values, (#[trigger] w.fields@[k]).name@),
            60,
            60,
        )
}

/// Whether every field value of the details can be cut at 60 bytes (see
/// `detail_values_ok`), as `workflow_detail_lines` needs.
pub fn detail_values_computable(w: &WorkflowInfo, values: &Vec<(String, String)>) -> (r: bool)
    ensures
        r == detail_values_ok(*w, values@),
{
    let mut k: usize = 0;
    while k < w.fields.len()
        invariant
            k <= w.fields.len(),
            forall|q: int|
                0 <= q < k ==> can_shorten(value_of(values@, (#[trigger] w.fields@[q]).name@), 60, 60),
        decreases w.fields.len() - k,
    {
        let v = lookup_value(values, w.fields[k].name.as_str());
        if !shortenable(v.as_str(), 60, 60) {
            return false;
        }
        k = k + 1;
    }
    true
}

fn count_configured(values: &Vec<(String, String)>) -> (r: usize)
    ensures
        r as nat == configured_count(values@),
{
    let mut c: usize = 0;
    let mut i: usize = 0;
    while i < values.len()
        invariant
            i <= values.len(),
            c <= i,
            c as nat == configured_count(values@.take(i as int)),
        decreases values.len() - i,
    {
        assert(values@.take(i + 1).drop_last() =~= values@.take(i as int));
        if !values[i].1.as_str().is_empty() {
            c = c + 1;
        }
        i = i + 1;
    }
    assert(values@.take(values@.len() as int) =~= values@);
    c
}

fn labelled_line(label: &str, value: String, style: SpanStyle) -> (res: StyledLine)
    ensures
        res@ == seq![(label@, colored(Color::Gray)), (value@, style)],
{
    let mut l = line_of(String::from_str(label), SpanStyle { fg: Color::Gray, bg: Color::Default, bold: false, italic: false, reversed: false, underlined: false });
    l.push(value, style);
    assert(l@ =~= seq![(label@, colored(Color::Gray)), (value@, style)]);
    l
}

/// The details of a workflow (see `workflow_detail`).
pub fn workflow_detail_lines(w: &WorkflowInfo, values: &Vec<(String, String)>) -> (res: Vec<
    StyledLine,
>)
    requires
        detail_values_ok(*w, values@),
    ensures
        lines_view(res@) == workflow_detail(*w, values@),
{
    let mut lines: Vec<StyledLine> = Vec::new();
    let white = SpanStyle { fg: Color::White, bg: Color::Default, bold: false, italic: false, reversed: false, underlined: false };
    push_line(&mut lines, labelled_line("Name: ", w.name.clone(), SpanStyle { fg: Color::White, bg: Color::Default, bold: true, italic: false, reversed: false, underlined: false }));
    push_line(&mut lines, empty_line());
    push_line(&mut lines, labelled_line("ID: ", w.id.clone(), white));
    push_line(&mut lines, empty_line());
    push_line(&mut lines, labelled_line("Description: ", w.description.clone(), white));
    push_line(&mut lines, empty_line());
    let source = if w.built_in {
        String::from_str("Built-in workflow")
    } else {
        String::from_str("User-defined workflow")
    };
    push_line(&mut lines, labelled_line("Source: ", source, SpanStyle { fg: Color::Yellow, bg: Color::Default, bold: false, italic: false, reversed: false, underlined: false }));
    push_line(&mut lines, empty_line());
    let mut nfields = String::new();
    push_decimal(&mut nfields, w.fields.len() as u64);
    push_line(&mut lines, labelled_line("Fields: ", nfields, white));
    push_line(&mut lines, empty_line());
    let c = count_configured(values);
    let mut conf = String::new();
    push_decimal(&mut conf, c as u64);
    push_str(&mut conf, " configured");
    let conf_style = if c > 0 {
        white
    } else {
        SpanStyle { fg: Color::DarkGray, bg: Color::Default, bold: false, italic: false, reversed: false, underlined: false }
    };
    push_line(&mut lines, labelled_line("Arguments: ", conf, conf_style));
    push_line(&mut lines, empty_line());
    let ghost head = lines_view(lines@);
    proof {
        let e = detail_head(*w, values@);
        assert(head.len() == e.len());
        assert forall|i: int| 0 <= i < head.len() implies head[i] =~= e[i] by {}
        assert(head =~= e);
    }
    let ghost fv = w.fields@.map_values(|f: FieldInfo| detail_field_line(f, values@));
    let mut k: usize = 0;
    while k < w.fields.len()
        invariant
            k <= w.fields.len(),
            white == colored(Color::White),
            detail_values_ok(*w, values@),
            fv == w.fields@.map_values(|f: FieldInfo| detail_field_line(f, values@)),
            lines_view(lines@) == head + fv.take(k as int),
        decreases w.fields.len() - k,
    {
        let f = &w.fields[k];
        let value = lookup_value(values, f.name.as_str());
        let mut l = line_of(String::from_str("  • "), SpanStyle { fg: Color::DarkGray, bg: Color::Default, bold: false, italic: false, reversed: false, underlined: false });
        l.push(f.label.clone(), white);
        l.push(String::from_str(": "), SpanStyle { fg: Color::Default, bg: Color::Default, bold: false, italic: false, reversed: false, underlined: false });
        let ghost before_value = l@;
        if value.as_str().is_empty() {
            l.push(String::from_str("<empty>"), SpanStyle { fg: Color::DarkGray, bg: Color::Default, bold: false, italic: false, reversed: false, underlined: false });
            assert(l@ == before_value.push(value_span(value@)));
        } else {
            assert(can_shorten(value@, 60, 60));
            let short = shorten(value.as_str(), 60, 60);
            assert(short@ == shortened(value@, 60, 60));
            l.push(short, white);
            assert(l@ == before_value.push(value_span(value@)));
        }
        let ghost lv = l@;
        push_line(&mut lines, l);
        proof {
            assert(fv[k as int] == detail_field_line(w.fields@[k as int], values@));
            assert(f.label@ == w.fields@[k as int].label@);
            assert(value@ == value_of(values@, w.fields@[k as int].name@));
            assert(lv[3] == value_span(value@));
            assert(lv =~= detail_field_line(w.fields@[k as int], values@));
            assert(lv =~= fv[k as int]);
            assert(fv.take(k + 1) =~= fv.take(k as int).push(lv));
        }
        k = k + 1;
    }
    assert(fv.take(fv.len() as int) =~= fv);
    push_line(&mut lines, empty_line());
    push_line(&mut lines, empty_line());
    let mut launch = line_of(String::from_str("[L]"), SpanStyle { fg: Color::White, bg: Color::Default, bold: true, italic: false, reversed: false, underlined: false });
    launch.push(String::from_str(" Launch workflow"), SpanStyle { fg: Color::Default, bg: Color::Default, bold: false, italic: false, reversed: false, underlined: false });
    assert(launch@ =~= seq![("[L]"@, bold(Color::White)), (" Launch workflow"@, plain())]);
    let ghost before_launch = lines_view(lines@);
    push_line(&mut lines, launch);
    assert(before_launch =~= head + fv + seq![Seq::<(Seq<char>, SpanStyle)>::empty(), Seq::<(Seq<char>, SpanStyle)>::empty()]);
    assert(lines_view(lines@) =~= workflow_detail(*w, values@));
    lines
}


// ============================================================================
// The form that configures a workflow
// ============================================================================

/// What an empty field shows: for a state file, the pattern its file must
/// match; for any other field, `<empty>`.
pub open spec fn empty_hint(kind: FieldKind) -> Seq<char> {
    match kind {
        FieldKind::StateFile { pattern } => "<select file matching "@ + pattern@ + ">"@,
        _ => "<empty>"@,
    }
}

/// The style of a field's value: being edited, selected, empty, or set.
pub open spec fn value_style(editing_this: bool, selected: bool, empty: bool) -> SpanStyle {
    if editing_this {
        SpanStyle { fg: Color::White, bg: Color::Default, bold: true, italic: false, reversed: false, underlined: true }
    } else if selected {
        bold(Color::Yellow)
    } else if empty {
        SpanStyle { fg: Color::DarkGray, bg: Color::Default, bold: false, italic: true, reversed: false, underlined: false }
    } else {
        colored(Color::White)
    }
}

/// The four lines of a field in the form: its label (marked `*` when
/// required), its description, its value (the edit buffer while it is
/// edited, followed by a cursor), and a blank line.
pub open spec fn edit_field_lines(
    f: FieldInfo,
    values: Seq<(String, String)>,
    selected: bool,
    editing: bool,
    buffer: Seq<char>,
) -> Seq<Seq<(Seq<char>, SpanStyle)>> {
    let editing_this = selected && editing;
    let current = if editing_this {
        buffer
    } else {
        value_of(values, f.name@)
    };
    let empty = current.len() == 0;
    let display = if empty {
        empty_hint(f.kind)
    } else {
        current
    };
    seq![
        seq![
            (f.label@ + (if field_required(f, values) {
                "*"@
            } else {
                seq![]
            }) + ": "@, bold(Color::White)),
        ],
        seq![("  "@ + f.description@, colored(Color::DarkGray))],
        seq![
            ("  "@, plain()),
            (display, value_style(editing_this, selected, empty)),
            (if editing_this {
                (" █"@, colored(Color::White))
            } else {
                (seq![], plain())
            }),
        ],
        seq![],
    ]
}

/// The lines of the form for a list of fields, the one at `index` selected.
pub open spec fn edit_form(
    fields: Seq<FieldInfo>,
    values: Seq<(String, String)>,
    index: nat,
    editing: bool,
    buffer: Seq<char>,
) -> Seq<Seq<(Seq<char>, SpanStyle)>>
    decreases fields.len(),
{
    if fields.len() == 0 {
        seq![]
    } else {
        edit_form(fields.drop_last(), values, index, editing, buffer) + edit_field_lines(
            fields.last(),
            values,
            (fields.len() - 1) as nat == index,
            editing,
            buffer,
        )
    }
}

/// The title of the form.
pub open spec fn edit_title(name: Seq<char>, editing: bool) -> Seq<char> {
    " Configure: "@ + name + if editing {
        " [EDITING] "@
    } else {
        " "@
    }
}

/// The title of the form that configures the workflow `name`.
pub fn edit_title_text(name: &str, editing: bool) -> (res: String)
    ensures
        res@ == edit_title(name@, editing),
{
    let mut t = String::from_str(" Configure: ");
    push_str(&mut t, name);
    if editing {
        push_str(&mut t, " [EDITING] ");
    } else {
        push_str(&mut t, " ");
    }
    t
}

fn push_edit_field_lines(
    lines: &mut Vec<StyledLine>,
    f: &FieldInfo,
    values: &Vec<(String, String)>,
    selected: bool,
    editing: bool,
    buffer: &str,
)
    ensures
        lines_view(final(lines)@) == lines_view(old(lines)@) + edit_field_lines(
            *f,
            values@,
            selected,
            editing,
            buffer@,
        ),
{
    let ghost before = lines_view(lines@);
    let editing_this = selected && editing;
    let current = if editing_this {
        String::from_str(buffer)
    } else {
        lookup_value(values, f.name.as_str())
    };
    let empty = current.as_str().is_empty();
    let display = if empty {
        match &f.kind {
            FieldKind::StateFile { pattern } => {
                let mut h = String::from_str("<select file matching ");
                push_str(&mut h, pattern.as_str());
                push_str(&mut h, ">");
                h
            },
            _ => String::from_str("<empty>"),
        }
    } else {
        current
    };
    let mut label = f.label.clone();
    if is_field_required(f, values) {
        push_str(&mut label, "*");
    }
    push_str(&mut label, ": ");
    push_line(lines, line_of(label, SpanStyle { fg: Color::White, bg: Color::Default, bold: true, italic: false, reversed: false, underlined: false }));
    let mut desc = String::from_str("  ");
    push_str(&mut desc, f.description.as_str());
    push_line(lines, line_of(desc, SpanStyle { fg: Color::DarkGray, bg: Color::Default, bold: false, italic: false, reversed: false, underlined: false }));
    let style = if editing_this {
        SpanStyle { fg: Color::White, bg: Color::Default, bold: true, italic: false, reversed: false, underlined: true }
    } else if selected {
        SpanStyle { fg: Color::Yellow, bg: Color::Default, bold: true, italic: false, reversed: false, underlined: false }
    } else if empty {
        SpanStyle { fg: Color::DarkGray, bg: Color::Default, bold: false, italic: true, reversed: false, underlined: false }
    } else {
        SpanStyle { fg: Color::White, bg: Color::Default, bold: false, italic: false, reversed: false, underlined: false }
    };
    let mut value_line = line_of(String::from_str("  "), SpanStyle { fg: Color::Default, bg: Color::Default, bold: false, italic: false, reversed: false, underlined: false });
    value_line.push(display, style);
    if editing_this {
        value_line.push(String::from_str(" █"), SpanStyle { fg: Color::White, bg: Color::Default, bold: false, italic: false, reversed: false, underlined: false });
    } else {
        value_line.push(String::new(), SpanStyle { fg: Color::Default, bg: Color::Default, bold: false, italic: false, reversed: false, underlined: false });
    }
    let ghost vv = value_line@;
    push_line(lines, value_line);
    push_line(lines, empty_line());
    proof {
        let e = edit_field_lines(*f, values@, selected, editing, buffer@);
        assert(vv =~= e[2]);
        let now = lines_view(lines@);
        assert(now.len() == before.len() + 4);
        assert forall|i: int| 0 <= i < now.len() implies now[i] =~= (before + e)[i] by {}
        assert(now =~= before + e);
    }
}

/// The form that configures a workflow: for each of its fields its label
/// (marked `*` when required for the earliest selected phase), its
/// description and its value; the field at `index` is selected, and while
/// `editing` it shows the edit buffer.
pub fn workflow_edit_lines(
    w: &WorkflowInfo,
    values: &Vec<(String, String)>,
    index: usize,
    editing: bool,
    buffer: &str,
) -> (res: Vec<StyledLine>)
    ensures
        lines_view(res@) == edit_form(w.fields@, values@, index as nat, editing, buffer@),
{
    let mut lines: Vec<StyledLine> = Vec::new();
    assert(lines_view(lines@) =~= Seq::<Seq<(Seq<char>, SpanStyle)>>::empty());
    let mut i: usize = 0;
    while i < w.fields.len()
        invariant
            i <= w.fields.len(),
            lines_view(lines@) == edit_form(
                w.fields@.take(i as int),
                values@,
                index as nat,
                editing,
                buffer@,
            ),
        decreases w.fields.len() - i,
    {
        assert(w.fields@.take(i + 1).drop_last() =~= w.fields@.take(i as int));
        push_edit_field_lines(&mut lines, &w.fields[i], values, i == index, editing, buffer);
        i = i + 1;
    }
    assert(w.fields@.take(w.fields@.len() as int) =~= w.fields@);
    lines
}

} // verus!
