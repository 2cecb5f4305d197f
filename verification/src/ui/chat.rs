//! The chat pane: the lines of the conversation and the log of the tool
//! calls that the assistant made.
use vstd::prelude::*;

use crate::text::{decimal, line_bounds, lines_from, push_decimal, push_str, chars_to_string, str_to_chars, text_lines};
use crate::ui::markdown::{format_message, format_message_content};
use crate::ui::styled::{
    bold, colored, empty_line, line_of, lines_view, plain, push_line, Color, SpanStyle, StyledLine,
};

verus! {

/// Who wrote a chat message.
#[derive(Clone, Copy, Debug, PartialEq, Eq, Structural)]
pub enum ChatRole {
    User,
    Assistant,
}

/// A tool call of a chat message: the tool's name, its input and its
/// output, as text.
pub struct ToolCallRecord {
    pub name: String,
    pub input: String,
    pub output: String,
}

impl View for ToolCallRecord {
    type V = (Seq<char>, Seq<char>, Seq<char>);

    open spec fn view(&self) -> (Seq<char>, Seq<char>, Seq<char>) {
        (self.name@, self.input@, self.output@)
    }
}

/// A message of the conversation.
pub struct ChatMessage {
    pub role: ChatRole,
    pub content: String,
    pub tool_calls: Vec<ToolCallRecord>,
}

/// The view of a message: role, text and tool calls.
pub open spec fn message_view(m: ChatMessage) -> (
    ChatRole,
    Seq<char>,
    Seq<(Seq<char>, Seq<char>, Seq<char>)>,
) {
    (m.role, m.content@, m.tool_calls@.map_values(|c: ToolCallRecord| c@))
}

/// The views of a list of messages.
pub open spec fn messages_view(ms: Seq<ChatMessage>) -> Seq<
    (ChatRole, Seq<char>, Seq<(Seq<char>, Seq<char>, Seq<char>)>),
> {
    ms.map_values(|m: ChatMessage| message_view(m))
}

/// The most output lines shown for one tool call.
pub open spec fn output_line_limit() -> nat {
    50
}

/// The lines of a tool call's output that are shown, indented.
pub open spec fn output_lines(out: Seq<char>) -> Seq<Seq<(Seq<char>, SpanStyle)>> {
    let ls = text_lines(out);
    let shown = if ls.len() > output_line_limit() {
        ls.take(output_line_limit() as int)
    } else {
        ls
    };
    shown.map_values(|l: Seq<char>| seq![("    "@ + l, plain())])
}

/// The log lines of tool call number `k` (counted from 0) of a message.
pub open spec fn tool_call_lines(k: nat, c: (Seq<char>, Seq<char>, Seq<char>)) -> Seq<
    Seq<(Seq<char>, SpanStyle)>,
> {
    let head = seq![
        ("🔧 Tool #"@ + decimal(k + 1) + ": "@, bold(Color::Yellow)),
        (c.0, colored(Color::White)),
    ];
    let input = if c.1.len() > 0 {
        seq![seq![("  Input: "@, colored(Color::Gray)), (c.1, plain())]]
    } else {
        seq![]
    };
    let output = if c.2.len() > 0 {
        seq![seq![("  Output:"@, colored(Color::Gray))]] + output_lines(c.2) + (if text_lines(
            c.2,
        ).len() > output_line_limit() {
            seq![
                seq![
                    ("    ... (truncated)"@, SpanStyle {
                        fg: Color::DarkGray,
                        bg: Color::Default,
                        bold: false,
                        italic: true,
                        reversed: false,
                        underlined: false,
                    }),
                ],
            ]
        } else {
            seq![]
        })
    } else {
        seq![]
    };
    seq![head] + input + output + seq![seq![]]
}

/// The log lines of the tool calls of a message.
pub open spec fn calls_lines(calls: Seq<(Seq<char>, Seq<char>, Seq<char>)>) -> Seq<
    Seq<(Seq<char>, SpanStyle)>,
>
    decreases calls.len(),
{
    if calls.len() == 0 {
        seq![]
    } else {
        calls_lines(calls.drop_last()) + tool_call_lines((calls.len() - 1) as nat, calls.last())
    }
}

/// What a message is called in the log: `After user message #n`, or the
/// assistant's name followed by `'s response #n`; counted from 1.
pub open spec fn message_context(idx: nat, role: ChatRole, assistant: Seq<char>) -> Seq<char> {
    match role {
        ChatRole::User => "After user message #"@ + decimal(idx + 1),
        ChatRole::Assistant => assistant + "'s response #"@ + decimal(idx + 1),
    }
}

/// The log lines of message number `idx`: none when it made no tool call.
pub open spec fn message_log_lines(
    assistant: Seq<char>,
    idx: nat,
    m: (ChatRole, Seq<char>, Seq<(Seq<char>, Seq<char>, Seq<char>)>),
) -> Seq<Seq<(Seq<char>, SpanStyle)>> {
    if m.2.len() == 0 {
        seq![]
    } else {
        seq![seq![("═══ "@ + message_context(idx, m.0, assistant) + " ═══"@, bold(Color::White))], seq![]]
            + calls_lines(m.2)
    }
}

/// The log lines of a list of messages.
pub open spec fn messages_log(
    assistant: Seq<char>,
    ms: Seq<(ChatRole, Seq<char>, Seq<(Seq<char>, Seq<char>, Seq<char>)>)>,
) -> Seq<Seq<(Seq<char>, SpanStyle)>>
    decreases ms.len(),
{
    if ms.len() == 0 {
        seq![]
    } else {
        messages_log(assistant, ms.drop_last()) + message_log_lines(
            assistant,
            (ms.len() - 1) as nat,
            ms.last(),
        )
    }
}

/// The tool call log pane: the log of every message, or a placeholder when
/// no message made a tool call.
pub open spec fn chat_log(
    assistant: Seq<char>,
    ms: Seq<(ChatRole, Seq<char>, Seq<(Seq<char>, Seq<char>, Seq<char>)>)>,
) -> Seq<Seq<(Seq<char>, SpanStyle)>> {
    let l = messages_log(assistant, ms);
    if l.len() == 0 {
        seq![
            seq![
                ("No tool calls yet..."@, SpanStyle {
                    fg: Color::DarkGray,
                    bg: Color::Default,
                    bold: false,
                    italic: true,
                    reversed: false,
                    underlined: false,
                }),
            ],
            seq![],
            seq![
                ("Tool calls will appear here when "@ + assistant + " uses workflows."@, colored(
                    Color::DarkGray,
                )),
            ],
        ]
    } else {
        l
    }
}

fn push_output_lines(lines: &mut Vec<StyledLine>, out: &str)
    requires
        out@.len() > 0,
    ensures
        lines_view(final(lines)@) == lines_view(old(lines)@) + output_lines(out@) + (if text_lines(
            out@,
        ).len() > output_line_limit() {
            seq![
                seq![
                    ("    ... (truncated)"@, SpanStyle {
                        fg: Color::DarkGray,
                        bg: Color::Default,
                        bold: false,
                        italic: true,
                        reversed: false,
                        underlined: false,
                    }),
                ],
            ]
        } else {
            seq![]
        }),
{
    let cs = str_to_chars(out);
    let ghost ls = text_lines(cs@);
    let ghost start = lines_view(lines@);
    let mut p: usize = 0;
    let mut count: usize = 0;
    while p < cs.len() && count < 50
        invariant
            cs@ == out@,
            ls == text_lines(cs@),
            p <= cs.len(),
            count <= 50,
            count <= ls.len(),
            lines_from(cs@, p as nat) == ls.skip(count as int),
            lines_view(lines@) == start + ls.take(count as int).map_values(
                |l: Seq<char>| seq![("    "@ + l, plain())],
            ),
        decreases cs.len() - p,
    {
        let (c, j) = line_bounds(&cs, p);
        let ghost piece = cs@.subrange(p as int, c as int);
        proof {
            if j < cs.len() {
                assert(lines_from(cs@, p as nat) == seq![piece] + lines_from(cs@, (j + 1) as nat));
            } else {
                assert(lines_from(cs@, p as nat) == seq![piece]);
            }
            assert(ls.skip(count as int)[0] == piece);
            assert(ls[count as int] == piece);
        }
        let mut text = String::from_str("    ");
        let body = chars_to_string(&cs, p, c);
        push_str(&mut text, body.as_str());
        let ghost tv = text@;
        push_line(lines, line_of(text, SpanStyle { fg: Color::Default, bg: Color::Default, bold: false, italic: false, reversed: false, underlined: false }));
        proof {
            assert(ls.take(count + 1) =~= ls.take(count as int).push(piece));
            assert(ls.take(count + 1).map_values(|l: Seq<char>| seq![("    "@ + l, plain())])
                =~= ls.take(count as int).map_values(|l: Seq<char>| seq![("    "@ + l, plain())]).push(
                seq![("    "@ + piece, plain())],
            ));
        }
        count = count + 1;
        if j >= cs.len() {
            proof {
                assert(ls.skip(count as int) =~= Seq::<Seq<char>>::empty());
                assert(lines_from(cs@, cs@.len()) =~= Seq::<Seq<char>>::empty());
            }
            p = cs.len();
        } else {
            proof {
                let rest = lines_from(cs@, (j + 1) as nat);
                let prev = ls.skip(count - 1);
                assert(prev == seq![piece] + rest);
                assert(ls.skip(count as int) =~= prev.skip(1));
                assert((seq![piece] + rest).skip(1) =~= rest);
            }
            p = j + 1;
        }
    }
    proof {
        if count < 50 {
            assert(lines_from(cs@, p as nat) =~= Seq::<Seq<char>>::empty());
            assert(ls.skip(count as int).len() == 0);
            assert(ls.take(count as int) =~= ls);
        } else {
            assert(count == 50);
        }
    }
    if p < cs.len() {
        proof {
            assert(lines_from(cs@, p as nat).len() > 0);
            assert(ls.len() > 50);
        }
        push_line(
            lines,
            line_of(
                String::from_str("    ... (truncated)"),
                SpanStyle { fg: Color::DarkGray, bg: Color::Default, bold: false, italic: true, reversed: false, underlined: false },
            ),
        );
    } else {
        proof {
            assert(lines_from(cs@, p as nat) =~= Seq::<Seq<char>>::empty());
            assert(ls.len() <= 50);
        }
    }
    assert(lines_view(lines@) =~= start + output_lines(out@) + (if text_lines(out@).len()
        > output_line_limit() {
        seq![
            seq![
                ("    ... (truncated)"@, SpanStyle {
                    fg: Color::DarkGray,
                    bg: Color::Default,
                    bold: false,
                    italic: true,
                    reversed: false,
                    underlined: false,
                }),
            ],
        ]
    } else {
        seq![]
    }));
}


fn push_tool_call_lines(lines: &mut Vec<StyledLine>, k: usize, call: &ToolCallRecord)
    requires
        k < usize::MAX,
    ensures
        lines_view(final(lines)@) == lines_view(old(lines)@) + tool_call_lines(k as nat, call@),
{
    let ghost start = lines_view(lines@);
    let mut head_text = String::from_str("🔧 Tool #");
    push_decimal(&mut head_text, (k + 1) as u64);
    push_str(&mut head_text, ": ");
    assert(head_text@ == "🔧 Tool #"@ + decimal((k + 1) as nat) + ": "@);
    let mut head = line_of(head_text, SpanStyle { fg: Color::Yellow, bg: Color::Default, bold: true, italic: false, reversed: false, underlined: false });
    let name = call.name.clone();
    assert(name@ == call.name@);
    head.push(name, SpanStyle { fg: Color::White, bg: Color::Default, bold: false, italic: false, reversed: false, underlined: false });
    assert(head@ == seq![
            ("🔧 Tool #"@ + decimal((k + 1) as nat) + ": "@, bold(Color::Yellow)),
            (call.name@, colored(Color::White)),
        ]);
    push_line(lines, head);
    let ghost after_head = lines_view(lines@);
    let no_input = call.input.as_str().is_empty();
    assert(no_input == (call@.1.len() == 0));
    if !no_input {
        let mut l = line_of(String::from_str("  Input: "), SpanStyle { fg: Color::Gray, bg: Color::Default, bold: false, italic: false, reversed: false, underlined: false });
        let input = call.input.clone();
        assert(input@ == call.input@);
        l.push(input, SpanStyle { fg: Color::Default, bg: Color::Default, bold: false, italic: false, reversed: false, underlined: false });
        assert(l@ == seq![("  Input: "@, colored(Color::Gray)), (call@.1, plain())]);
        assert(lines_view(lines@) == after_head);
        push_line(lines, l);
        assert(lines_view(lines@) =~= after_head + seq![seq![("  Input: "@, colored(Color::Gray)), (call@.1, plain())]]);
    } else {
        assert(lines_view(lines@) =~= after_head + Seq::<Seq<(Seq<char>, SpanStyle)>>::empty());
    }
    let ghost after_input = lines_view(lines@);
    let no_output = call.output.as_str().is_empty();
    assert(no_output == (call@.2.len() == 0));
    if !no_output {
        push_line(lines, line_of(String::from_str("  Output:"), SpanStyle { fg: Color::Gray, bg: Color::Default, bold: false, italic: false, reversed: false, underlined: false }));
        push_output_lines(lines, call.output.as_str());
    }
    let ghost after_output = lines_view(lines@);
    push_line(lines, empty_line());
    proof {
        let c = call@;
        let head_v = seq![
            ("🔧 Tool #"@ + decimal((k + 1) as nat) + ": "@, bold(Color::Yellow)),
            (c.0, colored(Color::White)),
        ];
        assert(after_head == start.push(head_v));
        let input_v = if c.1.len() > 0 {
            seq![seq![("  Input: "@, colored(Color::Gray)), (c.1, plain())]]
        } else {
            Seq::<Seq<(Seq<char>, SpanStyle)>>::empty()
        };
        assert(after_input =~= after_head + input_v);
        let trunc = if text_lines(c.2).len() > output_line_limit() {
            seq![
                seq![
                    ("    ... (truncated)"@, SpanStyle {
                        fg: Color::DarkGray,
                        bg: Color::Default,
                        bold: false,
                        italic: true,
                        reversed: false,
                        underlined: false,
                    }),
                ],
            ]
        } else {
            Seq::<Seq<(Seq<char>, SpanStyle)>>::empty()
        };
        let output_v = if c.2.len() > 0 {
            seq![seq![("  Output:"@, colored(Color::Gray))]] + output_lines(c.2) + trunc
        } else {
            Seq::<Seq<(Seq<char>, SpanStyle)>>::empty()
        };
        assert(after_output =~= after_input + output_v);
        assert(lines_view(lines@) =~= start + tool_call_lines(k as nat, c));
    }
}

fn push_message_log(lines: &mut Vec<StyledLine>, assistant: &str, i: usize, msg: &ChatMessage)
    requires
        i < usize::MAX,
    ensures
        lines_view(final(lines)@) == lines_view(old(lines)@) + message_log_lines(
            assistant@,
            i as nat,
            message_view(*msg),
        ),
{
    let ghost before = lines_view(lines@);
    let ghost mv = message_view(*msg);
    if msg.tool_calls.len() > 0 {
        let mut head = String::from_str("═══ ");
        match msg.role {
            ChatRole::User => push_str(&mut head, "After user message #"),
            ChatRole::Assistant => {
                push_str(&mut head, assistant);
                push_str(&mut head, "'s response #");
            },
        };
        push_decimal(&mut head, (i + 1) as u64);
        push_str(&mut head, " ═══");
        assert(head@ =~= "═══ "@ + message_context(i as nat, msg.role, assistant@) + " ═══"@);
        push_line(lines, line_of(head, SpanStyle { fg: Color::White, bg: Color::Default, bold: true, italic: false, reversed: false, underlined: false }));
        push_line(lines, empty_line());
        let ghost after_header = lines_view(lines@);
        let mut k: usize = 0;
        while k < msg.tool_calls.len()
            invariant
                k <= msg.tool_calls.len(),
                mv == message_view(*msg),
                lines_view(lines@) == after_header + calls_lines(mv.2.take(k as int)),
            decreases msg.tool_calls.len() - k,
        {
            assert(mv.2.take(k + 1).drop_last() =~= mv.2.take(k as int));
            assert(mv.2.take(k + 1).last() == msg.tool_calls@[k as int]@);
            push_tool_call_lines(lines, k, &msg.tool_calls[k]);
            assert(lines_view(lines@) =~= after_header + calls_lines(mv.2.take(k + 1)));
            k = k + 1;
        }
        assert(mv.2.take(mv.2.len() as int) =~= mv.2);
        assert(lines_view(lines@) =~= before + message_log_lines(assistant@, i as nat, mv));
    } else {
        assert(message_log_lines(assistant@, i as nat, mv) =~= Seq::<
            Seq<(Seq<char>, SpanStyle)>,
        >::empty());
        assert(lines_view(lines@) =~= before + message_log_lines(assistant@, i as nat, mv));
    }
}

/// The tool call log pane of a conversation: for each message that made
/// tool calls, a header naming the message and, per call, its name, its
/// input and up to fifty lines of its output; a placeholder when no message
/// made a tool call. The assistant is called by the name `assistant`.
pub fn chat_log_lines(messages: &Vec<ChatMessage>, assistant: &str) -> (res: Vec<StyledLine>)
    ensures
        lines_view(res@) == chat_log(assistant@, messages_view(messages@)),
{
    let mut lines: Vec<StyledLine> = Vec::new();
    let mut i: usize = 0;
    assert(lines_view(lines@) =~= Seq::<Seq<(Seq<char>, SpanStyle)>>::empty());
    while i < messages.len()
        invariant
            i <= messages.len(),
            lines_view(lines@) == messages_log(assistant@, messages_view(messages@.take(i as int))),
        decreases messages.len() - i,
    {
        let ghost before = lines_view(lines@);
        let ghost prefix = messages_view(messages@.take(i as int));
        assert(messages_view(messages@.take(i + 1)).drop_last() =~= prefix);
        push_message_log(&mut lines, assistant, i, &messages[i]);
        assert(messages_view(messages@.take(i + 1)).last() == message_view(messages@[i as int]));
        assert(lines_view(lines@) =~= messages_log(assistant@, messages_view(messages@.take(i + 1))));
        i = i + 1;
    }
    assert(messages@.take(messages@.len() as int) =~= messages@);
    if lines.len() == 0 {
        push_line(
            &mut lines,
            line_of(
                String::from_str("No tool calls yet..."),
                SpanStyle { fg: Color::DarkGray, bg: Color::Default, bold: false, italic: true, reversed: false, underlined: false },
            ),
        );
        push_line(&mut lines, empty_line());
        let mut hint = String::from_str("Tool calls will appear here when ");
        push_str(&mut hint, assistant);
        push_str(&mut hint, " uses workflows.");
        push_line(
            &mut lines,
            line_of(hint, SpanStyle { fg: Color::DarkGray, bg: Color::Default, bold: false, italic: false, reversed: false, underlined: false }),
        );
    }
    lines
}


/// The name shown before a message.
pub open spec fn role_label(role: ChatRole, assistant: Seq<char>) -> Seq<char> {
    match role {
        ChatRole::User => "You: "@,
        ChatRole::Assistant => assistant + ": "@,
    }
}

/// The lines of one message in the conversation pane: its author, its
/// formatted text, a note on its tool calls when it made any, and a blank
/// line.
pub open spec fn message_lines(
    assistant: Seq<char>,
    m: (ChatRole, Seq<char>, Seq<(Seq<char>, Seq<char>, Seq<char>)>),
) -> Seq<Seq<(Seq<char>, SpanStyle)>> {
    seq![seq![(role_label(m.0, assistant), bold(Color::White))]] + format_message(m.1) + (if m.2.len() > 0 {
        seq![
            seq![],
            seq![
                ("  🔧 "@ + decimal(m.2.len()) + " tool(s) used (see logs →)"@, colored(
                    Color::Yellow,
                )),
            ],
        ]
    } else {
        seq![]
    }) + seq![seq![]]
}

/// The lines of a conversation.
pub open spec fn conversation(
    assistant: Seq<char>,
    ms: Seq<(ChatRole, Seq<char>, Seq<(Seq<char>, Seq<char>, Seq<char>)>)>,
) -> Seq<Seq<(Seq<char>, SpanStyle)>>
    decreases ms.len(),
{
    if ms.len() == 0 {
        seq![]
    } else {
        conversation(assistant, ms.drop_last()) + message_lines(assistant, ms.last())
    }
}

/// The two lines shown while an answer is awaited: a spinner frame, and the
/// seconds waited so far.
pub open spec fn waiting_lines(spinner: char, elapsed: nat) -> Seq<Seq<(Seq<char>, SpanStyle)>> {
    seq![
        seq![
            (seq![spinner, ' '], bold(Color::White)),
            ("Thinking"@, colored(Color::Yellow)),
            ("…"@, colored(Color::DarkGray)),
        ],
        seq![
            ("  (esc to interrupt"@, colored(Color::DarkGray)),
            (" · "@ + decimal(elapsed) + "s)"@, colored(Color::DarkGray)),
        ],
    ]
}

fn push_message_lines(lines: &mut Vec<StyledLine>, assistant: &str, msg: &ChatMessage)
    ensures
        lines_view(final(lines)@) == lines_view(old(lines)@) + message_lines(
            assistant@,
            message_view(*msg),
        ),
{
    let ghost before = lines_view(lines@);
    let label = match msg.role {
        ChatRole::User => String::from_str("You: "),
        ChatRole::Assistant => {
            let mut l = String::from_str(assistant);
            push_str(&mut l, ": ");
            l
        },
    };
    push_line(lines, line_of(label, SpanStyle { fg: Color::White, bg: Color::Default, bold: true, italic: false, reversed: false, underlined: false }));
    let body = format_message_content(msg.content.as_str());
    let ghost after_label = lines_view(lines@);
    let mut k: usize = 0;
    while k < body.len()
        invariant
            k <= body.len(),
            lines_view(lines@) == after_label + lines_view(body@.take(k as int)),
        decreases body.len() - k,
    {
        let l = StyledLine { spans: Vec::new() };
        let ghost bv = body@[k as int]@;
        let mut copy = l;
        let mut j: usize = 0;
        while j < body[k].spans.len()
            invariant
                k < body.len(),
                j <= body@[k as int].spans.len(),
                bv == body@[k as int]@,
                copy@ == bv.take(j as int),
            decreases body@[k as int].spans.len() - j,
        {
            let sp = &body[k].spans[j];
            copy.push(sp.text.clone(), sp.style);
            assert(bv.take(j + 1) =~= bv.take(j as int).push(bv[j as int]));
            j = j + 1;
        }
        assert(bv.take(bv.len() as int) =~= bv);
        push_line(lines, copy);
        assert(lines_view(body@.take(k + 1)) =~= lines_view(body@.take(k as int)).push(bv));
        k = k + 1;
    }
    assert(body@.take(body@.len() as int) =~= body@);
    let n = msg.tool_calls.len();
    let ghost after_body = lines_view(lines@);
    if n > 0 {
        push_line(lines, empty_line());
        let mut note = String::from_str("  🔧 ");
        push_decimal(&mut note, n as u64);
        push_str(&mut note, " tool(s) used (see logs →)");
        push_line(lines, line_of(note, SpanStyle { fg: Color::Yellow, bg: Color::Default, bold: false, italic: false, reversed: false, underlined: false }));
    }
    let ghost after_note = lines_view(lines@);
    push_line(lines, empty_line());
    proof {
        let mv = message_view(*msg);
        assert(mv.2.len() == n);
        let note_v = if mv.2.len() > 0 {
            seq![
                Seq::<(Seq<char>, SpanStyle)>::empty(),
                seq![
                    ("  🔧 "@ + decimal(mv.2.len()) + " tool(s) used (see logs →)"@, colored(
                        Color::Yellow,
                    )),
                ],
            ]
        } else {
            Seq::<Seq<(Seq<char>, SpanStyle)>>::empty()
        };
        assert(after_note =~= after_body + note_v);
        assert(lines_view(lines@) =~= before + message_lines(assistant@, mv));
    }
}

/// The conversation pane of a ready chat: each message with its author and
/// formatted text; while an answer is awaited (`waiting` holds the spinner
/// frame and the seconds waited), two lines saying so. The assistant is
/// called by the name `assistant`.
pub fn chat_message_lines(
    messages: &Vec<ChatMessage>,
    assistant: &str,
    waiting: Option<(char, u64)>,
) -> (res: Vec<StyledLine>)
    ensures
        lines_view(res@) == conversation(assistant@, messages_view(messages@)) + match waiting {
            Some(w) => waiting_lines(w.0, w.1 as nat),
            None => seq![],
        },
{
    let mut lines: Vec<StyledLine> = Vec::new();
    let mut i: usize = 0;
    assert(lines_view(lines@) =~= Seq::<Seq<(Seq<char>, SpanStyle)>>::empty());
    while i < messages.len()
        invariant
            i <= messages.len(),
            lines_view(lines@) == conversation(assistant@, messages_view(messages@.take(i as int))),
        decreases messages.len() - i,
    {
        assert(messages_view(messages@.take(i + 1)).drop_last() =~= messages_view(
            messages@.take(i as int),
        ));
        push_message_lines(&mut lines, assistant, &messages[i]);
        assert(messages_view(messages@.take(i + 1)).last() == message_view(messages@[i as int]));
        i = i + 1;
    }
    assert(messages@.take(messages@.len() as int) =~= messages@);
    let ghost conv = lines_view(lines@);
    match waiting {
        Some((spinner, elapsed)) => {
            let mut frame = String::new();
            crate::text::string_push(&mut frame, spinner);
            crate::text::string_push(&mut frame, ' ');
            let mut first = line_of(frame, SpanStyle { fg: Color::White, bg: Color::Default, bold: true, italic: false, reversed: false, underlined: false });
            first.push(String::from_str("Thinking"), SpanStyle { fg: Color::Yellow, bg: Color::Default, bold: false, italic: false, reversed: false, underlined: false });
            first.push(String::from_str("…"), SpanStyle { fg: Color::DarkGray, bg: Color::Default, bold: false, italic: false, reversed: false, underlined: false });
            assert(frame@ =~= seq![spinner, ' ']);
            assert(first@ =~= waiting_lines(spinner, elapsed as nat)[0]);
            push_line(&mut lines, first);
            let mut secs = String::from_str(" · ");
            push_decimal(&mut secs, elapsed);
            push_str(&mut secs, "s)");
            let mut second = line_of(String::from_str("  (esc to interrupt"), SpanStyle { fg: Color::DarkGray, bg: Color::Default, bold: false, italic: false, reversed: false, underlined: false });
            second.push(secs, SpanStyle { fg: Color::DarkGray, bg: Color::Default, bold: false, italic: false, reversed: false, underlined: false });
            assert(second@ =~= waiting_lines(spinner, elapsed as nat)[1]);
            push_line(&mut lines, second);
            assert(lines_view(lines@) =~= conv + waiting_lines(spinner, elapsed as nat));
        },
        None => {
            assert(lines_view(lines@) =~= conv + Seq::<Seq<(Seq<char>, SpanStyle)>>::empty());
        },
    }
    lines
}

} // verus!

verus! {

// ============================================================================
// The states of the chat pane
// ============================================================================

/// The state of the chat session.
pub enum ChatPhase {
    /// The session is being set up; the spinner's current frame.
    Loading { spinner: char },
    /// Setting up the session failed, with this message.
    Failed { error: String },
    /// The session is ready.
    Ready,
}

/// Which pane of the chat screen has the focus.
#[derive(Clone, Copy, Debug, PartialEq, Eq, Structural)]
pub enum ChatPane {
    Messages,
    Logs,
}

/// The lines shown while the session is set up.
pub open spec fn loading_lines(spinner: char, assistant: Seq<char>) -> Seq<
    Seq<(Seq<char>, SpanStyle)>,
> {
    seq![
        seq![],
        seq![],
        seq![],
        seq![
            ("    "@ + seq![spinner, ' '], bold(Color::White)),
            ("Initializing "@ + assistant + "..."@, colored(Color::Yellow)),
        ],
        seq![],
        seq![("    Please wait while we set up your AI assistant"@, colored(Color::DarkGray))],
    ]
}

/// The lines shown when setting up the session failed.
pub open spec fn failure_lines(error: Seq<char>) -> Seq<Seq<(Seq<char>, SpanStyle)>> {
    seq![
        seq![],
        seq![],
        seq![("    ✗ Initialization Failed"@, bold(Color::Red))],
        seq![],
        seq![("    "@ + error, colored(Color::Red))],
    ]
}

/// The lines of the messages pane in each state: the notice while the
/// session is set up or after it failed, else the conversation (and the
/// waiting lines, see `chat_message_lines`).
pub fn chat_pane_lines(
    phase: &ChatPhase,
    messages: &Vec<ChatMessage>,
    assistant: &str,
    waiting: Option<(char, u64)>,
) -> (res: Vec<StyledLine>)
    ensures
        lines_view(res@) == match phase {
            ChatPhase::Loading { spinner } => loading_lines(*spinner, assistant@),
            ChatPhase::Failed { error } => failure_lines(error@),
            ChatPhase::Ready => conversation(assistant@, messages_view(messages@)) + match waiting {
                Some(w) => waiting_lines(w.0, w.1 as nat),
                None => seq![],
            },
        },
{
    match phase {
        ChatPhase::Loading { spinner } => {
            let mut lines: Vec<StyledLine> = Vec::new();
            push_line(&mut lines, empty_line());
            push_line(&mut lines, empty_line());
            push_line(&mut lines, empty_line());
            let mut head = String::from_str("    ");
            crate::text::string_push(&mut head, *spinner);
            crate::text::string_push(&mut head, ' ');
            assert(head@ =~= "    "@ + seq![*spinner, ' ']);
            let mut l = line_of(head, SpanStyle { fg: Color::White, bg: Color::Default, bold: true, italic: false, reversed: false, underlined: false });
            let mut what = String::from_str("Initializing ");
            push_str(&mut what, assistant);
            push_str(&mut what, "...");
            l.push(what, SpanStyle { fg: Color::Yellow, bg: Color::Default, bold: false, italic: false, reversed: false, underlined: false });
            push_line(&mut lines, l);
            push_line(&mut lines, empty_line());
            push_line(&mut lines, line_of(String::from_str("    Please wait while we set up your AI assistant"), SpanStyle { fg: Color::DarkGray, bg: Color::Default, bold: false, italic: false, reversed: false, underlined: false }));
            proof {
                let e = loading_lines(*spinner, assistant@);
                let now = lines_view(lines@);
                assert(now[3][0] == e[3][0]);
                assert(now[3][1] == e[3][1]);
                assert(now[3] =~= e[3]);
                assert(now =~= e);
            }
            lines
        },
        ChatPhase::Failed { error } => {
            let mut lines: Vec<StyledLine> = Vec::new();
            push_line(&mut lines, empty_line());
            push_line(&mut lines, empty_line());
            push_line(&mut lines, line_of(String::from_str("    ✗ Initialization Failed"), SpanStyle { fg: Color::Red, bg: Color::Default, bold: true, italic: false, reversed: false, underlined: false }));
            push_line(&mut lines, empty_line());
            let mut m = String::from_str("    ");
            push_str(&mut m, error.as_str());
            push_line(&mut lines, line_of(m, SpanStyle { fg: Color::Red, bg: Color::Default, bold: false, italic: false, reversed: false, underlined: false }));
            assert(lines_view(lines@) =~= failure_lines(error@));
            lines
        },
        ChatPhase::Ready => chat_message_lines(messages, assistant, waiting),
    }
}

/// The title of the messages pane and its border colour: the loading
/// indicator while the session is set up, a cross after it failed, a tick
/// when ready (white when the pane has the focus).
pub open spec fn chat_title_spec(phase: ChatPhase, indicator: Seq<char>, assistant: Seq<char>, pane: ChatPane) -> (
    Seq<char>,
    Color,
) {
    let head = " Chat with "@ + assistant + " ["@;
    match phase {
        ChatPhase::Loading { .. } => (head + indicator + "] "@, Color::Yellow),
        ChatPhase::Failed { .. } => (head + "✗] "@, Color::Red),
        ChatPhase::Ready => (head + "✓] "@, if pane == ChatPane::Messages {
            Color::White
        } else {
            Color::DarkGray
        }),
    }
}

/// The title of the messages pane and its border colour (see
/// `chat_title_spec`); `indicator` is the loading animation's frame.
pub fn chat_title(phase: &ChatPhase, indicator: &str, assistant: &str, pane: ChatPane) -> (r: (
    String,
    Color,
))
    ensures
        (r.0@, r.1) == chat_title_spec(*phase, indicator@, assistant@, pane),
{
    let mut t = String::from_str(" Chat with ");
    push_str(&mut t, assistant);
    push_str(&mut t, " [");
    match phase {
        ChatPhase::Loading { .. } => {
            push_str(&mut t, indicator);
            push_str(&mut t, "] ");
            (t, Color::Yellow)
        },
        ChatPhase::Failed { .. } => {
            push_str(&mut t, "✗] ");
            (t, Color::Red)
        },
        ChatPhase::Ready => {
            push_str(&mut t, "✓] ");
            let c = match pane {
                ChatPane::Messages => Color::White,
                ChatPane::Logs => Color::DarkGray,
            };
            (t, c)
        },
    }
}

/// The title of the input box and its colour in each state.
pub open spec fn input_title_spec(phase: ChatPhase) -> (Seq<char>, Color) {
    match phase {
        ChatPhase::Failed { error } => (" Error: "@ + error@ + " "@, Color::Red),
        ChatPhase::Loading { .. } => (" Please wait... "@, Color::DarkGray),
        ChatPhase::Ready => (" Type your message (Enter to send, Tab to switch pane) "@, Color::White),
    }
}

/// The title of the input box and its colour (see `input_title_spec`).
pub fn input_title(phase: &ChatPhase) -> (r: (String, Color))
    ensures
        (r.0@, r.1) == input_title_spec(*phase),
{
    match phase {
        ChatPhase::Failed { error } => {
            let mut t = String::from_str(" Error: ");
            push_str(&mut t, error.as_str());
            push_str(&mut t, " ");
            (t, Color::Red)
        },
        ChatPhase::Loading { .. } => (String::from_str(" Please wait... "), Color::DarkGray),
        ChatPhase::Ready => (
            String::from_str(" Type your message (Enter to send, Tab to switch pane) "),
            Color::White,
        ),
    }
}

/// The border colour of the tool call log: yellow when it has the focus.
pub fn logs_border(pane: ChatPane) -> (c: Color)
    ensures
        c == (if pane == ChatPane::Logs {
            Color::Yellow
        } else {
            Color::DarkGray
        }),
{
    match pane {
        ChatPane::Logs => Color::Yellow,
        ChatPane::Messages => Color::DarkGray,
    }
}

} // verus!
