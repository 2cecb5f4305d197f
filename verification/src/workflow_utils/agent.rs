//! Bookkeeping of agent runs: tool-use descriptions, sub-agent detection and
//! the tracking of delegations while an agent's message stream is handled.
use vstd::prelude::*;

use crate::text::{
    chars_to_string, is_white_space, push_str, remove_all, replace_all, shorten, shortened,
    can_shorten, str_to_chars, text_eq, trim, trim_range, char_is_white_space, shortenable,
};

verus! {

// ============================================================================
// Tool input
// ============================================================================

/// The input of a tool use, as the library reads it: its fields whose value
/// is a string, in order.
pub struct ToolInput {
    pub fields: Vec<(String, String)>,
}

impl View for ToolInput {
    type V = Seq<(Seq<char>, Seq<char>)>;

    open spec fn view(&self) -> Seq<(Seq<char>, Seq<char>)> {
        self.fields@.map_values(|p: (String, String)| (p.0@, p.1@))
    }
}

/// The value of the first field named `key` at or after index `i`.
pub open spec fn field_from(fields: Seq<(Seq<char>, Seq<char>)>, key: Seq<char>, i: int) -> Option<
    Seq<char>,
>
    decreases fields.len() - i,
{
    if i < 0 || i >= fields.len() {
        None
    } else if fields[i].0 == key {
        Some(fields[i].1)
    } else {
        field_from(fields, key, i + 1)
    }
}

/// The string value of the field `key` (`input.get(key).and_then(as_str)`).
pub open spec fn input_field(fields: Seq<(Seq<char>, Seq<char>)>, key: Seq<char>) -> Option<
    Seq<char>,
> {
    field_from(fields, key, 0)
}

impl ToolInput {
    /// An input without string fields.
    pub fn new() -> (res: Self)
        ensures
            res@.len() == 0,
    {
        ToolInput { fields: Vec::new() }
    }

    /// The input with one more string field.
    pub fn with_field(self, key: &str, value: &str) -> (res: Self)
        ensures
            res@ == self@.push((key@, value@)),
    {
        let mut fields = self.fields;
        fields.push((String::from_str(key), String::from_str(value)));
        let res = ToolInput { fields };
        assert(res@ =~= self@.push((key@, value@)));
        res
    }

    /// The string value of the field `key`, if any.
    pub fn get_str(&self, key: &str) -> (r: Option<&str>)
        ensures
            r matches Some(v) ==> input_field(self@, key@) == Some(v@),
            r is None ==> input_field(self@, key@) is None,
    {
        let mut i: usize = 0;
        while i < self.fields.len()
            invariant
                i <= self.fields.len(),
                input_field(self@, key@) == field_from(self@, key@, i as int),
            decreases self.fields.len() - i,
        {
            let entry = &self.fields[i];
            assert(self@[i as int] == (entry.0@, entry.1@));
            if text_eq(entry.0.as_str(), key) {
                return Some(entry.1.as_str());
            }
            i = i + 1;
        }
        None
    }
}

// ============================================================================
// Sub-agent detection
// ============================================================================

/// `char::is_alphanumeric`: the Unicode `Alphabetic` or `Numeric` property.
pub uninterp spec fn unicode_alphanumeric(c: char) -> bool;

/// Whether `c` is alphanumeric (`char::is_alphanumeric`).
///
/// Claims that the answer depends on the character alone, and, for ASCII
/// characters, that exactly the letters and digits are alphanumeric.
#[verifier::external_body]
pub(crate) fn char_is_alphanumeric(c: char) -> (r: bool)
    ensures
        r == unicode_alphanumeric(c),
        (c as u32) < 128 ==> (r <==> ('a' <= c <= 'z' || 'A' <= c <= 'Z' || '0' <= c <= '9')),
{
    c.is_alphanumeric()
}

/// A character that can be part of a sub-agent name: an alphanumeric
/// character, `-` or `_`. Among ASCII characters the alphanumeric ones are
/// exactly the letters and digits.
pub open spec fn is_name_char(c: char) -> bool {
    if (c as u32) < 128 {
        ('a' <= c <= 'z' || 'A' <= c <= 'Z' || '0' <= c <= '9') || c == '-' || c == '_'
    } else {
        unicode_alphanumeric(c) || c == '-' || c == '_'
    }
}

/// End of the run of name characters of the word starting at `i`.
pub open spec fn name_end(s: Seq<char>, i: int) -> int
    decreases s.len() - i,
{
    if 0 <= i < s.len() && !is_white_space(s[i]) && is_name_char(s[i]) {
        name_end(s, i + 1)
    } else {
        i
    }
}

/// A word of `s` starts at `i` with `@` followed by at least one name
/// character.
pub open spec fn mention_at(s: Seq<char>, i: int) -> bool {
    &&& 0 <= i < s.len()
    &&& s[i] == '@'
    &&& (i == 0 || is_white_space(s[i - 1]))
    &&& name_end(s, i + 1) > i + 1
}

/// The name of the first `@name` mention at or after `i`.
pub open spec fn mention_from(s: Seq<char>, i: int) -> Option<Seq<char>>
    decreases s.len() - i,
{
    if i < 0 || i >= s.len() {
        None
    } else if mention_at(s, i) {
        Some(s.subrange(i + 1, name_end(s, i + 1)))
    } else {
        mention_from(s, i + 1)
    }
}

/// The first `@name` mention of a field, if the field is present.
pub open spec fn field_mention(fields: Seq<(Seq<char>, Seq<char>)>, key: Seq<char>) -> Option<
    Seq<char>,
> {
    match input_field(fields, key) {
        Some(text) => mention_from(text, 0),
        None => None,
    }
}

/// The sub-agent a `Task` tool use delegates to: its `subagent_type` field,
/// else the first `@name` mention of its `prompt`, `message` or
/// `description` field (in that order).
pub open spec fn subagent_name(fields: Seq<(Seq<char>, Seq<char>)>) -> Option<Seq<char>> {
    match input_field(fields, "subagent_type"@) {
        Some(n) => Some(n),
        None => match field_mention(fields, "prompt"@) {
            Some(n) => Some(n),
            None => match field_mention(fields, "message"@) {
                Some(n) => Some(n),
                None => field_mention(fields, "description"@),
            },
        },
    }
}

fn name_run_end(s: &Vec<char>, start: usize) -> (e: usize)
    requires
        start <= s.len(),
    ensures
        e == name_end(s@, start as int),
        start <= e <= s.len(),
{
    let mut i = start;
    while i < s.len() && !char_is_white_space(s[i]) && (char_is_alphanumeric(s[i]) || s[i] == '-'
        || s[i] == '_')
        invariant
            start <= i <= s.len(),
            name_end(s@, start as int) == name_end(s@, i as int),
        decreases s.len() - i,
    {
        i = i + 1;
    }
    i
}

fn first_mention(text: &str) -> (r: Option<String>)
    ensures
        r matches Some(n) ==> mention_from(text@, 0) == Some(n@),
        r is None ==> mention_from(text@, 0) is None,
{
    let s = str_to_chars(text);
    let mut i: usize = 0;
    while i < s.len()
        invariant
            i <= s.len(),
            s@ == text@,
            mention_from(s@, 0) == mention_from(s@, i as int),
        decreases s.len() - i,
    {
        if s[i] == '@' && (i == 0 || char_is_white_space(s[i - 1])) {
            let e = name_run_end(&s, i + 1);
            if e > i + 1 {
                return Some(chars_to_string(&s, i + 1, e));
            }
        }
        i = i + 1;
    }
    None
}

fn mention_in_field(input: &ToolInput, key: &str) -> (r: Option<String>)
    ensures
        r matches Some(n) ==> field_mention(input@, key@) == Some(n@),
        r is None ==> field_mention(input@, key@) is None,
{
    match input.get_str(key) {
        Some(text) => first_mention(text),
        None => None,
    }
}

/// Extract the sub-agent name from a `Task` tool input: the explicit
/// `subagent_type` field, else the first `@name` word of the `prompt`,
/// `message` or `description` field.
pub fn extract_subagent_name(input: &ToolInput) -> (r: Option<String>)
    ensures
        r matches Some(n) ==> subagent_name(input@) == Some(n@),
        r is None ==> subagent_name(input@) is None,
{
    if let Some(name) = input.get_str("subagent_type") {
        return Some(String::from_str(name));
    }
    if let Some(n) = mention_in_field(input, "prompt") {
        return Some(n);
    }
    if let Some(n) = mention_in_field(input, "message") {
        return Some(n);
    }
    mention_in_field(input, "description")
}

// ============================================================================
// Tool-use descriptions
// ============================================================================

/// `prefix` followed by the field `key`, or `otherwise` without it.
pub open spec fn labelled_field(
    fields: Seq<(Seq<char>, Seq<char>)>,
    key: Seq<char>,
    prefix: Seq<char>,
    otherwise: Seq<char>,
) -> Seq<char> {
    match input_field(fields, key) {
        Some(v) => prefix + v,
        None => otherwise,
    }
}

/// The first of the `prompt`, `message` and `description` fields present.
pub open spec fn first_text_field(fields: Seq<(Seq<char>, Seq<char>)>) -> Option<Seq<char>> {
    match input_field(fields, "prompt"@) {
        Some(t) => Some(t),
        None => match input_field(fields, "message"@) {
            Some(t) => Some(t),
            None => input_field(fields, "description"@),
        },
    }
}

/// The text of a delegation without the `@name` mentions of the sub-agent,
/// trimmed.
pub open spec fn delegation_text(fields: Seq<(Seq<char>, Seq<char>)>, sub: Seq<char>) -> Option<
    Seq<char>,
> {
    match first_text_field(fields) {
        Some(text) => Some(trim(replace_all(text, seq!['@'] + sub, Seq::empty()))),
        None => None,
    }
}

/// Context shown for a delegation: the delegation text, limited to 60 bytes,
/// when it is not empty.
pub open spec fn delegation_context(fields: Seq<(Seq<char>, Seq<char>)>, sub: Seq<char>) -> Option<
    Seq<char>,
> {
    match delegation_text(fields, sub) {
        Some(w) => if w.len() == 0 {
            None
        } else {
            Some(shortened(w, 60, 57))
        },
        None => None,
    }
}

/// One-line description of a tool use.
pub open spec fn tool_details(name: Seq<char>, fields: Seq<(Seq<char>, Seq<char>)>) -> Seq<char> {
    if name == "Read"@ {
        labelled_field(fields, "file_path"@, "📖 Reading: "@, "📖 Reading file"@)
    } else if name == "Write"@ {
        labelled_field(fields, "file_path"@, "✍️  Writing: "@, "✍️  Writing file"@)
    } else if name == "Edit"@ {
        labelled_field(fields, "file_path"@, "✏️  Editing: "@, "✏️  Editing file"@)
    } else if name == "Bash"@ {
        match input_field(fields, "command"@) {
            Some(c) => "⚡ Running: "@ + shortened(c, 80, 77),
            None => "⚡ Running bash command"@,
        }
    } else if name == "Grep"@ {
        let pattern = match input_field(fields, "pattern"@) {
            Some(p) => p,
            None => "?"@,
        };
        let path = match input_field(fields, "path"@) {
            Some(p) => p,
            None => "."@,
        };
        "🔍 Searching: \""@ + pattern + "\" in "@ + path
    } else if name == "Glob"@ {
        labelled_field(fields, "pattern"@, "📂 Finding: "@, "📂 Finding files"@)
    } else if name == "WebSearch"@ {
        match input_field(fields, "query"@) {
            Some(q) => "🌐 Searching: "@ + shortened(q, 60, 57),
            None => "🌐 Web search"@,
        }
    } else if name == "WebFetch"@ {
        labelled_field(fields, "url"@, "🌐 Fetching: "@, "🌐 Fetching URL"@)
    } else if name == "Task"@ {
        match subagent_name(fields) {
            Some(sub) => match delegation_context(fields, sub) {
                Some(ctx) => "🤝 Delegating to @"@ + sub + ": "@ + ctx,
                None => "🤝 Delegating to @"@ + sub,
            },
            None => "🔧 Using tool: "@ + "Task"@,
        }
    } else {
        "🔧 Using tool: "@ + name
    }
}

/// The inputs on which describing a tool use slices only at character
/// boundaries (the texts that get shortened).
pub open spec fn tool_details_defined(name: Seq<char>, fields: Seq<(Seq<char>, Seq<char>)>) -> bool {
    &&& name == "Bash"@ ==> (input_field(fields, "command"@) matches Some(c) ==> can_shorten(
        c,
        80,
        77,
    ))
    &&& name == "WebSearch"@ ==> (input_field(fields, "query"@) matches Some(q) ==> can_shorten(
        q,
        60,
        57,
    ))
    &&& name == "Task"@ ==> (subagent_name(fields) matches Some(sub) ==> (delegation_text(
        fields,
        sub,
    ) matches Some(w) ==> can_shorten(w, 60, 57)))
}

fn labelled(input: &ToolInput, key: &str, prefix: &str, otherwise: &str) -> (res: String)
    ensures
        res@ == labelled_field(input@, key@, prefix@, otherwise@),
{
    match input.get_str(key) {
        Some(v) => {
            let mut s = String::from_str(prefix);
            push_str(&mut s, v);
            s
        },
        None => String::from_str(otherwise),
    }
}

fn delegation_text_exec(input: &ToolInput, sub: &String) -> (r: Option<String>)
    ensures
        r matches Some(w) ==> delegation_text(input@, sub@) == Some(w@),
        r is None ==> delegation_text(input@, sub@) is None,
{
    let text = match input.get_str("prompt") {
        Some(t) => Some(t),
        None => match input.get_str("message") {
            Some(t) => Some(t),
            None => input.get_str("description"),
        },
    };
    match text {
        Some(t) => {
            let cs = str_to_chars(t);
            let mut pat: Vec<char> = Vec::new();
            pat.push('@');
            let sc = str_to_chars(sub.as_str());
            let mut k: usize = 0;
            while k < sc.len()
                invariant
                    k <= sc.len(),
                    pat@ == seq!['@'] + sc@.take(k as int),
                decreases sc.len() - k,
            {
                pat.push(sc[k]);
                assert(pat@ =~= seq!['@'] + sc@.take(k + 1));
                k = k + 1;
            }
            assert(sc@.take(k as int) =~= sub@);
            let removed = remove_all(&cs, &pat);
            let (a, b) = trim_range(&removed, 0, removed.len());
            assert(removed@.subrange(0, removed.len() as int) =~= removed@);
            Some(chars_to_string(&removed, a, b))
        },
        None => None,
    }
}

fn delegation_context_exec(input: &ToolInput, sub: &String) -> (r: Option<String>)
    requires
        delegation_text(input@, sub@) matches Some(w) ==> can_shorten(w, 60, 57),
    ensures
        r matches Some(c) ==> delegation_context(input@, sub@) == Some(c@),
        r is None ==> delegation_context(input@, sub@) is None,
{
    match delegation_text_exec(input, sub) {
        Some(w) => {
            if w.as_str().is_empty() {
                None
            } else {
                Some(shorten(w.as_str(), 60, 57))
            }
        },
        None => None,
    }
}

/// Whether a tool use can be described (see `tool_details_defined`): the
/// texts that get shortened end a character where they are cut.
pub fn tool_details_computable(tool_name: &str, input: &ToolInput) -> (r: bool)
    ensures
        r == tool_details_defined(tool_name@, input@),
{
    proof {
        reveal_strlit("Bash");
        reveal_strlit("WebSearch");
        reveal_strlit("Task");
        assert("Bash"@[0] != "WebSearch"@[0] && "Bash"@[0] != "Task"@[0] && "WebSearch"@[0] != "Task"@[0]);
    }
    if text_eq(tool_name, "Bash") {
        match input.get_str("command") {
            Some(c) => shortenable(c, 80, 77),
            None => true,
        }
    } else if text_eq(tool_name, "WebSearch") {
        match input.get_str("query") {
            Some(q) => shortenable(q, 60, 57),
            None => true,
        }
    } else if text_eq(tool_name, "Task") {
        match extract_subagent_name(input) {
            Some(sub) => match delegation_text_exec(input, &sub) {
                Some(w) => shortenable(w.as_str(), 60, 57),
                None => true,
            },
            None => true,
        }
    } else {
        true
    }
}

/// Extract a one-line description of a tool use for logging.
pub fn extract_tool_details(tool_name: &str, input: &ToolInput) -> (res: String)
    requires
        tool_details_defined(tool_name@, input@),
    ensures
        res@ == tool_details(tool_name@, input@),
{
    if text_eq(tool_name, "Read") {
        return labelled(input, "file_path", "📖 Reading: ", "📖 Reading file");
    }
    if text_eq(tool_name, "Write") {
        return labelled(input, "file_path", "✍️  Writing: ", "✍️  Writing file");
    }
    if text_eq(tool_name, "Edit") {
        return labelled(input, "file_path", "✏️  Editing: ", "✏️  Editing file");
    }
    if text_eq(tool_name, "Bash") {
        return match input.get_str("command") {
            Some(c) => {
                let mut s = String::from_str("⚡ Running: ");
                let shown = shorten(c, 80, 77);
                push_str(&mut s, shown.as_str());
                s
            },
            None => String::from_str("⚡ Running bash command"),
        };
    }
    if text_eq(tool_name, "Grep") {
        let pattern = match input.get_str("pattern") {
            Some(p) => p,
            None => "?",
        };
        let path = match input.get_str("path") {
            Some(p) => p,
            None => ".",
        };
        let mut s = String::from_str("🔍 Searching: \"");
        push_str(&mut s, pattern);
        push_str(&mut s, "\" in ");
        push_str(&mut s, path);
        return s;
    }
    if text_eq(tool_name, "Glob") {
        return labelled(input, "pattern", "📂 Finding: ", "📂 Finding files");
    }
    if text_eq(tool_name, "WebSearch") {
        return match input.get_str("query") {
            Some(q) => {
                let mut s = String::from_str("🌐 Searching: ");
                let shown = shorten(q, 60, 57);
                push_str(&mut s, shown.as_str());
                s
            },
            None => String::from_str("🌐 Web search"),
        };
    }
    if text_eq(tool_name, "WebFetch") {
        return labelled(input, "url", "🌐 Fetching: ", "🌐 Fetching URL");
    }
    if text_eq(tool_name, "Task") {
        return match extract_subagent_name(input) {
            Some(sub) => {
                let mut s = String::from_str("🤝 Delegating to @");
                push_str(&mut s, sub.as_str());
                match delegation_context_exec(input, &sub) {
                    Some(ctx) => {
                        push_str(&mut s, ": ");
                        push_str(&mut s, ctx.as_str());
                    },
                    None => {},
                }
                s
            },
            None => {
                let mut s = String::from_str("🔧 Using tool: ");
                push_str(&mut s, "Task");
                s
            },
        };
    }
    let mut s = String::from_str("🔧 Using tool: ");
    push_str(&mut s, tool_name);
    s
}

// ============================================================================
// Delegation tracking
// ============================================================================

/// The map of a list of (key, value) pairs whose keys are distinct.
pub open spec fn pairs_map(s: Seq<(Seq<char>, Seq<char>)>) -> Map<Seq<char>, Seq<char>> {
    Map::new(
        |k: Seq<char>| exists|i: int| 0 <= i < s.len() && #[trigger] s[i].0 == k,
        |k: Seq<char>| s[choose|i: int| 0 <= i < s.len() && #[trigger] s[i].0 == k].1,
    )
}

/// No key occurs twice.
pub open spec fn distinct_keys(s: Seq<(Seq<char>, Seq<char>)>) -> bool {
    forall|i: int, j: int| 0 <= i < j < s.len() ==> s[i].0 != s[j].0
}

proof fn lemma_pairs_map_at(s: Seq<(Seq<char>, Seq<char>)>, i: int)
    requires
        distinct_keys(s),
        0 <= i < s.len(),
    ensures
        pairs_map(s).contains_key(s[i].0),
        pairs_map(s)[s[i].0] == s[i].1,
{
    let k = s[i].0;
    assert(s[i].0 == k);
    let j = choose|j: int| 0 <= j < s.len() && #[trigger] s[j].0 == k;
    if j < i {
        assert(s[j].0 != s[i].0);
    } else if i < j {
        assert(s[i].0 != s[j].0);
    }
}

proof fn lemma_pairs_map_absent(s: Seq<(Seq<char>, Seq<char>)>, k: Seq<char>)
    requires
        !pairs_map(s).contains_key(k),
    ensures
        forall|i: int| 0 <= i < s.len() ==> #[trigger] s[i].0 != k,
{
    assert forall|i: int| 0 <= i < s.len() implies #[trigger] s[i].0 != k by {
        if s[i].0 == k {
            assert(pairs_map(s).contains_key(k));
        }
    }
}

proof fn lemma_pairs_map_update(s: Seq<(Seq<char>, Seq<char>)>, i: int, v: Seq<char>)
    requires
        distinct_keys(s),
        0 <= i < s.len(),
    ensures
        distinct_keys(s.update(i, (s[i].0, v))),
        pairs_map(s.update(i, (s[i].0, v))) == pairs_map(s).insert(s[i].0, v),
{
    let t = s.update(i, (s[i].0, v));
    assert forall|j: int| 0 <= j < s.len() implies #[trigger] t[j].0 == s[j].0 by {}
    assert(distinct_keys(t));
    let m = pairs_map(s).insert(s[i].0, v);
    assert forall|k: Seq<char>| #[trigger] pairs_map(t).contains_key(k) <==> m.contains_key(k) by {
        if pairs_map(t).contains_key(k) {
            let j = choose|j: int| 0 <= j < t.len() && #[trigger] t[j].0 == k;
            if j != i {
                lemma_pairs_map_at(s, j);
            }
        }
        if m.contains_key(k) {
            if k == s[i].0 {
                lemma_pairs_map_at(t, i);
            } else {
                let j = choose|j: int| 0 <= j < s.len() && #[trigger] s[j].0 == k;
                lemma_pairs_map_at(t, j);
            }
        }
    }
    assert forall|k: Seq<char>| #[trigger] pairs_map(t).contains_key(k) implies pairs_map(t)[k]
        == m[k] by {
        let j = choose|j: int| 0 <= j < t.len() && #[trigger] t[j].0 == k;
        lemma_pairs_map_at(t, j);
        if j != i {
            lemma_pairs_map_at(s, j);
        }
    }
    assert(pairs_map(t) =~= m);
}

proof fn lemma_pairs_map_push(s: Seq<(Seq<char>, Seq<char>)>, k: Seq<char>, v: Seq<char>)
    requires
        distinct_keys(s),
        !pairs_map(s).contains_key(k),
    ensures
        distinct_keys(s.push((k, v))),
        pairs_map(s.push((k, v))) == pairs_map(s).insert(k, v),
{
    let t = s.push((k, v));
    lemma_pairs_map_absent(s, k);
    assert forall|a: int, b: int| 0 <= a < b < t.len() implies t[a].0 != t[b].0 by {
        if b == s.len() {
            assert(s[a].0 != k);
        } else {
            assert(t[a] == s[a] && t[b] == s[b]);
        }
    }
    let m = pairs_map(s).insert(k, v);
    assert forall|k2: Seq<char>| #[trigger] pairs_map(t).contains_key(k2) <==> m.contains_key(k2) by {
        if pairs_map(t).contains_key(k2) {
            let j = choose|j: int| 0 <= j < t.len() && #[trigger] t[j].0 == k2;
            if j < s.len() {
                assert(t[j] == s[j]);
                lemma_pairs_map_at(s, j);
            }
        }
        if m.contains_key(k2) {
            if k2 == k {
                lemma_pairs_map_at(t, s.len() as int);
            } else {
                let j = choose|j: int| 0 <= j < s.len() && #[trigger] s[j].0 == k2;
                assert(t[j] == s[j]);
                lemma_pairs_map_at(t, j);
            }
        }
    }
    assert forall|k2: Seq<char>| #[trigger] pairs_map(t).contains_key(k2) implies pairs_map(t)[k2]
        == m[k2] by {
        let j = choose|j: int| 0 <= j < t.len() && #[trigger] t[j].0 == k2;
        lemma_pairs_map_at(t, j);
        if j < s.len() {
            assert(t[j] == s[j]);
            lemma_pairs_map_at(s, j);
        }
    }
    assert(pairs_map(t) =~= m);
}

proof fn lemma_pairs_map_remove(s: Seq<(Seq<char>, Seq<char>)>, i: int)
    requires
        distinct_keys(s),
        0 <= i < s.len(),
    ensures
        distinct_keys(s.remove(i)),
        pairs_map(s.remove(i)) == pairs_map(s).remove(s[i].0),
{
    let t = s.remove(i);
    assert forall|j: int| 0 <= j < t.len() implies #[trigger] t[j] == (if j < i {
        s[j]
    } else {
        s[j + 1]
    }) by {}
    assert forall|a: int, b: int| 0 <= a < b < t.len() implies t[a].0 != t[b].0 by {
        let a2 = if a < i { a } else { a + 1 };
        let b2 = if b < i { b } else { b + 1 };
        assert(t[a] == s[a2] && t[b] == s[b2]);
    }
    let m = pairs_map(s).remove(s[i].0);
    assert forall|k: Seq<char>| #[trigger] pairs_map(t).contains_key(k) <==> m.contains_key(k) by {
        if pairs_map(t).contains_key(k) {
            let j = choose|j: int| 0 <= j < t.len() && #[trigger] t[j].0 == k;
            let j2 = if j < i { j } else { j + 1 };
            assert(t[j] == s[j2]);
            lemma_pairs_map_at(s, j2);
            if j2 < i {
                assert(s[j2].0 != s[i].0);
            } else {
                assert(s[i].0 != s[j2].0);
            }
        }
        if m.contains_key(k) {
            let j = choose|j: int| 0 <= j < s.len() && #[trigger] s[j].0 == k;
            assert(j != i);
            let j2 = if j < i { j } else { j - 1 };
            assert(t[j2] == s[j]);
            lemma_pairs_map_at(t, j2);
        }
    }
    assert forall|k: Seq<char>| #[trigger] pairs_map(t).contains_key(k) implies pairs_map(t)[k]
        == m[k] by {
        let j = choose|j: int| 0 <= j < t.len() && #[trigger] t[j].0 == k;
        let j2 = if j < i { j } else { j + 1 };
        assert(t[j] == s[j2]);
        lemma_pairs_map_at(t, j);
        lemma_pairs_map_at(s, j2);
    }
    assert(pairs_map(t) =~= m);
}

/// The (tool use id, sub-agent name) entries of a list of delegations.
pub open spec fn delegation_entries(v: Seq<(String, String)>) -> Seq<(Seq<char>, Seq<char>)> {
    v.map_values(|p: (String, String)| (p.0@, p.1@))
}

/// Tracks active sub-agent delegations: tool use id -> sub-agent name.
pub struct DelegationTracker {
    active: Vec<(String, String)>,
}

impl View for DelegationTracker {
    type V = Map<Seq<char>, Seq<char>>;

    closed spec fn view(&self) -> Map<Seq<char>, Seq<char>> {
        pairs_map(delegation_entries(self.active@))
    }
}

/// The position of the entry of `active` for `key`, if there is one.
fn delegation_position(active: &Vec<(String, String)>, key: &str) -> (r: Option<usize>)
    ensures
        match r {
            Some(i) => i < active@.len() && delegation_entries(active@)[i as int].0 == key@,
            None => forall|k: int|
                0 <= k < active@.len() ==> #[trigger] delegation_entries(active@)[k].0 != key@,
        },
{
    let ghost e0 = delegation_entries(active@);
    let mut i: usize = 0;
    while i < active.len()
        invariant
            i <= active.len(),
            e0 == delegation_entries(active@),
            forall|k: int| 0 <= k < i ==> #[trigger] e0[k].0 != key@,
        decreases active.len() - i,
    {
        assert(e0[i as int] == (active@[i as int].0@, active@[i as int].1@));
        if text_eq(active[i].0.as_str(), key) {
            return Some(i);
        }
        i = i + 1;
    }
    None
}

impl DelegationTracker {
    /// Each tool use id is tracked once.
    #[verifier::type_invariant]
    spec fn keys_distinct(&self) -> bool {
        distinct_keys(delegation_entries(self.active@))
    }

    /// No delegation is active.
    pub fn new() -> (res: Self)
        ensures
            res@ == Map::<Seq<char>, Seq<char>>::empty(),
    {
        let res = DelegationTracker { active: Vec::new() };
        assert(delegation_entries(res.active@) =~= Seq::<(Seq<char>, Seq<char>)>::empty());
        assert(res@ =~= Map::<Seq<char>, Seq<char>>::empty());
        res
    }

    /// Record that the tool use `tool_use_id` delegates to `subagent_name`.
    pub fn start_delegation(&mut self, tool_use_id: String, subagent_name: String)
        ensures
            final(self)@ == old(self)@.insert(tool_use_id@, subagent_name@),
    {
        proof {
            use_type_invariant(&*self);
        }
        let mut active: Vec<(String, String)> = Vec::new();
        std::mem::swap(&mut active, &mut self.active);
        let ghost e0 = delegation_entries(active@);
        assert(e0 == delegation_entries(old(self).active@));
        let ghost key = tool_use_id@;
        let ghost val = subagent_name@;
        match delegation_position(&active, tool_use_id.as_str()) {
            Some(i) => {
                active.set(i, (tool_use_id, subagent_name));
                proof {
                    assert(delegation_entries(active@) =~= e0.update(i as int, (e0[i as int].0, val)));
                    lemma_pairs_map_update(e0, i as int, val);
                }
            },
            None => {
                proof {
                    if pairs_map(e0).contains_key(key) {
                        let j = choose|j: int| 0 <= j < e0.len() && #[trigger] e0[j].0 == key;
                        assert(e0[j].0 != key);
                    }
                }
                active.push((tool_use_id, subagent_name));
                proof {
                    assert(delegation_entries(active@) =~= e0.push((key, val)));
                    lemma_pairs_map_push(e0, key, val);
                }
            },
        }
        self.active = active;
    }

    /// Stop tracking the tool use `tool_use_id`, returning the sub-agent it
    /// delegated to, if it was tracked.
    pub fn complete_delegation(&mut self, tool_use_id: &str) -> (r: Option<String>)
        ensures
            final(self)@ == old(self)@.remove(tool_use_id@),
            r matches Some(n) ==> old(self)@.contains_key(tool_use_id@) && old(self)@[tool_use_id@]
                == n@,
            r is None ==> !old(self)@.contains_key(tool_use_id@),
    {
        proof {
            use_type_invariant(&*self);
        }
        let mut active: Vec<(String, String)> = Vec::new();
        std::mem::swap(&mut active, &mut self.active);
        let ghost e0 = delegation_entries(active@);
        assert(e0 == delegation_entries(old(self).active@));
        let r = match delegation_position(&active, tool_use_id) {
            Some(i) => {
                let (_, name) = active.remove(i);
                proof {
                    assert(name@ == e0[i as int].1);
                    assert(delegation_entries(active@) =~= e0.remove(i as int));
                    lemma_pairs_map_remove(e0, i as int);
                    lemma_pairs_map_at(e0, i as int);
                }
                Some(name)
            },
            None => {
                proof {
                    if pairs_map(e0).contains_key(tool_use_id@) {
                        let j = choose|j: int| 0 <= j < e0.len() && #[trigger] e0[j].0 == tool_use_id@;
                        assert(e0[j].0 != tool_use_id@);
                    }
                    assert(pairs_map(e0).remove(tool_use_id@) =~= pairs_map(e0));
                }
                None
            },
        };
        self.active = active;
        r
    }
}

/// The delegations after a sequence of calls on a tracker that held `m`:
/// a call `(id, Some(name))` is `start_delegation(id, name)`, a call
/// `(id, None)` is `complete_delegation(id)`.
pub open spec fn tracker_after(
    m: Map<Seq<char>, Seq<char>>,
    calls: Seq<(Seq<char>, Option<Seq<char>>)>,
) -> Map<Seq<char>, Seq<char>>
    decreases calls.len(),
{
    if calls.len() == 0 {
        m
    } else {
        let prev = tracker_after(m, calls.drop_last());
        let c = calls.last();
        match c.1 {
            Some(name) => prev.insert(c.0, name),
            None => prev.remove(c.0),
        }
    }
}

/// The name of the last start of a delegation of `id` among `calls`.
pub open spec fn last_start(calls: Seq<(Seq<char>, Option<Seq<char>>)>, id: Seq<char>) -> Option<
    Seq<char>,
>
    decreases calls.len(),
{
    if calls.len() == 0 {
        None
    } else if calls.last().0 == id && calls.last().1 is Some {
        calls.last().1
    } else {
        last_start(calls.drop_last(), id)
    }
}

/// The calls of `calls` that are not for `id`, in order.
pub open spec fn calls_not_for(calls: Seq<(Seq<char>, Option<Seq<char>>)>, id: Seq<char>) -> Seq<
    (Seq<char>, Option<Seq<char>>),
>
    decreases calls.len(),
{
    if calls.len() == 0 {
        calls
    } else {
        let prev = calls_not_for(calls.drop_last(), id);
        if calls.last().0 == id {
            prev
        } else {
            prev.push(calls.last())
        }
    }
}

proof fn lemma_other_ids_unaffected(
    m: Map<Seq<char>, Seq<char>>,
    calls: Seq<(Seq<char>, Option<Seq<char>>)>,
    id: Seq<char>,
)
    ensures
        tracker_after(m, calls).remove(id) == tracker_after(m, calls_not_for(calls, id)).remove(id),
    decreases calls.len(),
{
    if calls.len() > 0 {
        let p = calls.drop_last();
        let c = calls.last();
        lemma_other_ids_unaffected(m, p, id);
        let prev = tracker_after(m, p);
        let w = calls_not_for(p, id);
        if c.0 == id {
            match c.1 {
                Some(name) => assert(prev.insert(id, name).remove(id) =~= prev.remove(id)),
                None => assert(prev.remove(id).remove(id) =~= prev.remove(id)),
            }
        } else {
            assert(w.push(c).drop_last() =~= w);
            let wm = tracker_after(m, w);
            match c.1 {
                Some(name) => {
                    assert(prev.insert(c.0, name).remove(id) =~= prev.remove(id).insert(c.0, name));
                    assert(wm.insert(c.0, name).remove(id) =~= wm.remove(id).insert(c.0, name));
                },
                None => {
                    assert(prev.remove(c.0).remove(id) =~= prev.remove(id).remove(c.0));
                    assert(wm.remove(c.0).remove(id) =~= wm.remove(id).remove(c.0));
                },
            }
        }
    }
}

/// The latest delegation of a tool use id wins: after any calls on a
/// tracker in which `id` is only ever started (at least once), among calls
/// for other ids, `id` maps to the name it was last started with; completing
/// it then removes it, so a second completion finds nothing; and every other
/// id maps as it would have without the calls for `id`.
pub proof fn law_latest_delegation_wins(
    m: Map<Seq<char>, Seq<char>>,
    calls: Seq<(Seq<char>, Option<Seq<char>>)>,
    id: Seq<char>,
)
    requires
        forall|i: int| 0 <= i < calls.len() && (#[trigger] calls[i]).0 == id ==> calls[i].1 is Some,
        last_start(calls, id) is Some,
    ensures
        tracker_after(m, calls).contains_key(id),
        tracker_after(m, calls)[id] == last_start(calls, id)->0,
        !tracker_after(m, calls).remove(id).contains_key(id),
        tracker_after(m, calls).remove(id) == tracker_after(m, calls_not_for(calls, id)).remove(id),
    decreases calls.len(),
{
    lemma_other_ids_unaffected(m, calls, id);
    let p = calls.drop_last();
    let c = calls.last();
    if !(c.0 == id) {
        assert forall|i: int| 0 <= i < p.len() && (#[trigger] p[i]).0 == id implies p[i].1 is Some by {
            assert(p[i] == calls[i]);
        }
        law_latest_delegation_wins(m, p, id);
    } else {
        assert(calls[calls.len() - 1] == c);
    }
}

// ============================================================================
// Agent stream handling
// ============================================================================

/// A content block of an assistant message, as the stream handler reads it.
pub enum ContentEvent {
    /// Text written by the agent.
    Text(String),
    /// A tool use: its id, the tool's name and its input.
    ToolUse { id: String, name: String, input: ToolInput },
    /// The result of an earlier tool use.
    ToolResult { tool_use_id: String },
    /// Any other block.
    Other,
}

/// What the stream handler shows for a content block.
pub enum StreamAction {
    /// Text to print on standard output and to log.
    PrintAndLog(String),
    /// A line to log.
    Log(String),
    /// Nothing to show.
    Nothing,
}

/// State of the handling of one agent's message stream.
pub struct StreamState {
    /// The text collected from all text blocks so far.
    pub response: String,
    /// Active sub-agent delegations.
    pub delegations: DelegationTracker,
}

/// Line logged when a delegated sub-agent completes.
pub open spec fn subagent_completed_line(name: Seq<char>) -> Seq<char> {
    "✓ Sub-agent @"@ + name + " completed"@
}

/// Line logged for the result of a tool use that was not a delegation.
pub open spec fn tool_result_line(id: Seq<char>) -> Seq<char> {
    "✓ Tool result: "@ + id
}

/// The view of a content block.
pub enum EventView {
    Text(Seq<char>),
    ToolUse(Seq<char>, Seq<char>, Seq<(Seq<char>, Seq<char>)>),
    ToolResult(Seq<char>),
    Other,
}

/// The view of a content block: its texts and the input's fields.
pub open spec fn event_view(e: ContentEvent) -> EventView {
    match e {
        ContentEvent::Text(t) => EventView::Text(t@),
        ContentEvent::ToolUse { id, name, input } => EventView::ToolUse(id@, name@, input@),
        ContentEvent::ToolResult { tool_use_id } => EventView::ToolResult(tool_use_id@),
        ContentEvent::Other => EventView::Other,
    }
}

/// The collected text and the active delegations after one content block.
pub open spec fn stream_step(
    st: (Seq<char>, Map<Seq<char>, Seq<char>>),
    e: EventView,
) -> (Seq<char>, Map<Seq<char>, Seq<char>>) {
    match e {
        EventView::Text(t) => (st.0 + t, st.1),
        EventView::ToolUse(id, name, input) => (
            st.0,
            if name == "Task"@ && subagent_name(input) is Some {
                st.1.insert(id, subagent_name(input)->0)
            } else {
                st.1
            },
        ),
        EventView::ToolResult(id) => (st.0, st.1.remove(id)),
        EventView::Other => st,
    }
}

/// The collected text and the active delegations after a sequence of
/// content blocks, from nothing collected and no delegation.
pub open spec fn stream_run(events: Seq<EventView>) -> (Seq<char>, Map<Seq<char>, Seq<char>>)
    decreases events.len(),
{
    if events.len() == 0 {
        (seq![], Map::empty())
    } else {
        stream_step(stream_run(events.drop_last()), events.last())
    }
}

/// The texts of the text blocks of a sequence, one after the other.
pub open spec fn all_text(events: Seq<EventView>) -> Seq<char>
    decreases events.len(),
{
    if events.len() == 0 {
        seq![]
    } else {
        all_text(events.drop_last()) + match events.last() {
            EventView::Text(t) => t,
            _ => seq![],
        }
    }
}

/// The response of a stream is all its text: whatever blocks come, the
/// text collected is the texts of the text blocks, in order.
pub proof fn law_stream_collects_all_text(events: Seq<EventView>)
    ensures
        stream_run(events).0 == all_text(events),
    decreases events.len(),
{
    if events.len() > 0 {
        law_stream_collects_all_text(events.drop_last());
    }
}

/// A `Task` tool use that names a sub-agent is tracked until its result
/// comes: right after the tool use its id maps to the sub-agent, and the
/// result removes it again, leaving the other delegations as they were.
pub proof fn law_delegation_tracked_until_result(
    st: (Seq<char>, Map<Seq<char>, Seq<char>>),
    id: Seq<char>,
    input: Seq<(Seq<char>, Seq<char>)>,
)
    requires
        subagent_name(input) is Some,
    ensures
        ({
            let after_use = stream_step(st, EventView::ToolUse(id, "Task"@, input));
            let after_result = stream_step(after_use, EventView::ToolResult(id));
            &&& after_use.1.contains_key(id)
            &&& after_use.1[id] == subagent_name(input)->0
            &&& after_result.1 == st.1.remove(id)
            &&& after_result.0 == st.0
        }),
{
    let after_use = stream_step(st, EventView::ToolUse(id, "Task"@, input));
    assert(after_use.1.remove(id) =~= st.1.remove(id));
}

/// A tool result completes a delegation at most once: a second result for
/// the same id finds no delegation.
pub proof fn law_result_completes_once(st: (Seq<char>, Map<Seq<char>, Seq<char>>), id: Seq<char>)
    ensures
        !stream_step(stream_step(st, EventView::ToolResult(id)), EventView::ToolResult(id)).1.contains_key(
            id,
        ),
        stream_step(stream_step(st, EventView::ToolResult(id)), EventView::ToolResult(id)).1
            == stream_step(st, EventView::ToolResult(id)).1,
{
    assert(st.1.remove(id).remove(id) =~= st.1.remove(id));
}

/// The tool uses whose description can be computed.
pub open spec fn event_defined(event: ContentEvent) -> bool {
    event matches ContentEvent::ToolUse { name, input, .. } ==> tool_details_defined(name@, input@)
}

/// Whether a content block can be handled (see `event_defined`).
pub fn block_computable(event: &ContentEvent) -> (r: bool)
    ensures
        r == event_defined(*event),
{
    match event {
        ContentEvent::ToolUse { name, input, .. } => tool_details_computable(name.as_str(), input),
        _ => true,
    }
}

/// What handling a content block does: the collected text and the active
/// delegations before (`old_*`) and after (`new_*`), and the action shown
/// (see `StreamState::handle_block`).
pub open spec fn block_handled(
    old_response: Seq<char>,
    old_delegations: Map<Seq<char>, Seq<char>>,
    new_response: Seq<char>,
    new_delegations: Map<Seq<char>, Seq<char>>,
    event: ContentEvent,
    action: StreamAction,
) -> bool {
    &&& (new_response, new_delegations) == stream_step((old_response, old_delegations), event_view(event))
    &&& match event {
        ContentEvent::Text(text) => {
            &&& new_response == old_response + text@
            &&& new_delegations == old_delegations
            &&& action matches StreamAction::PrintAndLog(t) && t@ == text@
        },
        ContentEvent::ToolUse { id, name, input } => {
            &&& new_response == old_response
            &&& action matches StreamAction::Log(line) && line@ == tool_details(
                name@,
                input@,
            )
            &&& new_delegations == if name@ == "Task"@ && subagent_name(
                input@,
            ) is Some {
                old_delegations.insert(id@, subagent_name(input@)->0)
            } else {
                old_delegations
            }
        },
        ContentEvent::ToolResult { tool_use_id } => {
            &&& new_response == old_response
            &&& new_delegations == old_delegations.remove(tool_use_id@)
            &&& action matches StreamAction::Log(line) && line@ == if old_delegations.contains_key(tool_use_id@) {
                subagent_completed_line(old_delegations[tool_use_id@])
            } else {
                tool_result_line(tool_use_id@)
            }
        },
        ContentEvent::Other => {
            &&& new_response == old_response
            &&& new_delegations == old_delegations
            &&& action is Nothing
        },
    }
}

impl StreamState {
    /// Nothing collected, no delegation active.
    pub fn new() -> (res: Self)
        ensures
            res.response@.len() == 0,
            res.delegations@ == Map::<Seq<char>, Seq<char>>::empty(),
    {
        StreamState { response: String::new(), delegations: DelegationTracker::new() }
    }

    /// Handle one content block when it can be handled (`block_computable`),
    /// as `handle_block` does; `None`, with nothing changed, for a tool use
    /// whose description cannot be computed.
    pub fn try_handle_block(&mut self, event: ContentEvent) -> (r: Option<StreamAction>)
        ensures
            r is Some <==> event_defined(event),
            match r {
                Some(action) => block_handled(
                    old(self).response@,
                    old(self).delegations@,
                    final(self).response@,
                    final(self).delegations@,
                    event,
                    action,
                ),
                None => final(self).response@ == old(self).response@ && final(self).delegations@
                    == old(self).delegations@,
            },
    {
        if block_computable(&event) {
            Some(self.handle_block(event))
        } else {
            None
        }
    }

    /// Handle one content block of an assistant message: text is collected
    /// and shown; a tool use is described, and a `Task` tool use that names a
    /// sub-agent starts a delegation; a tool result that completes a
    /// delegation is reported as such.
    pub fn handle_block(&mut self, event: ContentEvent) -> (action: StreamAction)
        requires
            event_defined(event),
        ensures
            block_handled(
                old(self).response@,
                old(self).delegations@,
                final(self).response@,
                final(self).delegations@,
                event,
                action,
            ),
    {
        match event {
            ContentEvent::Text(text) => {
                push_str(&mut self.response, text.as_str());
                StreamAction::PrintAndLog(text)
            },
            ContentEvent::ToolUse { id, name, input } => {
                let details = extract_tool_details(name.as_str(), &input);
                if text_eq(name.as_str(), "Task") {
                    match extract_subagent_name(&input) {
                        Some(sub) => {
                            self.delegations.start_delegation(id, sub);
                        },
                        None => {},
                    }
                }
                StreamAction::Log(details)
            },
            ContentEvent::ToolResult { tool_use_id } => {
                match self.delegations.complete_delegation(tool_use_id.as_str()) {
                    Some(name) => {
                        let mut line = String::from_str("✓ Sub-agent @");
                        push_str(&mut line, name.as_str());
                        push_str(&mut line, " completed");
                        StreamAction::Log(line)
                    },
                    None => {
                        let mut line = String::from_str("✓ Tool result: ");
                        push_str(&mut line, tool_use_id.as_str());
                        StreamAction::Log(line)
                    },
                }
            },
            ContentEvent::Other => StreamAction::Nothing,
        }
    }
}

} // verus!
