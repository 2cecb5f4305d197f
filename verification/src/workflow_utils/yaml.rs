//! Extraction of YAML documents from agent responses.
use vstd::prelude::*;

use crate::text::{
    chars_to_string, contains, find, find_from, has_prefix, matches_at, lemma_find_from_bounds,
    lemma_trim_idempotent, occurs_at, rfind, rfind_index_from, find_index_from, str_to_chars, trim,
    trim_range, trim_start_matches, decimal, push_decimal,
};
use crate::yaml_model::{nodes_view, parse_yaml_text, yaml_parse, YamlNode, YamlValue};

verus! {

/// The opening fence of a YAML code block: three backticks and `yaml`.
pub open spec fn yaml_fence() -> Seq<char> {
    seq!['`', '`', '`', 'y', 'a', 'm', 'l']
}

/// A bare code fence: three backticks.
pub open spec fn code_fence() -> Seq<char> {
    seq!['`', '`', '`']
}

/// The YAML document separator `---`.
pub open spec fn doc_separator() -> Seq<char> {
    seq!['-', '-', '-']
}

/// The trimmed text between the first `open` fence and the last code fence
/// after it (or the end of the text when there is none).
pub open spec fn fenced_block(text: Seq<char>, open: Seq<char>) -> Seq<char> {
    let start = find(text, open).unwrap() + open.len();
    let end = match rfind(text.skip(start as int), code_fence()) {
        Some(q) => (start + q) as int,
        None => text.len() as int,
    };
    trim(text.subrange(start as int, end))
}

/// `clean_yaml`: leading `---` separators removed, then trimmed.
pub open spec fn clean_yaml_text(yaml: Seq<char>) -> Seq<char> {
    trim(trim_start_matches(yaml, doc_separator()))
}

/// `extract_yaml`: the body of the first ```` ```yaml ```` block, else of the
/// first generic code block, else the whole text, then cleaned.
pub open spec fn extract_yaml_text(text: Seq<char>) -> Seq<char> {
    clean_yaml_text(fenced_yaml_text(text))
}

/// The body of the first ```` ```yaml ```` block, else of the first generic
/// code block, else the whole text; trimmed.
pub open spec fn fenced_yaml_text(text: Seq<char>) -> Seq<char> {
    if contains(text, yaml_fence()) {
        fenced_block(text, yaml_fence())
    } else if contains(text, code_fence()) {
        fenced_block(text, code_fence())
    } else {
        trim(text)
    }
}

fn yaml_fence_chars() -> (v: Vec<char>)
    ensures
        v@ == yaml_fence(),
{
    let v = vec!['`', '`', '`', 'y', 'a', 'm', 'l'];
    assert(v@ =~= yaml_fence());
    v
}

fn code_fence_chars() -> (v: Vec<char>)
    ensures
        v@ == code_fence(),
{
    let v = vec!['`', '`', '`'];
    assert(v@ =~= code_fence());
    v
}

fn doc_separator_chars() -> (v: Vec<char>)
    ensures
        v@ == doc_separator(),
{
    let v = vec!['-', '-', '-'];
    assert(v@ =~= doc_separator());
    v
}

/// Bounds of `fenced_block(cs, open)` given the position of the first `open`.
fn fenced_range(cs: &Vec<char>, open: &Vec<char>, p: usize) -> (r: (usize, usize))
    requires
        find(cs@, open@) == Some(p as nat),
    ensures
        r.0 <= r.1 <= cs.len(),
        cs@.subrange(r.0 as int, r.1 as int) == fenced_block(cs@, open@),
{
    proof {
        lemma_find_from_bounds(cs@, open@, 0);
    }
    let start = p + open.len();
    let fence = code_fence_chars();
    let end = match rfind_index_from(cs, &fence, start) {
        Some(k) => k,
        None => cs.len(),
    };
    trim_range(cs, start, end)
}

/// Bounds of `clean_yaml_text(cs[lo..hi])`.
fn clean_range(cs: &Vec<char>, lo: usize, hi: usize) -> (r: (usize, usize))
    requires
        lo <= hi <= cs.len(),
    ensures
        r.0 <= r.1 <= cs.len(),
        cs@.subrange(r.0 as int, r.1 as int) == clean_yaml_text(
            cs@.subrange(lo as int, hi as int),
        ),
{
    let dashes = doc_separator_chars();
    let ghost d = doc_separator();
    let mut a = lo;
    while hi - a >= 3 && occurs_at(cs, &dashes, a)
        invariant
            lo <= a <= hi <= cs.len(),
            dashes@ == d,
            d == doc_separator(),
            trim_start_matches(cs@.subrange(lo as int, hi as int), d) == trim_start_matches(
                cs@.subrange(a as int, hi as int),
                d,
            ),
        decreases hi - a,
    {
        let ghost sub = cs@.subrange(a as int, hi as int);
        assert(d.len() == 3);
        assert(matches_at(cs@, d, a as int));
        assert(cs@.subrange(a as int, a + 3) == d);
        assert(sub.subrange(0, 3) =~= cs@.subrange(a as int, a + 3));
        assert(sub.skip(3) =~= cs@.subrange(a + 3, hi as int));
        assert(has_prefix(sub, d));
        assert(trim_start_matches(sub, d) == trim_start_matches(sub.skip(3), d));
        a = a + 3;
    }
    assert(!has_prefix(cs@.subrange(a as int, hi as int), d)) by {
        if has_prefix(cs@.subrange(a as int, hi as int), d) {
            assert(cs@.subrange(a as int, hi as int).subrange(0, 3) =~= cs@.subrange(
                a as int,
                a + 3,
            ));
        }
    }
    trim_range(cs, a, hi)
}

/// Extract YAML content from markdown code blocks or raw text.
///
/// Takes the body of the first ```` ```yaml ```` block (up to the last code
/// fence after it), else of the first generic code block, else the whole text;
/// trims it and removes leading `---` document separators.
pub fn extract_yaml(text: &str) -> (res: String)
    ensures
        res@ == extract_yaml_text(text@),
{
    let cs = str_to_chars(text);
    let (a, b) = fenced_yaml_range(&cs);
    let (c, d) = clean_range(&cs, a, b);
    chars_to_string(&cs, c, d)
}

/// The text of `fenced_yaml_text(text)` (see there).
pub fn fenced_yaml(text: &str) -> (res: String)
    ensures
        res@ == fenced_yaml_text(text@),
{
    let cs = str_to_chars(text);
    let (a, b) = fenced_yaml_range(&cs);
    chars_to_string(&cs, a, b)
}

fn fenced_yaml_range(cs: &Vec<char>) -> (r: (usize, usize))
    ensures
        r.0 <= r.1 <= cs.len(),
        cs@.subrange(r.0 as int, r.1 as int) == fenced_yaml_text(cs@),
{
    let yf = yaml_fence_chars();
    let cf = code_fence_chars();
    let (a, b) = match find_index_from(cs, &yf, 0) {
        Some(p) => fenced_range(cs, &yf, p),
        None => match find_index_from(cs, &cf, 0) {
            Some(p) => fenced_range(cs, &cf, p),
            None => {
                assert(cs@.subrange(0, cs.len() as int) =~= cs@);
                trim_range(cs, 0, cs.len())
            },
        },
    };
    (a, b)
}

/// Clean YAML by removing leading `---` document separators and surrounding
/// white space.
pub fn clean_yaml(yaml: &str) -> (res: String)
    ensures
        res@ == clean_yaml_text(yaml@),
{
    let cs = str_to_chars(yaml);
    let (c, d) = clean_range(&cs, 0, cs.len());
    assert(cs@.subrange(0, cs.len() as int) =~= cs@);
    chars_to_string(&cs, c, d)
}


/// The pieces of `s[i..]` between occurrences of `---` (`str::split`).
pub open spec fn separated_from(s: Seq<char>, i: nat) -> Seq<Seq<char>>
    decreases s.len() + 1 - i,
{
    if i > s.len() {
        seq![]
    } else {
        proof {
            lemma_find_from_bounds(s, doc_separator(), i);
        }
        match find_from(s, doc_separator(), i) {
            Some(j) => seq![s.subrange(i as int, j as int)] + separated_from(s, j + 3),
            None => seq![s.subrange(i as int, s.len() as int)],
        }
    }
}

/// The trimmed pieces that are not empty, in order.
pub open spec fn nonempty_trimmed(pieces: Seq<Seq<char>>) -> Seq<Seq<char>>
    decreases pieces.len(),
{
    if pieces.len() == 0 {
        seq![]
    } else {
        let rest = nonempty_trimmed(pieces.drop_last());
        if trim(pieces.last()).len() == 0 {
            rest
        } else {
            rest.push(trim(pieces.last()))
        }
    }
}

/// The documents of a multi-document YAML text: the pieces between `---`
/// separators, trimmed, with the empty ones skipped.
pub open spec fn yaml_document_texts(text: Seq<char>) -> Seq<Seq<char>> {
    nonempty_trimmed(separated_from(text, 0))
}

proof fn lemma_nonempty_trimmed(pieces: Seq<Seq<char>>)
    ensures
        forall|k: int|
            0 <= k < nonempty_trimmed(pieces).len() ==> (#[trigger] nonempty_trimmed(pieces)[k]).len()
                > 0 && trim(nonempty_trimmed(pieces)[k]) == nonempty_trimmed(pieces)[k],
    decreases pieces.len(),
{
    if pieces.len() > 0 {
        lemma_nonempty_trimmed(pieces.drop_last());
        lemma_trim_idempotent(pieces.last());
        let prev = nonempty_trimmed(pieces.drop_last());
        let cur = nonempty_trimmed(pieces);
        assert forall|k: int| 0 <= k < cur.len() implies (#[trigger] cur[k]).len() > 0 && trim(
            cur[k],
        ) == cur[k] by {
            if k < prev.len() {
                assert(cur[k] == prev[k]);
            }
        }
    }
}

/// The documents of a multi-document text are never empty and have no
/// white space around them.
pub proof fn law_yaml_documents_nonempty_and_trimmed(text: Seq<char>)
    ensures
        forall|k: int|
            0 <= k < yaml_document_texts(text).len() ==> (#[trigger] yaml_document_texts(
                text,
            )[k]).len() > 0 && trim(yaml_document_texts(text)[k]) == yaml_document_texts(text)[k],
{
    lemma_nonempty_trimmed(separated_from(text, 0));
}

/// Split a multi-document YAML text into its documents (see
/// `yaml_document_texts`); each is then parsed on its own.
pub fn yaml_documents(text: &str) -> (res: Vec<String>)
    ensures
        res@.map_values(|d: String| d@) == yaml_document_texts(text@),
{
    let cs = str_to_chars(text);
    let sep = doc_separator_chars();
    let ghost pieces = separated_from(cs@, 0);
    let mut res: Vec<String> = Vec::new();
    let mut i: usize = 0;
    let ghost mut done: Seq<Seq<char>> = seq![];
    loop
        invariant_except_break
            done + separated_from(cs@, i as nat) == pieces,
            res@.map_values(|d: String| d@) == nonempty_trimmed(done),
        invariant
            i <= cs.len(),
            cs@ == text@,
            sep@ == doc_separator(),
            pieces == separated_from(cs@, 0),
        ensures
            res@.map_values(|d: String| d@) == nonempty_trimmed(pieces),
        decreases cs.len() + 1 - i,
    {
        proof {
            lemma_find_from_bounds(cs@, doc_separator(), i as nat);
        }
        let found = find_index_from(&cs, &sep, i);
        let end = match found {
            Some(j) => j,
            None => cs.len(),
        };
        let ghost piece = cs@.subrange(i as int, end as int);
        let (a, b) = trim_range(&cs, i, end);
        let ghost before = res@.map_values(|d: String| d@);
        if a < b {
            res.push(chars_to_string(&cs, a, b));
        }
        proof {
            let nd = done.push(piece);
            assert(nd.drop_last() =~= done);
            assert(res@.map_values(|d: String| d@) =~= nonempty_trimmed(nd));
            done = nd;
        }
        match found {
            Some(j) => {
                proof {
                    assert(separated_from(cs@, i as nat) == seq![piece] + separated_from(
                        cs@,
                        (j + 3) as nat,
                    ));
                    assert(done + separated_from(cs@, (j + 3) as nat) =~= pieces);
                }
                i = j + 3;
            },
            None => {
                proof {
                    assert(separated_from(cs@, i as nat) == seq![piece]);
                    assert(done =~= pieces);
                    assert(res@.map_values(|d: String| d@) == nonempty_trimmed(pieces));
                }
                break;
            },
        }
    }
    res
}

/// Validate YAML syntax without reading it into a type: `Ok` exactly when
/// the text parses, else the error `YAML syntax validation failed`.
pub fn validate_yaml_syntax(yaml: &str) -> (res: Result<(), String>)
    ensures
        res is Ok <==> yaml_parse(yaml@) is Some,
        res matches Err(m) ==> m@ == "YAML syntax validation failed"@,
{
    match parse_yaml_text(yaml) {
        Ok(_) => Ok(()),
        Err(_) => Err(String::from_str("YAML syntax validation failed")),
    }
}

/// Parse one YAML document (`parse_yaml` read as `serde_yaml::Value`): its
/// value, or the error `Failed to parse YAML` when the text is not valid YAML.
pub fn parse_yaml(yaml: &str) -> (res: Result<YamlNode, String>)
    ensures
        match yaml_parse(yaml@) {
            Some(v) => (res matches Ok(n) && n@ == v),
            None => (res matches Err(m) && m@ == "Failed to parse YAML"@),
        },
{
    match parse_yaml_text(yaml) {
        Ok(n) => Ok(n),
        Err(_) => Err(String::from_str("Failed to parse YAML")),
    }
}

/// The values of the pieces of a multi-document text, in order, the empty
/// ones (after trimming) skipped; the position among all pieces of the first
/// one that is not valid YAML is the error.
pub open spec fn parse_pieces(pieces: Seq<Seq<char>>) -> Result<Seq<YamlValue>, nat>
    decreases pieces.len(),
{
    if pieces.len() == 0 {
        Ok(seq![])
    } else {
        match parse_pieces(pieces.drop_last()) {
            Err(k) => Err(k),
            Ok(prev) => {
                let d = trim(pieces.last());
                if d.len() == 0 {
                    Ok(prev)
                } else {
                    match yaml_parse(d) {
                        Some(v) => Ok(prev.push(v)),
                        None => Err((pieces.len() - 1) as nat),
                    }
                }
            },
        }
    }
}

proof fn lemma_parse_pieces_error_stays(pieces: Seq<Seq<char>>, k: int)
    requires
        0 <= k <= pieces.len(),
        parse_pieces(pieces.take(k)) is Err,
    ensures
        parse_pieces(pieces) == parse_pieces(pieces.take(k)),
    decreases pieces.len() - k,
{
    if k < pieces.len() {
        assert(pieces.take(k + 1).drop_last() =~= pieces.take(k));
        lemma_parse_pieces_error_stays(pieces, k + 1);
    } else {
        assert(pieces.take(k) =~= pieces);
    }
}

/// Parse a multi-document YAML text into values (`parse_yaml_multi` read
/// as `serde_yaml::Value`): each piece between `---` separators is trimmed
/// and, unless empty, parsed on its own (see `parse_pieces`); the first one
/// that does not parse gives `Failed to parse document <position>`.
pub fn parse_yaml_documents(text: &str) -> (res: Result<Vec<YamlNode>, String>)
    ensures
        match parse_pieces(separated_from(text@, 0)) {
            Ok(vs) => (res matches Ok(nodes) && nodes_view(nodes@) == vs),
            Err(k) => (res matches Err(m) && m@ == "Failed to parse document "@ + decimal(k)),
        },
{
    let cs = str_to_chars(text);
    let sep = doc_separator_chars();
    let ghost pieces = separated_from(cs@, 0);
    let mut res: Vec<YamlNode> = Vec::new();
    let mut i: usize = 0;
    let mut n: usize = 0;
    let ghost mut done: Seq<Seq<char>> = seq![];
    loop
        invariant_except_break
            done + separated_from(cs@, i as nat) == pieces,
            parse_pieces(done) == Ok::<Seq<YamlValue>, nat>(nodes_view(res@)),
            n == done.len(),
            n <= i,
        invariant
            i <= cs.len(),
            cs@ == text@,
            sep@ == doc_separator(),
            pieces == separated_from(cs@, 0),
        ensures
            parse_pieces(pieces) == Ok::<Seq<YamlValue>, nat>(nodes_view(res@)),
        decreases cs.len() + 1 - i,
    {
        proof {
            lemma_find_from_bounds(cs@, doc_separator(), i as nat);
        }
        let found = find_index_from(&cs, &sep, i);
        let end = match found {
            Some(j) => j,
            None => cs.len(),
        };
        let ghost piece = cs@.subrange(i as int, end as int);
        let (a, b) = trim_range(&cs, i, end);
        let ghost nd = done.push(piece);
        proof {
            assert(nd.drop_last() =~= done);
            assert(separated_from(cs@, i as nat) == seq![piece] + match found {
                Some(j) => separated_from(cs@, (j + 3) as nat),
                None => Seq::<Seq<char>>::empty(),
            });
            assert(pieces =~= nd + match found {
                Some(j) => separated_from(cs@, (j + 3) as nat),
                None => Seq::<Seq<char>>::empty(),
            });
        }
        if a < b {
            let doc = chars_to_string(&cs, a, b);
            match parse_yaml_text(doc.as_str()) {
                Ok(node) => {
                    let ghost before = res@;
                    res.push(node);
                    assert(res@.drop_last() =~= before);
                },
                Err(_) => {
                    proof {
                        assert(pieces.take(nd.len() as int) =~= nd);
                        lemma_parse_pieces_error_stays(pieces, nd.len() as int);
                    }
                    let mut m = String::from_str("Failed to parse document ");
                    push_decimal(&mut m, n as u64);
                    return Err(m);
                },
            }
        }
        proof {
            done = nd;
        }
        match found {
            Some(j) => {
                n = n + 1;
                i = j + 3;
            },
            None => {
                proof {
                    assert(done =~= pieces);
                }
                break;
            },
        }
    }
    Ok(res)
}

} // verus!
