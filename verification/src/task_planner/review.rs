//! The review of expanded tasks: which overview goes with which detailed
//! specification, where the JSON of an answer lies, and the report written
//! from the results.
use vstd::prelude::*;

use crate::json_model::{
    json_array, json_as_array, json_as_bool, json_as_str, json_as_u64, json_bool, json_field,
    json_get, json_parse, json_str, json_u64, json_views, lemma_json_views, parse_json_text,
    JsonNode, JsonValue,
};
use crate::task_planner::prompts::join_parts;
use crate::task_planner::types::{DetailedTask, ReviewResult, TaskOverview};
use crate::task_planner::utils::{get_task_id, get_task_name, node_views, task_value_id, task_value_name};
use crate::task_planner::workflow::{joined, string_views};
use crate::yaml_model::{YamlNode, YamlValue};
use crate::text::{
    chars_to_string, decimal, find, find_index_from, lemma_find_from_bounds, matches_at, push_decimal,
    push_str, str_to_chars, trim, trim_range,
};

verus! {

// ============================================================================
// Pairing overviews with detailed specifications
// ============================================================================

/// The last position in `ids` that holds `id`.
pub open spec fn last_index_of(ids: Seq<Option<u32>>, id: u32) -> Option<nat>
    decreases ids.len(),
{
    if ids.len() == 0 {
        None
    } else if ids.last() == Some(id) {
        Some((ids.len() - 1) as nat)
    } else {
        last_index_of(ids.drop_last(), id)
    }
}

/// The pairs (overview, detailed specification) reviewed, as positions, from
/// the ids of the overviews and those of the specifications (`None` for a
/// specification without one): in the order of the overviews, each overview
/// with the last specification of its id, each id paired once (at its first
/// overview). An overview without a specification is left out.
pub open spec fn review_pairs(overview_ids: Seq<u32>, detailed_ids: Seq<Option<u32>>) -> Seq<
    (usize, usize),
>
    decreases overview_ids.len(),
{
    if overview_ids.len() == 0 {
        seq![]
    } else {
        let prev = review_pairs(overview_ids.drop_last(), detailed_ids);
        let id = overview_ids.last();
        if !overview_ids.drop_last().contains(id) && last_index_of(detailed_ids, id) is Some {
            prev.push(((overview_ids.len() - 1) as usize, last_index_of(detailed_ids, id)->0 as usize))
        } else {
            prev
        }
    }
}

proof fn lemma_last_index_of(ids: Seq<Option<u32>>, id: u32)
    ensures
        last_index_of(ids, id) matches Some(k) ==> k < ids.len() && ids[k as int] == Some(id),
    decreases ids.len(),
{
    if ids.len() > 0 && ids.last() != Some(id) {
        lemma_last_index_of(ids.drop_last(), id);
    }
}

/// Every pair reviewed joins an overview and a specification of the same
/// id; the overviews come in their order, each at most once, and no
/// specification is reviewed twice.
pub proof fn law_review_pairs_match_and_never_repeat(overview_ids: Seq<u32>, detailed_ids: Seq<Option<u32>>)
    requires
        overview_ids.len() <= usize::MAX,
        detailed_ids.len() <= usize::MAX,
    ensures
        forall|k: int|
            0 <= k < review_pairs(overview_ids, detailed_ids).len() ==> {
                let p = #[trigger] review_pairs(overview_ids, detailed_ids)[k];
                &&& p.0 < overview_ids.len()
                &&& p.1 < detailed_ids.len()
                &&& detailed_ids[p.1 as int] == Some(overview_ids[p.0 as int])
            },
        forall|a: int, b: int|
            0 <= a < b < review_pairs(overview_ids, detailed_ids).len() ==> {
                let pa = #[trigger] review_pairs(overview_ids, detailed_ids)[a];
                let pb = #[trigger] review_pairs(overview_ids, detailed_ids)[b];
                pa.0 < pb.0 && pa.1 != pb.1
            },
    decreases overview_ids.len(),
{
    if overview_ids.len() > 0 {
        let prev_ids = overview_ids.drop_last();
        law_review_pairs_match_and_never_repeat(prev_ids, detailed_ids);
        let prev = review_pairs(prev_ids, detailed_ids);
        let id = overview_ids.last();
        let n = overview_ids.len() - 1;
        lemma_last_index_of(detailed_ids, id);
        assert forall|k: int| 0 <= k < prev.len() implies #[trigger] prev[k].0 < n && overview_ids[prev[k].0 as int] == prev_ids[prev[k].0 as int] by {}
        if !prev_ids.contains(id) && last_index_of(detailed_ids, id) is Some {
            let d = last_index_of(detailed_ids, id)->0;
            let now = review_pairs(overview_ids, detailed_ids);
            assert(now == prev.push((n as usize, d as usize)));
            assert(d < detailed_ids.len() && detailed_ids[d as int] == Some(id));
            assert forall|a: int| 0 <= a < prev.len() implies #[trigger] prev[a].1 != d as usize by {
                let pa = prev[a];
                assert(detailed_ids[pa.1 as int] == Some(prev_ids[pa.0 as int]));
                assert(prev_ids[pa.0 as int] != id) by {
                    if prev_ids[pa.0 as int] == id {
                        assert(prev_ids.contains(id));
                    }
                }
            }
        }
    }
}

fn last_index_with(ids: &Vec<Option<u32>>, id: u32) -> (r: Option<usize>)
    ensures
        match last_index_of(ids@, id) {
            Some(k) => r == Some(k as usize),
            None => r is None,
        },
{
    let mut found: Option<usize> = None;
    let mut k: usize = 0;
    while k < ids.len()
        invariant
            k <= ids.len(),
            match last_index_of(ids@.take(k as int), id) {
                Some(j) => found == Some(j as usize),
                None => found is None,
            },
        decreases ids.len() - k,
    {
        assert(ids@.take(k + 1).drop_last() =~= ids@.take(k as int));
        if ids[k] == Some(id) {
            found = Some(k);
        }
        k = k + 1;
    }
    assert(ids@.take(ids@.len() as int) =~= ids@);
    found
}

/// The overviews and specifications to review together, as positions, from
/// their ids (see `review_pairs`).
pub fn pair_by_id(overview_ids: &Vec<u32>, detailed_ids: &Vec<Option<u32>>) -> (res: Vec<
    (usize, usize),
>)
    ensures
        res@ == review_pairs(overview_ids@, detailed_ids@),
{
    let mut res: Vec<(usize, usize)> = Vec::new();
    let mut i: usize = 0;
    while i < overview_ids.len()
        invariant
            i <= overview_ids.len(),
            res@ == review_pairs(overview_ids@.take(i as int), detailed_ids@),
        decreases overview_ids.len() - i,
    {
        let ghost ids = overview_ids@.take(i + 1);
        assert(ids.drop_last() =~= overview_ids@.take(i as int));
        let id = overview_ids[i];
        let mut seen = false;
        let mut j: usize = 0;
        while j < i
            invariant
                j <= i < overview_ids.len(),
                id == overview_ids@[i as int],
                seen == overview_ids@.take(i as int).take(j as int).contains(id),
            decreases i - j,
        {
            let ghost before = overview_ids@.take(i as int).take(j as int);
            assert(overview_ids@.take(i as int).take(j + 1) =~= before.push(overview_ids@[j as int]));
            let x = overview_ids[j];
            proof {
                let now = before.push(x);
                if now.contains(id) {
                    let k = choose|k: int| 0 <= k < now.len() && now[k] == id;
                    if k < before.len() {
                        assert(before[k] == id);
                    }
                }
                if before.contains(id) {
                    let k = choose|k: int| 0 <= k < before.len() && before[k] == id;
                    assert(now[k] == id);
                }
                if x == id {
                    assert(now[j as int] == id);
                }
                assert(now.contains(id) == (before.contains(id) || x == id));
            }
            if x == id {
                seen = true;
            }
            j = j + 1;
        }
        assert(overview_ids@.take(i as int).take(i as int) =~= overview_ids@.take(i as int));
        if !seen {
            match last_index_with(detailed_ids, id) {
                Some(k) => {
                    res.push((i, k));
                },
                None => {},
            }
        }
        i = i + 1;
    }
    assert(overview_ids@.take(overview_ids@.len() as int) =~= overview_ids@);
    res
}

/// The ids of a list of overviews.
pub open spec fn overview_ids(v: Seq<TaskOverview>) -> Seq<u32> {
    v.map_values(|t: TaskOverview| t.task.id)
}

/// The ids of a list of detailed specifications.
pub open spec fn detailed_ids(v: Seq<DetailedTask>) -> Seq<Option<u32>> {
    v.map_values(|t: DetailedTask| Some(t.task.id))
}

/// The overviews and detailed specifications to review together, as
/// positions (see `review_pairs`).
pub fn pair_reviews(overviews: &Vec<TaskOverview>, detailed: &Vec<DetailedTask>) -> (res: Vec<
    (usize, usize),
>)
    ensures
        res@ == review_pairs(overview_ids(overviews@), detailed_ids(detailed@)),
{
    let mut ov: Vec<u32> = Vec::new();
    let mut i: usize = 0;
    while i < overviews.len()
        invariant
            i <= overviews.len(),
            ov@ == overview_ids(overviews@.take(i as int)),
        decreases overviews.len() - i,
    {
        ov.push(overviews[i].task.id);
        assert(ov@ =~= overview_ids(overviews@.take(i + 1)));
        i = i + 1;
    }
    let mut det: Vec<Option<u32>> = Vec::new();
    let mut k: usize = 0;
    while k < detailed.len()
        invariant
            k <= detailed.len(),
            det@ == detailed_ids(detailed@.take(k as int)),
        decreases detailed.len() - k,
    {
        det.push(Some(detailed[k].task.id));
        assert(det@ =~= detailed_ids(detailed@.take(k + 1)));
        k = k + 1;
    }
    assert(overviews@.take(overviews@.len() as int) =~= overviews@);
    assert(detailed@.take(detailed@.len() as int) =~= detailed@);
    pair_by_id(&ov, &det)
}

/// The id an overview given as a YAML value is looked up by: its
/// `task.id`, or 0 without one.
pub open spec fn overview_value_id(t: YamlValue) -> u32 {
    match task_value_id(t) {
        Some(id) => id,
        None => 0,
    }
}

/// The overviews and detailed specifications, given as YAML values, to
/// review together, as positions (see `review_pairs`): an overview without
/// an id is looked up as task 0, a specification without one is never
/// paired.
pub fn pair_review_values(overviews: &Vec<YamlNode>, detailed: &Vec<YamlNode>) -> (res: Vec<
    (usize, usize),
>)
    ensures
        res@ == review_pairs(
            node_views(overviews@).map_values(|t: YamlValue| overview_value_id(t)),
            node_views(detailed@).map_values(|t: YamlValue| task_value_id(t)),
        ),
{
    proof {
        crate::yaml_model::lemma_nodes_view(overviews@);
        crate::yaml_model::lemma_nodes_view(detailed@);
    }
    let ghost ovs = node_views(overviews@);
    let ghost dets = node_views(detailed@);
    let mut ov: Vec<u32> = Vec::new();
    let mut i: usize = 0;
    while i < overviews.len()
        invariant
            i <= overviews.len(),
            ovs == node_views(overviews@),
            ovs.len() == overviews@.len(),
            forall|q: int| 0 <= q < overviews@.len() ==> #[trigger] ovs[q] == overviews@[q]@,
            ov@ == ovs.take(i as int).map_values(|t: YamlValue| overview_value_id(t)),
        decreases overviews.len() - i,
    {
        let id: u32 = match get_task_id(&overviews[i]) {
            Some(id) => id,
            None => 0,
        };
        ov.push(id);
        assert(ovs.take(i + 1) =~= ovs.take(i as int).push(ovs[i as int]));
        assert(ov@ =~= ovs.take(i + 1).map_values(|t: YamlValue| overview_value_id(t)));
        i = i + 1;
    }
    let mut det: Vec<Option<u32>> = Vec::new();
    let mut k: usize = 0;
    while k < detailed.len()
        invariant
            k <= detailed.len(),
            dets == node_views(detailed@),
            dets.len() == detailed@.len(),
            forall|q: int| 0 <= q < detailed@.len() ==> #[trigger] dets[q] == detailed@[q]@,
            det@ == dets.take(k as int).map_values(|t: YamlValue| task_value_id(t)),
        decreases detailed.len() - k,
    {
        det.push(get_task_id(&detailed[k]));
        assert(dets.take(k + 1) =~= dets.take(k as int).push(dets[k as int]));
        assert(det@ =~= dets.take(k + 1).map_values(|t: YamlValue| task_value_id(t)));
        k = k + 1;
    }
    assert(ovs.take(ovs.len() as int) =~= ovs);
    assert(dets.take(dets.len() as int) =~= dets);
    pair_by_id(&ov, &det)
}

// ============================================================================
// The JSON of an answer
// ============================================================================

/// The text up to the first occurrence of `pat` (`split(pat).next()`).
pub open spec fn before_first(s: Seq<char>, pat: Seq<char>) -> Seq<char> {
    match find(s, pat) {
        Some(k) => s.take(k as int),
        None => s,
    }
}

/// The text between the first and the second occurrence of `pat`
/// (`split(pat).nth(1)`), when `pat` occurs.
pub open spec fn after_first(s: Seq<char>, pat: Seq<char>) -> Seq<char> {
    let rest = s.skip((find(s, pat)->0 + pat.len()) as int);
    before_first(rest, pat)
}

/// Where the JSON of an answer lies: the first ```` ```json ```` block, else
/// the first code block, else the whole answer; trimmed.
pub open spec fn answer_json_text(answer: Seq<char>) -> Seq<char> {
    if find(answer, "```json"@) is Some {
        trim(before_first(after_first(answer, "```json"@), "```"@))
    } else if find(answer, "```"@) is Some {
        trim(before_first(after_first(answer, "```"@), "```"@))
    } else {
        trim(answer)
    }
}

fn sub_chars(s: &Vec<char>, a: usize, b: usize) -> (res: Vec<char>)
    requires
        a <= b <= s.len(),
    ensures
        res@ == s@.subrange(a as int, b as int),
{
    let mut res: Vec<char> = Vec::new();
    let mut i = a;
    while i < b
        invariant
            a <= i <= b <= s.len(),
            res@ == s@.subrange(a as int, i as int),
        decreases b - i,
    {
        res.push(s[i]);
        i = i + 1;
    }
    res
}

fn chars_before_first(s: &Vec<char>, pat: &Vec<char>) -> (res: Vec<char>)
    ensures
        res@ == before_first(s@, pat@),
{
    match find_index_from(s, pat, 0) {
        Some(k) => {
            proof {
                lemma_find_from_bounds(s@, pat@, 0);
            }
            sub_chars(s, 0, k)
        },
        None => sub_chars(s, 0, s.len()),
    }
}

fn chars_after_first(s: &Vec<char>, pat: &Vec<char>) -> (res: Vec<char>)
    requires
        find(s@, pat@) is Some,
    ensures
        res@ == after_first(s@, pat@),
{
    proof {
        lemma_find_from_bounds(s@, pat@, 0);
    }
    match find_index_from(s, pat, 0) {
        Some(a) => {
            assert(a == find(s@, pat@)->0);
            assert(matches_at(s@, pat@, a as int));
            let n = s.len();
            let m = pat.len();
            assert(a + m <= n);
            let rest = sub_chars(s, a + pat.len(), s.len());
            assert(rest@ =~= s@.skip((find(s@, pat@)->0 + pat@.len()) as int));
            chars_before_first(&rest, pat)
        },
        None => Vec::new(),
    }
}

/// The JSON text of an answer (see `answer_json_text`).
pub fn answer_json(answer: &str) -> (res: String)
    ensures
        res@ == answer_json_text(answer@),
{
    let cs = str_to_chars(answer);
    let json_fence = str_to_chars("```json");
    let fence = str_to_chars("```");
    let piece = if find_index_from(&cs, &json_fence, 0).is_some() {
        let body = chars_after_first(&cs, &json_fence);
        chars_before_first(&body, &fence)
    } else if find_index_from(&cs, &fence, 0).is_some() {
        let body = chars_after_first(&cs, &fence);
        chars_before_first(&body, &fence)
    } else {
        let all = sub_chars(&cs, 0, cs.len());
        assert(all@ =~= answer@);
        all
    };
    assert(trim(piece@) == answer_json_text(answer@));
    let (a, b) = trim_range(&piece, 0, piece.len());
    assert(piece@.subrange(0, piece@.len() as int) =~= piece@);
    chars_to_string(&piece, a, b)
}

/// The JSON texts among a list of values, in order.
pub open spec fn json_strs(items: Seq<JsonValue>) -> Seq<Seq<char>>
    decreases items.len(),
{
    if items.len() == 0 {
        seq![]
    } else {
        let prev = json_strs(items.drop_last());
        match json_as_str(items.last()) {
            Some(s) => prev.push(s),
            None => prev,
        }
    }
}

/// One review result read from JSON: its `task_id` (a non-negative
/// integer, kept modulo 2^32) and `success` (a boolean) are required; its
/// `issues` are the texts of its list (none without a list) and its
/// `summary` is `No summary` when it has none as a text.
pub open spec fn review_of(v: JsonValue) -> Result<(u32, bool, Seq<Seq<char>>, Seq<char>), Seq<char>> {
    match json_get(v, "task_id"@) {
        Some(t) if json_as_u64(t) is Some => match json_get(v, "success"@) {
            Some(b) if json_as_bool(b) is Some => Ok(
                (
                    json_as_u64(t)->0 as u32,
                    json_as_bool(b)->0,
                    match json_get(v, "issues"@) {
                        Some(a) => match json_as_array(a) {
                            Some(items) => json_strs(items),
                            None => seq![],
                        },
                        None => seq![],
                    },
                    match json_get(v, "summary"@) {
                        Some(x) => match json_as_str(x) {
                            Some(s) => s,
                            None => "No summary"@,
                        },
                        None => "No summary"@,
                    },
                ),
            ),
            _ => Err("Missing success"@),
        },
        _ => Err("Missing task_id"@),
    }
}

/// The review results of a list of values, in order; the first value that
/// is not a result gives the error.
pub open spec fn reviews_of(items: Seq<JsonValue>) -> Result<
    Seq<(u32, bool, Seq<Seq<char>>, Seq<char>)>,
    Seq<char>,
>
    decreases items.len(),
{
    if items.len() == 0 {
        Ok(seq![])
    } else {
        match reviews_of(items.drop_last()) {
            Err(e) => Err(e),
            Ok(prev) => match review_of(items.last()) {
                Err(e) => Err(e),
                Ok(r) => Ok(prev.push(r)),
            },
        }
    }
}

/// The review results of a JSON value, which must be an array.
pub open spec fn review_results_of(v: JsonValue) -> Result<
    Seq<(u32, bool, Seq<Seq<char>>, Seq<char>)>,
    Seq<char>,
> {
    match json_as_array(v) {
        Some(items) => reviews_of(items),
        None => Err("Expected JSON array"@),
    }
}

fn json_texts(items: &Vec<JsonNode>) -> (res: Vec<String>)
    ensures
        res@.map_values(|s: String| s@) == json_strs(json_views(items@)),
{
    proof {
        lemma_json_views(items@);
    }
    let ghost all = json_views(items@);
    let mut res: Vec<String> = Vec::new();
    let mut i: usize = 0;
    while i < items.len()
        invariant
            i <= items.len(),
            all == json_views(items@),
            all.len() == items@.len(),
            forall|k: int| 0 <= k < items@.len() ==> #[trigger] all[k] == items@[k]@,
            res@.map_values(|s: String| s@) == json_strs(all.take(i as int)),
        decreases items.len() - i,
    {
        assert(all.take(i + 1).drop_last() =~= all.take(i as int));
        assert(all.take(i + 1).last() == items@[i as int]@);
        match json_str(&items[i]) {
            Some(s) => {
                let ghost before = res@.map_values(|s: String| s@);
                res.push(String::from_str(s));
                assert(res@.map_values(|s: String| s@) =~= before.push(s@));
            },
            None => {},
        }
        i = i + 1;
    }
    assert(all.take(all.len() as int) =~= all);
    res
}

fn review_from_json(v: &JsonNode) -> (res: Result<ReviewResult, String>)
    ensures
        match review_of(v@) {
            Ok(r) => (res matches Ok(x) && x@ == r),
            Err(e) => (res matches Err(m) && m@ == e),
        },
{
    let task_id = match json_field(v, "task_id") {
        Some(t) => match json_u64(t) {
            Some(n) => n as u32,
            None => return Err(String::from_str("Missing task_id")),
        },
        None => return Err(String::from_str("Missing task_id")),
    };
    let success = match json_field(v, "success") {
        Some(b) => match json_bool(b) {
            Some(b) => b,
            None => return Err(String::from_str("Missing success")),
        },
        None => return Err(String::from_str("Missing success")),
    };
    let issues = match json_field(v, "issues") {
        Some(a) => match json_array(a) {
            Some(items) => json_texts(items),
            None => Vec::new(),
        },
        None => Vec::new(),
    };
    let summary = match json_field(v, "summary") {
        Some(x) => match json_str(x) {
            Some(s) => String::from_str(s),
            None => String::from_str("No summary"),
        },
        None => String::from_str("No summary"),
    };
    let r = ReviewResult { task_id, success, issues, summary };
    proof {
        if r.issues@.len() == 0 {
            assert(r.issues@.map_values(|s: String| s@) =~= Seq::<Seq<char>>::empty());
        }
    }
    assert(r@ =~= review_of(v@)->Ok_0);
    Ok(r)
}

/// The review results of a JSON value (see `review_results_of`).
pub fn review_results_from_json(v: &JsonNode) -> (res: Result<Vec<ReviewResult>, String>)
    ensures
        match review_results_of(v@) {
            Ok(rs) => (res matches Ok(x) && x@.map_values(|r: ReviewResult| r@) == rs),
            Err(e) => (res matches Err(m) && m@ == e),
        },
{
    let items = match json_array(v) {
        Some(items) => items,
        None => return Err(String::from_str("Expected JSON array")),
    };
    proof {
        lemma_json_views(items@);
    }
    let ghost all = json_views(items@);
    let mut out: Vec<ReviewResult> = Vec::new();
    assert(all.take(0) =~= Seq::<JsonValue>::empty());
    assert(out@.map_values(|r: ReviewResult| r@) =~= Seq::<(u32, bool, Seq<Seq<char>>, Seq<char>)>::empty());
    let mut i: usize = 0;
    while i < items.len()
        invariant
            i <= items.len(),
            all == json_views(items@),
            json_as_array(v@) == Some(all),
            all.len() == items@.len(),
            forall|k: int| 0 <= k < items@.len() ==> #[trigger] all[k] == items@[k]@,
            reviews_of(all.take(i as int)) == Ok::<Seq<(u32, bool, Seq<Seq<char>>, Seq<char>)>, Seq<char>>(out@.map_values(|r: ReviewResult| r@)),
        decreases items.len() - i,
    {
        assert(all.take(i + 1).drop_last() =~= all.take(i as int));
        assert(all.take(i + 1).last() == items@[i as int]@);
        match review_from_json(&items[i]) {
            Ok(r) => {
                let ghost before = out@.map_values(|r: ReviewResult| r@);
                out.push(r);
                assert(out@.map_values(|r: ReviewResult| r@) =~= before.push(r@));
            },
            Err(e) => {
                proof {
                    assert(reviews_of(all.take(i + 1)) == Err::<Seq<(u32, bool, Seq<Seq<char>>, Seq<char>)>, Seq<char>>(e@));
                    lemma_reviews_error_stays(all, i as int + 1);
                }
                return Err(e);
            },
        }
        i = i + 1;
    }
    assert(all.take(all.len() as int) =~= all);
    Ok(out)
}

proof fn lemma_reviews_error_stays(items: Seq<JsonValue>, k: int)
    requires
        0 <= k <= items.len(),
        reviews_of(items.take(k)) is Err,
    ensures
        reviews_of(items) == reviews_of(items.take(k)),
    decreases items.len() - k,
{
    if k < items.len() {
        assert(items.take(k + 1).drop_last() =~= items.take(k));
        lemma_reviews_error_stays(items, k + 1);
    } else {
        assert(items.take(k) =~= items);
    }
}

/// The message of an answer whose JSON does not parse.
pub open spec fn review_parse_error() -> Seq<char> {
    "Failed to parse review results JSON"@
}

/// The review results of a review agent's answer: the JSON found in it (see
/// `answer_json_text`), which must parse, read as in `review_results_of`.
pub fn review_results_from_answer(answer: &str) -> (res: Result<Vec<ReviewResult>, String>)
    ensures
        match json_parse(answer_json_text(answer@)) {
            None => (res matches Err(m) && m@ == review_parse_error()),
            Some(v) => match review_results_of(v) {
                Ok(rs) => (res matches Ok(x) && x@.map_values(|r: ReviewResult| r@) == rs),
                Err(e) => (res matches Err(m) && m@ == e),
            },
        },
{
    let text = answer_json(answer);
    match parse_json_text(text.as_str()) {
        Ok(v) => review_results_from_json(&v),
        Err(_) => Err(String::from_str("Failed to parse review results JSON")),
    }
}

/// The lines naming the tasks of a review batch, given as YAML values:
/// `  - Task <id>: <name>`, with 0 and `Unknown` for a missing id or name.
pub open spec fn review_task_lines(tasks: Seq<YamlValue>) -> Seq<Seq<char>> {
    tasks.map_values(
        |t: YamlValue|
            "  - Task "@ + decimal(
                match task_value_id(t) {
                    Some(id) => id as nat,
                    None => 0nat,
                },
            ) + ": "@ + match task_value_name(t) {
                Some(n) => n,
                None => "Unknown"@,
            },
    )
}

/// The list of the tasks of a review batch: their lines (see
/// `review_task_lines`) joined with newlines.
pub fn review_task_list(tasks: &Vec<YamlNode>) -> (res: String)
    ensures
        res@ == joined(review_task_lines(node_views(tasks@)), "\n"@),
{
    proof {
        crate::yaml_model::lemma_nodes_view(tasks@);
    }
    let ghost all = node_views(tasks@);
    let mut lines: Vec<String> = Vec::new();
    let mut i: usize = 0;
    while i < tasks.len()
        invariant
            i <= tasks.len(),
            all == node_views(tasks@),
            all.len() == tasks@.len(),
            forall|k: int| 0 <= k < tasks@.len() ==> #[trigger] all[k] == tasks@[k]@,
            string_views(lines@) == review_task_lines(all.take(i as int)),
        decreases tasks.len() - i,
    {
        let t = &tasks[i];
        let mut l = String::from_str("  - Task ");
        let id: u32 = match get_task_id(t) {
            Some(id) => id,
            None => 0,
        };
        push_decimal(&mut l, id as u64);
        push_str(&mut l, ": ");
        match get_task_name(t) {
            Some(n) => push_str(&mut l, n),
            None => push_str(&mut l, "Unknown"),
        }
        let ghost lv = l@;
        let ghost before = string_views(lines@);
        lines.push(l);
        proof {
            let tv = all[i as int];
            assert(tv == tasks@[i as int]@);
            assert(lv == "  - Task "@ + decimal(
                match task_value_id(tv) {
                    Some(id) => id as nat,
                    None => 0nat,
                },
            ) + ": "@ + match task_value_name(tv) {
                Some(n) => n,
                None => "Unknown"@,
            });
            assert(string_views(lines@) =~= before.push(lv));
            assert(all.take(i + 1) =~= all.take(i as int).push(tv));
            assert(review_task_lines(all.take(i + 1)) =~= review_task_lines(all.take(i as int)).push(lv));
        }
        i = i + 1;
    }
    assert(all.take(all.len() as int) =~= all);
    join_parts(&lines, "\n")
}

// ============================================================================
// The report
// ============================================================================

/// The number of approved results.
pub open spec fn approved_count(results: Seq<ReviewResult>) -> nat
    decreases results.len(),
{
    if results.len() == 0 {
        0
    } else {
        approved_count(results.drop_last()) + if results.last().success {
            1nat
        } else {
            0nat
        }
    }
}

/// A rule of eighty `=`.
pub open spec fn report_rule() -> Seq<char> {
    Seq::new(80, |i: int| '=')
}

/// The lines listing the issues of a result.
pub open spec fn issue_lines(issues: Seq<String>) -> Seq<char>
    decreases issues.len(),
{
    if issues.len() == 0 {
        seq![]
    } else {
        issue_lines(issues.drop_last()) + "  - "@ + issues.last()@ + "\n"@
    }
}

/// The part of the report about one result.
pub open spec fn report_entry(r: ReviewResult) -> Seq<char> {
    "\nTask "@ + decimal(r.task_id as nat) + ": "@ + (if r.success {
        "APPROVED"@
    } else {
        "NEEDS REVISION"@
    }) + "\n"@ + "Summary: "@ + r.summary@ + "\n"@ + (if r.issues@.len() > 0 {
        "Issues:\n"@ + issue_lines(r.issues@)
    } else {
        seq![]
    }) + "\n"@
}

/// The parts of the report about each result, in order.
pub open spec fn report_entries(results: Seq<ReviewResult>) -> Seq<char>
    decreases results.len(),
{
    if results.len() == 0 {
        seq![]
    } else {
        report_entries(results.drop_last()) + report_entry(results.last())
    }
}

/// The review report: a heading between two rules, the numbers of tasks,
/// of approved ones and of those that need revision, then each result with
/// its summary and issues.
pub open spec fn review_report_text(results: Seq<ReviewResult>) -> Seq<char> {
    let approved = approved_count(results);
    report_rule() + "\nTASK REVIEW REPORT\n"@ + report_rule() + "\n\nTotal tasks: "@ + decimal(
        results.len(),
    ) + "\n"@ + "Approved: "@ + decimal(approved) + "\n"@ + "Needs revision: "@ + decimal(
        (results.len() - approved) as nat,
    ) + "\n\n"@ + report_entries(results)
}

proof fn lemma_approved_bounded(results: Seq<ReviewResult>)
    ensures
        approved_count(results) <= results.len(),
    decreases results.len(),
{
    if results.len() > 0 {
        lemma_approved_bounded(results.drop_last());
    }
}

/// The results whose success flag is set.
pub open spec fn successful_results(results: Seq<ReviewResult>) -> Seq<ReviewResult> {
    results.filter(|r: ReviewResult| r.success)
}

/// The results whose success flag is not set.
pub open spec fn failed_results(results: Seq<ReviewResult>) -> Seq<ReviewResult> {
    results.filter(|r: ReviewResult| !r.success)
}

/// A result is approved exactly when its success flag is set, whatever
/// issues it lists: the approved count is the number of successful results,
/// and the rest, which need revision, are the unsuccessful ones.
pub proof fn law_approved_are_the_successful(results: Seq<ReviewResult>)
    ensures
        approved_count(results) == successful_results(results).len(),
        results.len() - approved_count(results) == failed_results(results).len(),
    decreases results.len(),
{
    reveal(Seq::filter);
    if results.len() > 0 {
        law_approved_are_the_successful(results.drop_last());
    }
}

/// The number of approved results.
pub fn count_approved(results: &Vec<ReviewResult>) -> (n: usize)
    ensures
        n as nat == approved_count(results@),
        n <= results.len(),
{
    let mut n: usize = 0;
    let mut i: usize = 0;
    while i < results.len()
        invariant
            i <= results.len(),
            n <= i,
            n as nat == approved_count(results@.take(i as int)),
        decreases results.len() - i,
    {
        assert(results@.take(i + 1).drop_last() =~= results@.take(i as int));
        if results[i].success {
            n = n + 1;
        }
        i = i + 1;
    }
    assert(results@.take(results@.len() as int) =~= results@);
    n
}

fn push_rule(out: &mut String)
    ensures
        final(out)@ == old(out)@ + report_rule(),
{
    let ghost start = out@;
    let mut i: usize = 0;
    while i < 80
        invariant
            i <= 80,
            out@ == start + Seq::new(i as nat, |k: int| '='),
        decreases 80 - i,
    {
        crate::text::string_push(out, '=');
        assert(out@ =~= start + Seq::new((i + 1) as nat, |k: int| '='));
        i = i + 1;
    }
}

fn push_report_entry(out: &mut String, r: &ReviewResult)
    ensures
        final(out)@ == old(out)@ + report_entry(*r),
{
    let ghost start = out@;
    push_str(out, "\nTask ");
    push_decimal(out, r.task_id as u64);
    push_str(out, ": ");
    if r.success {
        push_str(out, "APPROVED");
    } else {
        push_str(out, "NEEDS REVISION");
    }
    push_str(out, "\n");
    push_str(out, "Summary: ");
    push_str(out, r.summary.as_str());
    push_str(out, "\n");
    let ghost before_issues = out@;
    if r.issues.len() > 0 {
        push_str(out, "Issues:\n");
        let ghost head = out@;
        let mut k: usize = 0;
        while k < r.issues.len()
            invariant
                k <= r.issues.len(),
                out@ == head + issue_lines(r.issues@.take(k as int)),
            decreases r.issues.len() - k,
        {
            assert(r.issues@.take(k + 1).drop_last() =~= r.issues@.take(k as int));
            push_str(out, "  - ");
            push_str(out, r.issues[k].as_str());
            push_str(out, "\n");
            k = k + 1;
        }
        assert(r.issues@.take(r.issues@.len() as int) =~= r.issues@);
    }
    push_str(out, "\n");
    assert(out@ =~= start + report_entry(*r));
}

/// The review report (see `review_report_text`).
pub fn review_report(results: &Vec<ReviewResult>) -> (res: String)
    ensures
        res@ == review_report_text(results@),
{
    let approved = count_approved(results);
    let mut out = String::new();
    push_rule(&mut out);
    push_str(&mut out, "\nTASK REVIEW REPORT\n");
    push_rule(&mut out);
    push_str(&mut out, "\n\nTotal tasks: ");
    push_decimal(&mut out, results.len() as u64);
    push_str(&mut out, "\n");
    push_str(&mut out, "Approved: ");
    push_decimal(&mut out, approved as u64);
    push_str(&mut out, "\n");
    push_str(&mut out, "Needs revision: ");
    push_decimal(&mut out, (results.len() - approved) as u64);
    push_str(&mut out, "\n\n");
    let ghost head = out@;
    let mut i: usize = 0;
    while i < results.len()
        invariant
            i <= results.len(),
            out@ == head + report_entries(results@.take(i as int)),
        decreases results.len() - i,
    {
        assert(results@.take(i + 1).drop_last() =~= results@.take(i as int));
        push_report_entry(&mut out, &results[i]);
        i = i + 1;
    }
    assert(results@.take(results@.len() as int) =~= results@);
    out
}

} // verus!
