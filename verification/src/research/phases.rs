//! What each phase of the research workflow asks its agents and reads back
//! from their answers: the codebase analysis request, the prompt writer's
//! instructions and the research prompts it answers with, the names of the
//! research results, the repair of invalid YAML files and the synthesis of
//! the documentation.
use vstd::prelude::*;

use crate::research::types::{PromptsData, ResearchPrompt, ResearchResult};
use crate::text::{
    chars_to_string, decimal, push_decimal, push_str, rfind, rfind_index_from, sort_texts,
    str_to_chars, string_seq_views, text_eq, text_lines, texts_sorted,
};
use crate::workflow_utils::yaml::{extract_yaml, extract_yaml_text};
use crate::yaml_model::{
    parse_yaml_text, value_as_str, value_get_list, value_get_str, yaml_as_list, yaml_as_str,
    yaml_get, yaml_parse, YamlNode, YamlValue,
};

verus! {

// ============================================================================
// Codebase analysis
// ============================================================================

/// The instructions of the agent that analyses the codebase.
pub const ANALYSIS_SYSTEM_PROMPT: &'static str = r#"You are a codebase analyst. Your analysis must be ACCURATE and COMPREHENSIVE.

CRITICAL REQUIREMENTS:
- Use Bash tools (find, wc, grep) to get EXACT counts, never estimate
- Run 'find . -name "*.ext" | wc -l' for precise file counts
- Run 'find . -name "*.ext" -exec wc -l {} + | tail -1' for total line counts
- Count ALL files, do not sample or approximate
- Verify your numbers before outputting YAML

YAML OUTPUT REQUIREMENTS (CRITICAL):
- NO DUPLICATE KEYS at any level - each key must appear only once
- Use arrays/lists for multiple items under one key
- Example: WRONG: "documentation: a\ndocumentation: b"  CORRECT: "documentation:\n  - a\n  - b"
- Validate YAML structure before outputting - check for any repeated keys
- Proper YAML indentation (2 spaces, no tabs)

Provide detailed structural analysis with accurate, verified metrics."#;

/// The analysis request up to the path of the codebase.
pub const ANALYSIS_PROMPT_HEAD: &'static str = r#"Analyze the codebase at "#;

/// The analysis request after the path of the codebase.
pub const ANALYSIS_PROMPT_TAIL: &'static str = r#" and provide a structured overview.

# CRITICAL: Use Bash tools for EXACT counts, not estimates!

# Required Analysis

## 1. File Statistics (MUST BE EXACT - USE BASH COMMANDS)
Run these commands to get ACCURATE counts:
  - Count .rs files: find . -name "*.rs" -type f | wc -l
  - Count .rs lines: find . -name "*.rs" -type f -exec wc -l {} + | tail -1
  - Count .py files: find . -name "*.py" -type f | wc -l
  - Count .py lines: find . -name "*.py" -type f -exec wc -l {} + | tail -1
  - Repeat for ALL extensions found (.md, .yaml, .toml, .js, etc.)

Output format:
  - File count by extension (exact numbers from find | wc -l)
  - Total lines of code per extension (exact numbers from wc -l)
  - Identify test files vs source files (use grep or file paths)

## 2. Directory Structure
- Map top 3 directory levels (use tree or ls -R)
- Identify purpose of each major directory
- Note any special directories (docs, examples, tests, benchmarks)

## 3. Entry Points & Configuration
- Main executable files (main.rs, __main__.py, index.js)
- Build configs (Cargo.toml, package.json, pyproject.toml, CMakeLists.txt)
- CI/CD configs (.github/workflows)
- Documentation roots (README.md, docs/)

## 4. Dependencies & Frameworks
- External dependencies (from manifest files)
- Internal module/crate structure
- Framework detection (web frameworks, ML libraries, etc.)

## 5. Architecture Patterns
- Project type (library, application, monorepo, workspace)
- Module organization (monolithic, modular, microservices)
- Notable patterns (MVC, layered, plugin-based)

## 6. Key Components
- Core modules/packages
- Public APIs or interfaces
- Notable implementation files

# Output Format
Provide analysis as YAML with proper structure.

BEFORE generating YAML:
1. Verify all file counts are exact (not estimated)
2. Use actual command outputs for line counts
3. Double-check numbers match bash command results
4. **CRITICAL: Check for duplicate keys at EVERY level - each key must appear ONCE**
5. If you need multiple values, use YAML arrays/lists: `key:\n  - value1\n  - value2`

Be comprehensive and ACCURATE with all metrics."#;

/// The request that asks for the analysis of the codebase at `path`.
pub open spec fn analysis_prompt_text(path: Seq<char>) -> Seq<char> {
    ANALYSIS_PROMPT_HEAD@ + path + ANALYSIS_PROMPT_TAIL@
}

/// The request that asks for the analysis of the codebase at
/// `codebase_path` (see `analysis_prompt_text`).
pub fn analysis_prompt(codebase_path: &str) -> (res: String)
    ensures
        res@ == analysis_prompt_text(codebase_path@),
{
    let mut p = String::from_str(ANALYSIS_PROMPT_HEAD);
    push_str(&mut p, codebase_path);
    push_str(&mut p, ANALYSIS_PROMPT_TAIL);
    p
}

// ============================================================================
// Research prompts
// ============================================================================

/// The instructions of the prompt writer: its own instructions, then the
/// codebase analysis (as YAML) and the output style under headings.
pub open spec fn writer_system_prompt_text(writer: Seq<char>, analysis_yaml: Seq<char>, style: Seq<
    char,
>) -> Seq<char> {
    writer + "\n\n# Codebase Analysis\n"@ + analysis_yaml + "\n\n# Output Style\n"@ + style
}

/// The instructions of the prompt writer (see `writer_system_prompt_text`).
pub fn writer_system_prompt(prompt_writer: &str, analysis_yaml: &str, output_style: &str) -> (res:
    String)
    ensures
        res@ == writer_system_prompt_text(prompt_writer@, analysis_yaml@, output_style@),
{
    let mut p = String::from_str(prompt_writer);
    push_str(&mut p, "\n\n# Codebase Analysis\n");
    push_str(&mut p, analysis_yaml);
    push_str(&mut p, "\n\n# Output Style\n");
    push_str(&mut p, output_style);
    p
}

/// The request that asks for the research prompts of an objective.
pub fn prompts_request(objective: &str) -> (res: String)
    ensures
        res@ == "Generate research prompts for: "@ + objective@,
{
    let mut p = String::from_str("Generate research prompts for: ");
    push_str(&mut p, objective);
    p
}

/// The texts among a list of YAML values, in order.
pub open spec fn str_items(items: Seq<YamlValue>) -> Seq<Seq<char>>
    decreases items.len(),
{
    if items.len() == 0 {
        seq![]
    } else {
        let prev = str_items(items.drop_last());
        match value_as_str(items.last()) {
            Some(s) => prev.push(s),
            None => prev,
        }
    }
}

/// A research prompt read from YAML: its title and query, which it must
/// have as texts, and the texts of its focus list (none without a list).
pub open spec fn prompt_of(p: YamlValue) -> Option<(Seq<char>, Seq<char>, Seq<Seq<char>>)> {
    match (value_get_str(p, "title"@), value_get_str(p, "query"@)) {
        (Some(t), Some(q)) => Some(
            (
                t,
                q,
                match value_get_list(p, "focus"@) {
                    Some(l) => str_items(l),
                    None => seq![],
                },
            ),
        ),
        _ => None,
    }
}

/// The research prompts read from a YAML list, those that lack a title or
/// a query left out.
pub open spec fn prompts_of(items: Seq<YamlValue>) -> Seq<(Seq<char>, Seq<char>, Seq<Seq<char>>)>
    decreases items.len(),
{
    if items.len() == 0 {
        seq![]
    } else {
        let prev = prompts_of(items.drop_last());
        match prompt_of(items.last()) {
            Some(p) => prev.push(p),
            None => prev,
        }
    }
}

/// The research prompts read from the prompt writer's YAML: its objective
/// (`Unknown objective` when it has none as a text) and its prompts.
pub open spec fn prompts_data_of(v: YamlValue) -> (
    Seq<char>,
    Seq<(Seq<char>, Seq<char>, Seq<Seq<char>>)>,
) {
    (
        match value_get_str(v, "objective"@) {
            Some(o) => o,
            None => "Unknown objective"@,
        },
        match value_get_list(v, "prompts"@) {
            Some(l) => prompts_of(l),
            None => seq![],
        },
    )
}

fn str_items_of(items: &Vec<YamlNode>) -> (res: Vec<String>)
    ensures
        res@.map_values(|s: String| s@) == str_items(crate::yaml_model::nodes_view(items@)),
{
    proof {
        crate::yaml_model::lemma_nodes_view(items@);
    }
    let ghost all = crate::yaml_model::nodes_view(items@);
    let mut res: Vec<String> = Vec::new();
    let mut i: usize = 0;
    while i < items.len()
        invariant
            i <= items.len(),
            all == crate::yaml_model::nodes_view(items@),
            all.len() == items@.len(),
            forall|k: int| 0 <= k < items@.len() ==> #[trigger] all[k] == items@[k]@,
            res@.map_values(|s: String| s@) == str_items(all.take(i as int)),
        decreases items.len() - i,
    {
        assert(all.take(i + 1).drop_last() =~= all.take(i as int));
        assert(all.take(i + 1).last() == items@[i as int]@);
        match yaml_as_str(&items[i]) {
            Some(s) => {
                let ghost before = res@.map_values(|s: String| s@);
                res.push(String::from_str(s));
                assert(res@.map_values(|s: String| s@) =~= before.push(s@));
            },
            None => {},
        }
        i = i + 1;
    }
    assert(all.take(all.len() as int) =~= all);
    res
}

fn prompt_from_node(p: &YamlNode) -> (res: Option<ResearchPrompt>)
    ensures
        match prompt_of(p@) {
            Some(v) => (res matches Some(r) && r@ == v),
            None => res is None,
        },
{
    let title = match yaml_get(p, "title") {
        Some(t) => match yaml_as_str(t) {
            Some(s) => s,
            None => return None,
        },
        None => return None,
    };
    let query = match yaml_get(p, "query") {
        Some(q) => match yaml_as_str(q) {
            Some(s) => s,
            None => return None,
        },
        None => return None,
    };
    let focus = match yaml_get(p, "focus") {
        Some(f) => match yaml_as_list(f) {
            Some(l) => str_items_of(l),
            None => Vec::new(),
        },
        None => Vec::new(),
    };
    let r = ResearchPrompt { title: String::from_str(title), query: String::from_str(query), focus };
    proof {
        if value_get_list(p@, "focus"@) is None {
            assert(r.focus@.map_values(|s: String| s@) =~= Seq::<Seq<char>>::empty());
        }
    }
    Some(r)
}

/// The research prompts read from the prompt writer's YAML (see
/// `prompts_data_of`).
pub fn prompts_from_yaml(v: &YamlNode) -> (res: PromptsData)
    ensures
        res@ == prompts_data_of(v@),
{
    let objective = match yaml_get(v, "objective") {
        Some(o) => match yaml_as_str(o) {
            Some(s) => String::from_str(s),
            None => String::from_str("Unknown objective"),
        },
        None => String::from_str("Unknown objective"),
    };
    let mut prompts: Vec<ResearchPrompt> = Vec::new();
    let ghost items: Seq<YamlValue> = match value_get_list(v@, "prompts"@) {
        Some(l) => l,
        None => seq![],
    };
    match yaml_get(v, "prompts") {
        Some(l) => match yaml_as_list(l) {
            Some(list) => {
                proof {
                    crate::yaml_model::lemma_nodes_view(list@);
                }
                let mut i: usize = 0;
                while i < list.len()
                    invariant
                        i <= list.len(),
                        items == crate::yaml_model::nodes_view(list@),
                        items.len() == list@.len(),
                        forall|k: int| 0 <= k < list@.len() ==> #[trigger] items[k] == list@[k]@,
                        prompts@.map_values(|p: ResearchPrompt| p@) == prompts_of(
                            items.take(i as int),
                        ),
                    decreases list.len() - i,
                {
                    assert(items.take(i + 1).drop_last() =~= items.take(i as int));
                    assert(items.take(i + 1).last() == list@[i as int]@);
                    let ghost before = prompts@.map_values(|p: ResearchPrompt| p@);
                    match prompt_from_node(&list[i]) {
                        Some(p) => {
                            prompts.push(p);
                            assert(prompts@.map_values(|p: ResearchPrompt| p@) =~= before.push(
                                prompt_of(items[i as int])->0,
                            ));
                        },
                        None => {},
                    }
                    i = i + 1;
                }
                assert(items.take(items.len() as int) =~= items);
            },
            None => {},
        },
        None => {},
    }
    let res = PromptsData { objective, prompts };
    assert(res@.1 =~= prompts_data_of(v@).1);
    res
}

/// The message of a prompt writer's answer that is not valid YAML.
pub open spec fn prompts_parse_error(detail: Seq<char>) -> Seq<char> {
    "Failed to parse prompts YAML: "@ + detail
}

/// The research prompts of the prompt writer's answer: the YAML of its
/// first code block (see `extract_yaml_text`) read as in `prompts_data_of`;
/// an error when that text is not valid YAML, with the parser's message.
pub fn prompts_from_answer(answer: &str) -> (res: Result<PromptsData, String>)
    ensures
        match yaml_parse(extract_yaml_text(answer@)) {
            Some(v) => (res matches Ok(d) && d@ == prompts_data_of(v)),
            None => (res matches Err(m) && exists|detail: Seq<char>| m@ == prompts_parse_error(detail)),
        },
{
    let yaml = extract_yaml(answer);
    match parse_yaml_text(yaml.as_str()) {
        Ok(node) => Ok(prompts_from_yaml(&node)),
        Err(e) => {
            let mut m = String::from_str("Failed to parse prompts YAML: ");
            push_str(&mut m, e.as_str());
            assert(m@ == prompts_parse_error(e@));
            Err(m)
        },
    }
}

// ============================================================================
// Research results
// ============================================================================

/// What is appended to the instructions of a research agent.
pub const RESEARCH_APPEND: &'static str = r#"IMPORTANT: DO NOT create or write any files. Output all your research findings as yaml only."#;

/// The file a research result is saved to: numbered by the prompt and
/// stamped with the run's time stamp.
pub open spec fn research_result_path(n: usize, timestamp: Seq<char>) -> Seq<char> {
    "./RESULTS/research_result_"@ + decimal(n as nat) + "_"@ + timestamp + ".yaml"@
}

/// The file research result `n` of the run stamped `timestamp` is saved to.
pub fn research_result_file(result_number: usize, timestamp: &str) -> (res: String)
    ensures
        res@ == research_result_path(result_number, timestamp@),
{
    let mut p = String::from_str("./RESULTS/research_result_");
    push_decimal(&mut p, result_number as u64);
    push_str(&mut p, "_");
    push_str(&mut p, timestamp);
    push_str(&mut p, ".yaml");
    p
}

/// The name under which research agent `n` reports.
pub fn research_task_id(result_number: usize) -> (res: String)
    ensures
        res@ == "research_"@ + decimal(result_number as nat),
{
    let mut p = String::from_str("research_");
    push_decimal(&mut p, result_number as u64);
    p
}

fn copy_strings(v: &Vec<String>) -> (res: Vec<String>)
    ensures
        res@.map_values(|s: String| s@) == v@.map_values(|s: String| s@),
{
    let mut res: Vec<String> = Vec::new();
    let mut i: usize = 0;
    while i < v.len()
        invariant
            i <= v.len(),
            res@.map_values(|s: String| s@) == v@.take(i as int).map_values(|s: String| s@),
        decreases v.len() - i,
    {
        res.push(v[i].clone());
        assert(v@.take(i + 1).map_values(|s: String| s@) =~= v@.take(i as int).map_values(
            |s: String| s@,
        ).push(v@[i as int]@));
        i = i + 1;
    }
    assert(v@.take(v@.len() as int) =~= v@);
    res
}

/// The result of research prompt `n` of the run stamped `timestamp`: its
/// title, query and focus, and the file its findings are saved to.
pub fn research_result(prompt: &ResearchPrompt, result_number: usize, timestamp: &str) -> (res:
    ResearchResult)
    ensures
        res.title@ == prompt.title@,
        res.query@ == prompt.query@,
        res.response_file@ == research_result_path(result_number, timestamp@),
        res.focus@.map_values(|s: String| s@) == prompt.focus@.map_values(|s: String| s@),
{
    ResearchResult {
        title: prompt.title.clone(),
        query: prompt.query.clone(),
        response_file: research_result_file(result_number, timestamp),
        focus: copy_strings(&prompt.focus),
    }
}

// ============================================================================
// Repairing invalid YAML
// ============================================================================

/// The request that asks to repair the YAML file at `path`, given the
/// validator's message and the file's content.
pub open spec fn fix_prompt_text(path: Seq<char>, error: Seq<char>, content: Seq<char>) -> Seq<char> {
    FIX_PROMPT_HEAD@ + path + FIX_PROMPT_ERROR@ + error + FIX_PROMPT_CONTENT@ + content
        + FIX_PROMPT_TAIL@
}

/// The request that asks to repair a YAML file (see `fix_prompt_text`).
pub fn fix_yaml_prompt(file_path: &str, error_message: &str, content: &str) -> (res: String)
    ensures
        res@ == fix_prompt_text(file_path@, error_message@, content@),
{
    let mut p = String::from_str(FIX_PROMPT_HEAD);
    push_str(&mut p, file_path);
    push_str(&mut p, FIX_PROMPT_ERROR);
    push_str(&mut p, error_message);
    push_str(&mut p, FIX_PROMPT_CONTENT);
    push_str(&mut p, content);
    push_str(&mut p, FIX_PROMPT_TAIL);
    p
}

/// The first line of a validator's message, `Unknown error` when it has
/// none.
pub open spec fn first_error_line(message: Seq<char>) -> Seq<char> {
    if text_lines(message).len() > 0 {
        text_lines(message)[0]
    } else {
        "Unknown error"@
    }
}

/// The first line of a validator's message (see `first_error_line`).
pub fn error_headline(message: &str) -> (res: String)
    ensures
        res@ == first_error_line(message@),
{
    let cs = crate::text::str_to_chars(message);
    if cs.len() == 0 {
        proof {
            assert(crate::text::lines_from(cs@, 0) =~= Seq::<Seq<char>>::empty());
        }
        return String::from_str("Unknown error");
    }
    let (c, j) = crate::text::line_bounds(&cs, 0);
    proof {
        if j < cs.len() {
            assert(crate::text::lines_from(cs@, 0)[0] == cs@.subrange(0, c as int));
        } else {
            assert(crate::text::lines_from(cs@, 0)[0] == cs@.subrange(0, c as int));
        }
    }
    crate::text::chars_to_string(&cs, 0, c)
}

/// What to do after a validation of the codebase analysis.
pub enum AnalysisCheck {
    /// The analysis is valid: load it.
    Load,
    /// Repair the analysis, then validate it again.
    Repair,
    /// Stop: the analysis could not be repaired.
    GiveUp,
}

/// The most validations of the codebase analysis.
pub open spec fn max_analysis_checks() -> nat {
    3
}

/// The decision after validation `attempt` (counted from one) of the
/// codebase analysis: load it when valid, else repair it; no validation
/// after the third, so a repair that follows it ends in giving up.
pub open spec fn analysis_check_spec(attempt: nat, valid: bool) -> AnalysisCheck {
    if attempt > max_analysis_checks() {
        AnalysisCheck::GiveUp
    } else if valid {
        AnalysisCheck::Load
    } else {
        AnalysisCheck::Repair
    }
}

/// The decision after validation `attempt` of the codebase analysis (see
/// `analysis_check_spec`); an attempt past the third is not validated.
pub fn analysis_check(attempt: usize, valid: bool) -> (r: AnalysisCheck)
    ensures
        r == analysis_check_spec(attempt as nat, valid),
{
    if attempt > 3 {
        AnalysisCheck::GiveUp
    } else if valid {
        AnalysisCheck::Load
    } else {
        AnalysisCheck::Repair
    }
}

/// The message of an analysis that could not be repaired.
pub fn analysis_give_up_message() -> (res: String)
    ensures
        res@ == "Failed to fix YAML after "@ + decimal(max_analysis_checks())
            + " attempts. Manual intervention required."@,
{
    let mut m = String::from_str("Failed to fix YAML after ");
    push_decimal(&mut m, 3);
    push_str(&mut m, " attempts. Manual intervention required.");
    m
}

/// What is appended to the instructions of the agent that repairs a YAML file.
pub const FIX_YAML_APPEND: &'static str = r#"You are a YAML expert. Fix the YAML syntax errors and output ONLY valid YAML. Do not add explanations."#;

/// The repair request up to the path of the file.
pub const FIX_PROMPT_HEAD: &'static str = r#"The following YAML file has validation errors. Please fix it and output ONLY the corrected YAML.

File: "#;

/// The repair request between the path and the validation error.
pub const FIX_PROMPT_ERROR: &'static str = r#"

Validation Error:
"#;

/// The repair request between the validation error and the content.
pub const FIX_PROMPT_CONTENT: &'static str = r#"

Current Content:
```yaml
"#;

/// The repair request after the content.
pub const FIX_PROMPT_TAIL: &'static str = r#"
```

Output the fixed YAML wrapped in ```yaml code blocks."#;

// ============================================================================
// Files of a run
// ============================================================================

/// A file that a run of the research workflow writes.
#[derive(Clone, Copy, Debug, PartialEq, Eq, Structural)]
pub enum Artifact {
    /// The codebase analysis (phase 0).
    CodebaseAnalysis,
    /// The research prompts (phase 1).
    ResearchPrompts,
    /// The overview of the research results (phase 2).
    ResearchResults,
    /// The synthesised documentation, when no output path is given (phase 4).
    Documentation,
}

/// Where the run stamped `timestamp` writes an artifact.
pub open spec fn artifact_path(a: Artifact, timestamp: Seq<char>) -> Seq<char> {
    match a {
        Artifact::CodebaseAnalysis => "./OUTPUT/codebase_analysis_"@ + timestamp + ".yaml"@,
        Artifact::ResearchPrompts => "./OUTPUT/research_prompts_"@ + timestamp + ".yaml"@,
        Artifact::ResearchResults => "./RESULTS/research_results_"@ + timestamp + ".yaml"@,
        Artifact::Documentation => "./OUTPUT/research_output_"@ + timestamp + ".md"@,
    }
}

/// Where the run stamped `timestamp` writes an artifact (see
/// `artifact_path`).
pub fn artifact_file(a: Artifact, timestamp: &str) -> (res: String)
    ensures
        res@ == artifact_path(a, timestamp@),
{
    let (head, tail) = match a {
        Artifact::CodebaseAnalysis => ("./OUTPUT/codebase_analysis_", ".yaml"),
        Artifact::ResearchPrompts => ("./OUTPUT/research_prompts_", ".yaml"),
        Artifact::ResearchResults => ("./RESULTS/research_results_", ".yaml"),
        Artifact::Documentation => ("./OUTPUT/research_output_", ".md"),
    };
    let mut p = String::from_str(head);
    push_str(&mut p, timestamp);
    push_str(&mut p, tail);
    p
}

/// Where the documentation is written: the output path given, else the
/// run's default documentation file.
pub fn documentation_file(output: &Option<String>, timestamp: &str) -> (res: String)
    ensures
        res@ == match output {
            Some(o) => o@,
            None => artifact_path(Artifact::Documentation, timestamp@),
        },
{
    match output {
        Some(o) => o.clone(),
        None => artifact_file(Artifact::Documentation, timestamp),
    }
}

/// The extension of a file name as `Path::extension` gives it: the text
/// after its last dot, when that dot is not its first character; none for
/// `..`.
pub open spec fn file_extension(name: Seq<char>) -> Option<Seq<char>> {
    if name == ".."@ {
        None
    } else {
        match rfind(name, "."@) {
            Some(i) => if i > 0 {
                Some(name.skip((i + 1) as int))
            } else {
                None
            },
            None => None,
        }
    }
}

/// A file name with the extension `yaml` or `yml`.
pub open spec fn is_yaml_name(name: Seq<char>) -> bool {
    file_extension(name) == Some("yaml"@) || file_extension(name) == Some("yml"@)
}

/// The paths of the YAML files among (path, file name) entries, in order.
pub open spec fn yaml_paths_of(entries: Seq<(String, String)>) -> Seq<Seq<char>>
    decreases entries.len(),
{
    if entries.len() == 0 {
        seq![]
    } else {
        let prev = yaml_paths_of(entries.drop_last());
        if is_yaml_name(entries.last().1@) {
            prev.push(entries.last().0@)
        } else {
            prev
        }
    }
}

/// Whether a file name has the extension `yaml` or `yml`.
pub fn yaml_file_name(name: &str) -> (r: bool)
    ensures
        r == is_yaml_name(name@),
{
    proof {
        reveal_strlit("..");
        reveal_strlit(".");
        reveal_strlit("yaml");
        reveal_strlit("yml");
    }
    if text_eq(name, "..") {
        return false;
    }
    let cs = str_to_chars(name);
    let dot = str_to_chars(".");
    assert(cs@.skip(0) =~= cs@);
    proof {
        crate::text::lemma_rfind_upto_bounds(cs@, dot@, cs@.len() - dot@.len());
    }
    match rfind_index_from(&cs, &dot, 0) {
        Some(i) => {
            if i == 0 {
                return false;
            }
            assert(crate::text::matches_at(cs@, dot@, i as int));
            let n = cs.len();
            assert(i + 1 <= n);
            let ext = chars_to_string(&cs, i + 1, cs.len());
            assert(ext@ =~= name@.skip(i + 1));
            text_eq(ext.as_str(), "yaml") || text_eq(ext.as_str(), "yml")
        },
        None => false,
    }
}

/// The YAML files of a directory listing given as (path, file name)
/// entries: the paths of those whose name has the extension `yaml` or
/// `yml`, sorted in the order of `str`.
pub fn yaml_file_paths(entries: Vec<(String, String)>) -> (res: Vec<String>)
    ensures
        texts_sorted(string_seq_views(res@)),
        string_seq_views(res@).to_multiset() == yaml_paths_of(entries@).to_multiset(),
{
    let mut kept: Vec<String> = Vec::new();
    let mut i: usize = 0;
    while i < entries.len()
        invariant
            i <= entries.len(),
            string_seq_views(kept@) == yaml_paths_of(entries@.take(i as int)),
        decreases entries.len() - i,
    {
        assert(entries@.take(i + 1).drop_last() =~= entries@.take(i as int));
        if yaml_file_name(entries[i].1.as_str()) {
            let ghost before = string_seq_views(kept@);
            kept.push(entries[i].0.clone());
            assert(string_seq_views(kept@) =~= before.push(entries@[i as int].0@));
        }
        i = i + 1;
    }
    assert(entries@.take(entries@.len() as int) =~= entries@);
    sort_texts(kept)
}

// ============================================================================
// The documentation
// ============================================================================

/// What is appended to the instructions of the documentation agent.
pub const SYNTHESIS_APPEND: &'static str = r#"You are a technical writer creating comprehensive documentation from research findings. You can intelligently decide when to condense large files versus read smaller files directly."#;

/// The instructions of the agent that condenses a large research result.
pub const CONDENSER_PROMPT: &'static str = r#"You are a technical documentation condenser. Read the provided research result YAML file and create a condensed summary that:

1. Preserves all key technical details and insights
2. Includes important code examples (condensed if very long)
3. Maintains actionable recommendations
4. Reduces verbosity and redundancy
5. Target output: 5,000-10,000 characters

Return ONLY the condensed markdown content. Do not write to any files."#;

/// The synthesis request up to the path of the results overview.
pub const SYNTHESIS_PROMPT_HEAD: &'static str = r#"Read the research results overview file at "#;

/// The synthesis request between the overview and the output path.
pub const SYNTHESIS_PROMPT_MIDDLE: &'static str = r#" and create comprehensive documentation.

The overview file contains a list of research findings with:
- title: The topic researched
- query: The research question
- response_file: Path to the YAML file containing the detailed findings
- focus: Key areas covered

# Your Task:

1. **Analyze the overview**: Read the overview file to understand all research findings

2. **Assess file sizes**: For each research finding, read the response_file and count the characters/lines

3. **Decide processing strategy**:
   - For files with **< 30,000 characters**: Read and process them directly
   - For files with **≥ 30,000 characters**: Use the Task tool to invoke the 'file-condenser' agent
     - Pass a message like "Condense this file: path/to/file.yaml"
     - The file-condenser will read the file and return a condensed summary (~5-10k chars)
     - Use the condensed version in your documentation

4. **Synthesize documentation**:
   - Combine all content (direct reads + condensed summaries) into cohesive, well-structured markdown
   - Include code examples, technical details, and actionable insights
   - Organize logically with proper headings and sections
   - Maintain technical accuracy while ensuring readability

5. **Write output**: Write the final documentation to "#;

/// The synthesis request after the output path.
pub const SYNTHESIS_PROMPT_TAIL: &'static str = r#"

# Available Subagent:
- **file-condenser**: Condenses large research result files while preserving key technical details

# Strategy Tips:
- You can process multiple files with the file-condenser in parallel if needed
- Small files can be read directly for maximum detail
- Large files should be condensed to manage context efficiently
- Your goal is comprehensive yet manageable documentation"#;

/// The request that asks for the documentation synthesised from the results
/// overview at `results_file`, written to `output_path`.
pub open spec fn synthesis_prompt_text(results_file: Seq<char>, output_path: Seq<char>) -> Seq<char> {
    SYNTHESIS_PROMPT_HEAD@ + results_file + SYNTHESIS_PROMPT_MIDDLE@ + output_path
        + SYNTHESIS_PROMPT_TAIL@
}

/// The request that asks for the documentation (see
/// `synthesis_prompt_text`).
pub fn synthesis_prompt(results_file: &str, output_path: &str) -> (res: String)
    ensures
        res@ == synthesis_prompt_text(results_file@, output_path@),
{
    let mut p = String::from_str(SYNTHESIS_PROMPT_HEAD);
    push_str(&mut p, results_file);
    push_str(&mut p, SYNTHESIS_PROMPT_MIDDLE);
    push_str(&mut p, output_path);
    push_str(&mut p, SYNTHESIS_PROMPT_TAIL);
    p
}

} // verus!
