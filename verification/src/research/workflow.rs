//! Configuration of the research workflow and the decisions between phases.
use vstd::prelude::*;

use crate::research::cli::{research_phase_list, Args};
use crate::text::{contains, decimal, push_decimal, push_str, text_contains};

verus! {

/// Configuration for the research workflow.
///
/// Most fields are optional to support resuming from intermediate phases.
pub struct WorkflowConfig {
    /// Research objective/question (required for Phase 1)
    pub objective: Option<String>,
    /// Which phases to execute (0-4)
    pub phases: Vec<u32>,
    /// Number of concurrent agents for Phase 2 and Phase 3
    pub batch_size: usize,
    /// Directory to analyze (for Phase 0)
    pub dir: Option<String>,
    /// Path to saved codebase analysis (for resuming from Phase 1)
    pub analysis_file: Option<String>,
    /// Path to saved prompts (for resuming from Phase 2)
    pub prompts_file: Option<String>,
    /// Path to saved results (for resuming from Phase 3 or 4)
    pub results_file: Option<String>,
    /// Directory containing YAML files to validate (for Phase 3)
    pub results_dir: Option<String>,
    /// Output path for final documentation (Phase 4)
    pub output: Option<String>,
    /// System prompt for prompt generation (required for Phase 1)
    pub system_prompt: Option<String>,
    /// Output style template (required for Phase 1)
    pub append: Option<String>,
}

impl Default for WorkflowConfig {
    /// All five phases, sequential batches, nothing else set.
    fn default() -> (res: Self)
        ensures
            res.phases@ == seq![0u32, 1, 2, 3, 4],
            res.batch_size == 1,
            res.objective is None,
            res.dir is None,
            res.analysis_file is None,
            res.prompts_file is None,
            res.results_file is None,
            res.results_dir is None,
            res.output is None,
            res.system_prompt is None,
            res.append is None,
    {
        let phases = vec![0u32, 1, 2, 3, 4];
        assert(phases@ =~= seq![0u32, 1, 2, 3, 4]);
        WorkflowConfig {
            objective: None,
            phases,
            batch_size: 1,
            dir: None,
            analysis_file: None,
            prompts_file: None,
            results_file: None,
            results_dir: None,
            output: None,
            system_prompt: None,
            append: None,
        }
    }
}

impl Clone for WorkflowConfig {
    fn clone(&self) -> (res: Self)
        ensures
            res.phases@ == self.phases@,
            res.batch_size == self.batch_size,
            res.objective == self.objective,
            res.dir == self.dir,
            res.analysis_file == self.analysis_file,
            res.prompts_file == self.prompts_file,
            res.results_file == self.results_file,
            res.results_dir == self.results_dir,
            res.output == self.output,
            res.system_prompt == self.system_prompt,
            res.append == self.append,
    {
        WorkflowConfig {
            objective: self.objective.clone(),
            phases: self.phases.clone(),
            batch_size: self.batch_size,
            dir: self.dir.clone(),
            analysis_file: self.analysis_file.clone(),
            prompts_file: self.prompts_file.clone(),
            results_file: self.results_file.clone(),
            results_dir: self.results_dir.clone(),
            output: self.output.clone(),
            system_prompt: self.system_prompt.clone(),
            append: self.append.clone(),
        }
    }
}

/// The phase list of a configuration built from `args`.
pub open spec fn config_phases(args: Args) -> Seq<u32> {
    research_phase_list(args.phases@).map_values(|p: nat| p as u32)
}

impl From<Args> for WorkflowConfig {
    /// The configuration named by command-line arguments; the phase list is
    /// parsed from the comma separated `phases` argument.
    fn from(args: Args) -> (res: Self)
        ensures
            res.phases@ == config_phases(args),
            res.objective == args.input,
            res.batch_size == args.batch_size,
            res.dir == args.dir,
            res.analysis_file == args.analysis_file,
            res.prompts_file == args.prompts_file,
            res.results_file == args.results_file,
            res.results_dir == args.results_dir,
            res.output == args.output,
            res.system_prompt == args.system_prompt,
            res.append == args.append,
    {
        let phases = args.parse_phases();
        assert(phases@ =~= config_phases(args));
        WorkflowConfig {
            objective: args.input,
            phases,
            batch_size: args.batch_size,
            dir: args.dir,
            analysis_file: args.analysis_file,
            prompts_file: args.prompts_file,
            results_file: args.results_file,
            results_dir: args.results_dir,
            output: args.output,
            system_prompt: args.system_prompt,
            append: args.append,
        }
    }
}

/// `from` is described by the field-by-field `ensures` of the impl above;
/// its phase vector is only determined by its view, so `from_spec` is not
/// claimed to be equal to the result.
impl vstd::std_specs::convert::FromSpecImpl<Args> for WorkflowConfig {
    open spec fn obeys_from_spec() -> bool {
        false
    }

    open spec fn from_spec(args: Args) -> Self {
        WorkflowConfig {
            objective: args.input,
            phases: choose|v: Vec<u32>| v@ == config_phases(args),
            batch_size: args.batch_size,
            dir: args.dir,
            analysis_file: args.analysis_file,
            prompts_file: args.prompts_file,
            results_file: args.results_file,
            results_dir: args.results_dir,
            output: args.output,
            system_prompt: args.system_prompt,
            append: args.append,
        }
    }
}


// ============================================================================
// Planning a run
// ============================================================================

/// An argument that phase 1 needs and that the configuration lacks.
#[derive(Clone, Copy, Debug, PartialEq, Eq, Structural)]
pub enum ConfigError {
    /// No research objective (`--input`).
    NoObjective,
    /// No prompt writer (`--system-prompt`).
    NoSystemPrompt,
    /// No output style (`--append`).
    NoAppend,
}

/// An input of a selected phase that neither an earlier phase nor a saved
/// file provides.
#[derive(Clone, Copy, Debug, PartialEq, Eq, Structural)]
pub enum MissingInput {
    /// Phase 1 has no codebase analysis.
    Analysis,
    /// Phase 2 has no research prompts.
    Prompts,
    /// Phase 4 has no research results file.
    ResultsFile,
}

/// One step of a research run, in the order the run takes them.
#[derive(Clone, Copy, Debug, PartialEq, Eq, Structural)]
pub enum ResearchStep {
    /// Phase 0: analyze the codebase.
    AnalyzeCodebase,
    /// Read the saved analysis named by `analysis_file`.
    LoadAnalysis,
    /// Phase 1: generate the research prompts.
    GeneratePrompts,
    /// Read the saved prompts named by `prompts_file`.
    LoadPrompts,
    /// Phase 2: execute the research prompts.
    ExecuteResearch,
    /// Read the saved results named by `results_file`.
    LoadResults,
    /// Phase 3: validate and fix the YAML results.
    ValidateYaml,
    /// Phase 4: synthesize the documentation.
    Synthesize,
    /// The run stops with an error: an input is missing.
    Stop(MissingInput),
}

/// Text of an error on the arguments of phase 1.
pub open spec fn config_error_text(e: ConfigError) -> Seq<char> {
    match e {
        ConfigError::NoObjective => "--input is required when running phase 1"@,
        ConfigError::NoSystemPrompt => "--system-prompt is required when running phase 1"@,
        ConfigError::NoAppend => "--append is required when running phase 1"@,
    }
}

/// Text of the error of a run that misses an input.
pub open spec fn missing_input_text(m: MissingInput) -> Seq<char> {
    match m {
        MissingInput::Analysis => "Phase 0 must run before Phase 1, or provide --analysis-file"@,
        MissingInput::Prompts => "Phase 1 must run before Phase 2, or provide --prompts-file"@,
        MissingInput::ResultsFile =>
            "No research results file available. Run Phase 2 first or provide --results-file"@,
    }
}

impl ConfigError {
    /// The error message.
    pub fn message(&self) -> (res: String)
        ensures
            res@ == config_error_text(*self),
    {
        match self {
            ConfigError::NoObjective => {
                let s = String::from_str("--input is required when running phase 1");
                proof { reveal_strlit("--input is required when running phase 1"); }
                s
            },
            ConfigError::NoSystemPrompt => {
                let s = String::from_str("--system-prompt is required when running phase 1");
                proof { reveal_strlit("--system-prompt is required when running phase 1"); }
                s
            },
            ConfigError::NoAppend => {
                let s = String::from_str("--append is required when running phase 1");
                proof { reveal_strlit("--append is required when running phase 1"); }
                s
            },
        }
    }
}

impl MissingInput {
    /// The error message.
    pub fn message(&self) -> (res: String)
        ensures
            res@ == missing_input_text(*self),
    {
        match self {
            MissingInput::Analysis => String::from_str(
                "Phase 0 must run before Phase 1, or provide --analysis-file",
            ),
            MissingInput::Prompts => String::from_str(
                "Phase 1 must run before Phase 2, or provide --prompts-file",
            ),
            MissingInput::ResultsFile => String::from_str(
                "No research results file available. Run Phase 2 first or provide --results-file",
            ),
        }
    }
}

/// Phase `p` is selected.
pub open spec fn runs(c: WorkflowConfig, p: u32) -> bool {
    c.phases@.contains(p)
}

/// The first argument of phase 1 that is missing, when phase 1 is selected.
pub open spec fn config_error(c: WorkflowConfig) -> Option<ConfigError> {
    if !runs(c, 1) {
        None
    } else if c.objective is None {
        Some(ConfigError::NoObjective)
    } else if c.system_prompt is None {
        Some(ConfigError::NoSystemPrompt)
    } else if c.append is None {
        Some(ConfigError::NoAppend)
    } else {
        None
    }
}

/// A codebase analysis is at hand once phase 0 has run or its file is read.
pub open spec fn has_analysis(c: WorkflowConfig) -> bool {
    runs(c, 0) || c.analysis_file is Some
}

/// Research prompts are at hand after phase 1 or once their file is read.
pub open spec fn has_prompts(c: WorkflowConfig) -> bool {
    runs(c, 1) || c.prompts_file is Some
}

/// A results file exists after phase 2 or when one is given.
pub open spec fn has_results_file(c: WorkflowConfig) -> bool {
    runs(c, 2) || c.results_file is Some
}

/// The step of a stage: run its phase, else read its saved file, else nothing.
pub open spec fn stage_steps(run: bool, file: bool, ran: ResearchStep, load: ResearchStep) -> Seq<
    ResearchStep,
> {
    if run {
        seq![ran]
    } else if file {
        seq![load]
    } else {
        seq![]
    }
}

/// The steps of a run with configuration `c`, up to the first missing input.
pub open spec fn research_plan(c: WorkflowConfig) -> Seq<ResearchStep> {
    let s0 = stage_steps(
        runs(c, 0),
        c.analysis_file is Some,
        ResearchStep::AnalyzeCodebase,
        ResearchStep::LoadAnalysis,
    );
    if runs(c, 1) && !has_analysis(c) {
        s0.push(ResearchStep::Stop(MissingInput::Analysis))
    } else {
        let s1 = s0 + stage_steps(
            runs(c, 1),
            c.prompts_file is Some,
            ResearchStep::GeneratePrompts,
            ResearchStep::LoadPrompts,
        );
        if runs(c, 2) && !has_prompts(c) {
            s1.push(ResearchStep::Stop(MissingInput::Prompts))
        } else {
            let s2 = s1 + stage_steps(
                runs(c, 2),
                c.results_file is Some,
                ResearchStep::ExecuteResearch,
                ResearchStep::LoadResults,
            ) + (if runs(c, 3) {
                seq![ResearchStep::ValidateYaml]
            } else {
                seq![]
            });
            if runs(c, 4) && !has_results_file(c) {
                s2.push(ResearchStep::Stop(MissingInput::ResultsFile))
            } else if runs(c, 4) {
                s2.push(ResearchStep::Synthesize)
            } else {
                s2
            }
        }
    }
}

/// A step that a run with configuration `c` may take: a phase only when it
/// is selected, a saved file only when it is given and its phase is not
/// selected.
pub open spec fn step_allowed(c: WorkflowConfig, s: ResearchStep) -> bool {
    match s {
        ResearchStep::AnalyzeCodebase => runs(c, 0),
        ResearchStep::LoadAnalysis => !runs(c, 0) && c.analysis_file is Some,
        ResearchStep::GeneratePrompts => runs(c, 1),
        ResearchStep::LoadPrompts => !runs(c, 1) && c.prompts_file is Some,
        ResearchStep::ExecuteResearch => runs(c, 2),
        ResearchStep::LoadResults => !runs(c, 2) && c.results_file is Some,
        ResearchStep::ValidateYaml => runs(c, 3),
        ResearchStep::Synthesize => runs(c, 4),
        ResearchStep::Stop(_) => true,
    }
}

/// The stage of a step: 0 to 4 for the phases and their saved files.
pub open spec fn step_stage(s: ResearchStep) -> int {
    match s {
        ResearchStep::AnalyzeCodebase | ResearchStep::LoadAnalysis => 0,
        ResearchStep::GeneratePrompts | ResearchStep::LoadPrompts => 1,
        ResearchStep::ExecuteResearch | ResearchStep::LoadResults => 2,
        ResearchStep::ValidateYaml => 3,
        ResearchStep::Synthesize => 4,
        ResearchStep::Stop(_) => 5,
    }
}

/// Every step is allowed, and the stages strictly increase.
pub open spec fn steps_follow_config(c: WorkflowConfig, p: Seq<ResearchStep>) -> bool {
    &&& forall|i: int| 0 <= i < p.len() ==> step_allowed(c, #[trigger] p[i])
    &&& forall|i: int, j: int|
        0 <= i < j < p.len() ==> step_stage(#[trigger] p[i]) < step_stage(#[trigger] p[j])
}

proof fn lemma_push_step(c: WorkflowConfig, p: Seq<ResearchStep>, s: ResearchStep, bound: int)
    requires
        steps_follow_config(c, p),
        forall|i: int| 0 <= i < p.len() ==> step_stage(#[trigger] p[i]) < bound,
        bound <= step_stage(s),
        step_allowed(c, s),
    ensures
        steps_follow_config(c, p.push(s)),
        forall|i: int| 0 <= i < p.push(s).len() ==> step_stage(#[trigger] p.push(s)[i]) <= step_stage(
            s,
        ),
{
    let q = p.push(s);
    assert forall|i: int| 0 <= i < q.len() implies step_allowed(c, #[trigger] q[i]) by {
        if i < p.len() {
            assert(q[i] == p[i]);
        }
    }
    assert forall|i: int, j: int| 0 <= i < j < q.len() implies step_stage(#[trigger] q[i])
        < step_stage(#[trigger] q[j]) by {
        assert(q[i] == p[i]);
        if j < p.len() {
            assert(q[j] == p[j]);
        }
    }
    assert forall|i: int| 0 <= i < q.len() implies step_stage(#[trigger] q[i]) <= step_stage(s) by {
        if i < p.len() {
            assert(q[i] == p[i]);
        }
    }
}

proof fn lemma_add_stage(
    c: WorkflowConfig,
    p: Seq<ResearchStep>,
    run: bool,
    file: bool,
    ran: ResearchStep,
    load: ResearchStep,
    k: int,
)
    requires
        steps_follow_config(c, p),
        forall|i: int| 0 <= i < p.len() ==> step_stage(#[trigger] p[i]) < k,
        step_stage(ran) == k,
        step_stage(load) == k,
        run ==> step_allowed(c, ran),
        !run && file ==> step_allowed(c, load),
    ensures
        steps_follow_config(c, p + stage_steps(run, file, ran, load)),
        forall|i: int|
            0 <= i < (p + stage_steps(run, file, ran, load)).len() ==> step_stage(
                #[trigger] (p + stage_steps(run, file, ran, load))[i],
            ) < k + 1,
{
    if run {
        assert(p + stage_steps(run, file, ran, load) =~= p.push(ran));
        lemma_push_step(c, p, ran, k);
    } else if file {
        assert(p + stage_steps(run, file, ran, load) =~= p.push(load));
        lemma_push_step(c, p, load, k);
    } else {
        assert(p + stage_steps(run, file, ran, load) =~= p);
    }
}

/// A run follows its configuration: it runs only selected phases, reads a
/// saved file only in place of its phase, and takes the stages in order,
/// each at most once; a stop is its last step.
pub proof fn law_research_plan_follows_config(c: WorkflowConfig)
    ensures
        steps_follow_config(c, research_plan(c)),
{
    let empty = Seq::<ResearchStep>::empty();
    lemma_add_stage(
        c,
        empty,
        runs(c, 0),
        c.analysis_file is Some,
        ResearchStep::AnalyzeCodebase,
        ResearchStep::LoadAnalysis,
        0,
    );
    let s0 = empty + stage_steps(
        runs(c, 0),
        c.analysis_file is Some,
        ResearchStep::AnalyzeCodebase,
        ResearchStep::LoadAnalysis,
    );
    assert(s0 =~= stage_steps(
        runs(c, 0),
        c.analysis_file is Some,
        ResearchStep::AnalyzeCodebase,
        ResearchStep::LoadAnalysis,
    ));
    if runs(c, 1) && !has_analysis(c) {
        lemma_push_step(c, s0, ResearchStep::Stop(MissingInput::Analysis), 1);
    } else {
        lemma_add_stage(
            c,
            s0,
            runs(c, 1),
            c.prompts_file is Some,
            ResearchStep::GeneratePrompts,
            ResearchStep::LoadPrompts,
            1,
        );
        let s1 = s0 + stage_steps(
            runs(c, 1),
            c.prompts_file is Some,
            ResearchStep::GeneratePrompts,
            ResearchStep::LoadPrompts,
        );
        if runs(c, 2) && !has_prompts(c) {
            lemma_push_step(c, s1, ResearchStep::Stop(MissingInput::Prompts), 2);
        } else {
            lemma_add_stage(
                c,
                s1,
                runs(c, 2),
                c.results_file is Some,
                ResearchStep::ExecuteResearch,
                ResearchStep::LoadResults,
                2,
            );
            let s2a = s1 + stage_steps(
                runs(c, 2),
                c.results_file is Some,
                ResearchStep::ExecuteResearch,
                ResearchStep::LoadResults,
            );
            lemma_add_stage(
                c,
                s2a,
                runs(c, 3),
                false,
                ResearchStep::ValidateYaml,
                ResearchStep::ValidateYaml,
                3,
            );
            let s2 = s2a + stage_steps(
                runs(c, 3),
                false,
                ResearchStep::ValidateYaml,
                ResearchStep::ValidateYaml,
            );
            assert(s2 =~= s2a + (if runs(c, 3) {
                seq![ResearchStep::ValidateYaml]
            } else {
                seq![]
            }));
            if runs(c, 4) && !has_results_file(c) {
                lemma_push_step(c, s2, ResearchStep::Stop(MissingInput::ResultsFile), 4);
            } else if runs(c, 4) {
                lemma_push_step(c, s2, ResearchStep::Synthesize, 4);
            }
        }
    }
}

/// `phases` holds `p`.
pub fn phase_selected(phases: &Vec<u32>, p: u32) -> (r: bool)
    ensures
        r == phases@.contains(p),
{
    let mut i: usize = 0;
    while i < phases.len()
        invariant
            i <= phases.len(),
            forall|k: int| 0 <= k < i ==> phases@[k] != p,
        decreases phases.len() - i,
    {
        if phases[i] == p {
            assert(phases@[i as int] == p);
            return true;
        }
        i = i + 1;
    }
    false
}

fn push_stage(steps: &mut Vec<ResearchStep>, run: bool, file: bool, ran: ResearchStep, load: ResearchStep)
    ensures
        final(steps)@ == old(steps)@ + stage_steps(run, file, ran, load),
{
    if run {
        steps.push(ran);
    } else if file {
        steps.push(load);
    }
    assert(final(steps)@ =~= old(steps)@ + stage_steps(run, file, ran, load));
}

/// Decide the steps of a research run: the arguments of phase 1 are checked
/// first; then each stage runs its phase when selected, or reads its saved
/// file, and the run stops at the first selected phase whose input neither
/// an earlier step nor a file provides.
pub fn plan_research(config: &WorkflowConfig) -> (res: Result<Vec<ResearchStep>, ConfigError>)
    ensures
        match res {
            Ok(steps) => config_error(*config) is None && steps@ == research_plan(*config),
            Err(e) => config_error(*config) == Some(e),
        },
{
    let run0 = phase_selected(&config.phases, 0);
    let run1 = phase_selected(&config.phases, 1);
    let run2 = phase_selected(&config.phases, 2);
    let run3 = phase_selected(&config.phases, 3);
    let run4 = phase_selected(&config.phases, 4);
    if run1 {
        if config.objective.is_none() {
            return Err(ConfigError::NoObjective);
        }
        if config.system_prompt.is_none() {
            return Err(ConfigError::NoSystemPrompt);
        }
        if config.append.is_none() {
            return Err(ConfigError::NoAppend);
        }
    }
    let mut steps: Vec<ResearchStep> = Vec::new();
    let has_analysis_file = config.analysis_file.is_some();
    push_stage(
        &mut steps,
        run0,
        has_analysis_file,
        ResearchStep::AnalyzeCodebase,
        ResearchStep::LoadAnalysis,
    );
    if run1 && !run0 && !has_analysis_file {
        steps.push(ResearchStep::Stop(MissingInput::Analysis));
        return Ok(steps);
    }
    let has_prompts_file = config.prompts_file.is_some();
    push_stage(
        &mut steps,
        run1,
        has_prompts_file,
        ResearchStep::GeneratePrompts,
        ResearchStep::LoadPrompts,
    );
    if run2 && !run1 && !has_prompts_file {
        steps.push(ResearchStep::Stop(MissingInput::Prompts));
        return Ok(steps);
    }
    let has_results = config.results_file.is_some();
    push_stage(
        &mut steps,
        run2,
        has_results,
        ResearchStep::ExecuteResearch,
        ResearchStep::LoadResults,
    );
    if run3 {
        steps.push(ResearchStep::ValidateYaml);
    }
    if run4 {
        if !run2 && !has_results {
            steps.push(ResearchStep::Stop(MissingInput::ResultsFile));
        } else {
            steps.push(ResearchStep::Synthesize);
        }
    }
    Ok(steps)
}

// ============================================================================
// Phase 3: which files are checked, and what a check says
// ============================================================================

/// The error when phase 3 has no file to validate.
pub open spec fn no_yaml_files_text() -> Seq<char> {
    "No YAML files to validate. Run Phase 2 first, provide --results-file, or specify --results-dir"@
}

/// The files phase 3 validates: those found in the results directory when
/// one is given, else the response files of the research results.
pub fn files_to_validate(scanned: Option<Vec<String>>, response_files: Vec<String>) -> (res: Result<
    Vec<String>,
    String,
>)
    ensures
        match scanned {
            Some(found) => res matches Ok(v) && v@ == found@,
            None => if response_files@.len() > 0 {
                res matches Ok(v) && v@ == response_files@
            } else {
                res matches Err(e) && e@ == no_yaml_files_text()
            },
        },
{
    match scanned {
        Some(found) => Ok(found),
        None => {
            if response_files.len() > 0 {
                Ok(response_files)
            } else {
                Err(String::from_str(
                    "No YAML files to validate. Run Phase 2 first, provide --results-file, or specify --results-dir",
                ))
            }
        },
    }
}

/// The verdict on a YAML file from its checker's run: it passed when the
/// checker succeeded and its combined output reports no failure mark and no
/// `Error`.
pub open spec fn yaml_check_verdict(success: bool, output: Seq<char>) -> bool {
    success && !contains(output, "❌"@) && !contains(output, "Error"@)
}

/// Whether a YAML file passed its checker (exit status and combined output).
pub fn yaml_check_passed(success: bool, output: &str) -> (r: bool)
    ensures
        r == yaml_check_verdict(success, output@),
{
    success && !text_contains(output, "❌") && !text_contains(output, "Error")
}

/// The (file, error) pairs of the checks that failed, in order.
pub open spec fn failed_checks(reports: Seq<(Seq<char>, bool, Seq<char>)>) -> Seq<
    (Seq<char>, Seq<char>),
>
    decreases reports.len(),
{
    if reports.len() == 0 {
        seq![]
    } else {
        let last = reports.last();
        let prev = failed_checks(reports.drop_last());
        if last.1 {
            prev
        } else {
            prev.push((last.0, last.2))
        }
    }
}

/// The view of check reports: (file, valid, checker output).
pub open spec fn report_views(reports: Seq<(String, bool, String)>) -> Seq<
    (Seq<char>, bool, Seq<char>),
> {
    reports.map_values(|r: (String, bool, String)| (r.0@, r.1, r.2@))
}

/// The view of (file, error) pairs.
pub open spec fn pair_views(p: Seq<(String, String)>) -> Seq<(Seq<char>, Seq<char>)> {
    p.map_values(|q: (String, String)| (q.0@, q.1@))
}

/// The files whose check failed, with the checker's output, in order.
pub fn invalid_files(reports: &Vec<(String, bool, String)>) -> (res: Vec<(String, String)>)
    ensures
        pair_views(res@) == failed_checks(report_views(reports@)),
{
    let mut res: Vec<(String, String)> = Vec::new();
    let mut i: usize = 0;
    while i < reports.len()
        invariant
            i <= reports.len(),
            pair_views(res@) == failed_checks(report_views(reports@.take(i as int))),
        decreases reports.len() - i,
    {
        let ghost before = res@;
        assert(report_views(reports@.take(i + 1)).drop_last() =~= report_views(
            reports@.take(i as int),
        ));
        if !reports[i].1 {
            let file = reports[i].0.clone();
            let err = reports[i].2.clone();
            res.push((file, err));
            assert(pair_views(res@) =~= pair_views(before).push(
                (reports@[i as int].0@, reports@[i as int].2@),
            ));
        }
        i = i + 1;
    }
    assert(reports@.take(reports@.len() as int) =~= reports@);
    res
}

// ============================================================================
// Phase 3: fixing until every file passes
// ============================================================================

/// What phase 3 does next with the files that still fail their check.
pub enum FixStep {
    /// No file fails: the phase is done.
    AllValid,
    /// Fix round `iteration` (counted from 1): the failing file at position
    /// `i` of `files`, with its checker output, goes to fixer `i + 1`; once
    /// all are fixed, exactly these files are checked again, and those that
    /// still fail make the next round.
    FixRound { iteration: usize, files: Vec<(String, String)> },
}

/// The next step of phase 3 after `done` fix rounds, with the (file,
/// checker output) pairs that still fail: done when there are none,
/// otherwise the next round on all of them, in order. The phase loops on
/// this until no file fails.
pub fn next_fix_step(done: usize, failing: Vec<(String, String)>) -> (r: FixStep)
    requires
        done < usize::MAX,
    ensures
        failing@.len() == 0 <==> r is AllValid,
        failing@.len() > 0 ==> (r matches FixStep::FixRound { iteration, files } && iteration
            == done + 1 && files@ == failing@),
{
    if failing.len() == 0 {
        FixStep::AllValid
    } else {
        FixStep::FixRound { iteration: done + 1, files: failing }
    }
}

/// The label of fixer `n` in its printed lines.
pub fn fixer_prefix(n: u64) -> (res: String)
    ensures
        res@ == "[YAML Fixer "@ + decimal(n as nat) + "]: "@,
{
    let mut res = String::new();
    push_str(&mut res, "[YAML Fixer ");
    push_decimal(&mut res, n);
    push_str(&mut res, "]: ");
    res
}

/// The task id of fixer `n`.
pub fn fixer_task_id(n: u64) -> (res: String)
    ensures
        res@ == "fix_yaml_"@ + decimal(n as nat),
{
    let mut res = String::new();
    push_str(&mut res, "fix_yaml_");
    push_decimal(&mut res, n);
    res
}

/// The task id of fix round `k`.
pub fn fix_round_task_id(k: u64) -> (res: String)
    ensures
        res@ == "fix_iteration_"@ + decimal(k as nat),
{
    let mut res = String::new();
    push_str(&mut res, "fix_iteration_");
    push_decimal(&mut res, k);
    res
}

} // verus!
