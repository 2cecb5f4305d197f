//! What the task planner asks its agents: the instructions and the
//! prompt that produce the task overview, those that expand one task into
//! its detailed specification, and how their answers are read back.
use vstd::prelude::*;

use crate::task_planner::types::TokenUsage;
use crate::task_planner::utils::{get_task_id, get_task_name, task_value_id, task_value_name};
use crate::task_planner::workflow::{joined, string_views};
use crate::text::{decimal, push_decimal, push_str};
use crate::workflow_utils::yaml::{fenced_yaml, fenced_yaml_text};
use crate::yaml_model::{YamlNode, YamlValue};

verus! {

// ============================================================================
// The task overview
// ============================================================================

/// The instructions of the agent that writes the task overview.
pub const OVERVIEW_SYSTEM_PROMPT: &'static str = r#"You are a task planning specialist focused on generating high-level task overviews.

Your goal is to analyze the implementation document and generate a tasks_overview.yaml file that breaks down the implementation into logical tasks.

Key instructions:
- Generate YAML that follows the tasks_overview_template.yaml structure exactly
- Create one task block per logical implementation objective
- Keep descriptions strategic and high-level (WHAT and WHY, not HOW)
- Assign sequential task IDs starting from 1
- Identify dependencies between tasks accurately
- Focus on business/architectural value and outcomes
- Estimate complexity and effort realistically

Output only valid YAML, no markdown code blocks or extra commentary."#;

/// The overview prompt up to the implementation document.
pub const OVERVIEW_PROMPT_HEAD: &'static str = r#"Using the implementation document below, generate tasks_overview.yaml following the template structure.

# Implementation Document:
```
"#;

/// The overview prompt between the implementation document and the template.
pub const OVERVIEW_PROMPT_TEMPLATE: &'static str = r#"
```

# Template Structure (tasks_overview_template.yaml):
```yaml
"#;

/// The overview prompt after the template.
pub const OVERVIEW_PROMPT_TAIL: &'static str = r#"
```

Generate a complete tasks_overview.yaml with all tasks identified from the implementation document. Use YAML multi-document format (separate tasks with ---) if there are multiple tasks.

Make sure to just give your response. You must not create or write any files just output the yaml and only that."#;

/// The prompt that asks for the task overview of an implementation
/// document, following the overview template.
pub open spec fn overview_prompt_text(impl_md: Seq<char>, template: Seq<char>) -> Seq<char> {
    OVERVIEW_PROMPT_HEAD@ + impl_md + OVERVIEW_PROMPT_TEMPLATE@ + template + OVERVIEW_PROMPT_TAIL@
}

/// The prompt that asks for the task overview (see `overview_prompt_text`).
pub fn overview_prompt(impl_md: &str, overview_template: &str) -> (res: String)
    ensures
        res@ == overview_prompt_text(impl_md@, overview_template@),
{
    let mut p = String::from_str(OVERVIEW_PROMPT_HEAD);
    push_str(&mut p, impl_md);
    push_str(&mut p, OVERVIEW_PROMPT_TEMPLATE);
    push_str(&mut p, overview_template);
    push_str(&mut p, OVERVIEW_PROMPT_TAIL);
    p
}

// ============================================================================
// Expanding one task
// ============================================================================

/// The expansion instructions up to the task's number.
pub const EXPAND_INTRO: &'static str = r#"Your task is to expand Task "#;

/// What opens the quoted task name after its number.
pub const EXPAND_NAME_OPEN: &'static str = r#" (""#;

/// The expansion instructions from the task's name to its number in the overview section.
pub const EXPAND_OBJECTIVE: &'static str = r#"") from a high-level overview into a complete, detailed specification.

## OBJECTIVE
Transform the task overview below into a complete task specification that matches the task_template structure by delegating to specialized agents.

IMPORTANT: You are in the PLANNING phase. DO NOT create, write, or modify any files. Your sole purpose is to OUTPUT a YAML specification that describes what should be implemented.

## INPUT: TASK OVERVIEW (High-level)
This is the current state of Task "#;

/// The expansion instructions that introduce the task's overview.
pub const EXPAND_OVERVIEW: &'static str = r#" - a strategic description of WHAT needs to be done and WHY:
```yaml
"#;

/// The expansion instructions between the overview and the task template.
pub const EXPAND_TEMPLATE: &'static str = r#"
```

## OUTPUT TARGET: TASK TEMPLATE (Detailed structure)
Your goal is to produce a complete YAML document following this template structure:
```yaml
"#;

/// The expansion instructions from the template to the task's number in the requirements.
pub const EXPAND_AGENTS: &'static str = r#"
```

## YOUR SPECIALIZED AGENTS
You have 4 sub-agents available to help you fill out different sections of the task_template:

1. **@files agent** → Fills the `files:` section
   - Identifies all files to create/modify
   - Provides paths and descriptions

2. **@functions agent** → Fills the `functions:` section
   - Specifies all code items to implement (functions, structs, traits, etc.)
   - Groups by file with detailed specifications

3. **@formal agent** → Fills the `formal_verification:` section
   - Determines if formal verification is needed
   - Specifies verification strategy if applicable

4. **@tests agent** → Fills the `tests:` section
   - Designs test strategy and rationale
   - Provides complete test implementation code

## WORKFLOW
1. Delegate to @files, @functions, @formal, and @tests agents (you can call them in parallel or sequentially)
2. Review each agent's output for completeness
3. Ask follow-up questions to any agent if their output is unclear or incomplete
4. Combine all agent outputs into the final task specification
5. Ensure the output follows the task_template structure exactly

## YAML FORMATTING REQUIREMENTS (CRITICAL!)
When combining sub-agent outputs into the final YAML, you MUST follow these rules:

1. **All code blocks MUST use literal block syntax with pipe (|)**
2. **Multi-line strings MUST use literal block syntax (| or |-)**
3. **Preserve exact literal block format from sub-agent responses**

## IMPORTANT REQUIREMENTS
- Preserve task id ("#;

/// The expansion instructions between the task's number and its name in the requirements.
pub const EXPAND_KEEP_NAME: &'static str = r#") and name (""#;

/// The end of the expansion instructions.
pub const EXPAND_REQUIREMENTS: &'static str = r#"") from the overview
- Expand the context section based on the overview's description
- Include the dependencies section from the overview
- All sections must be complete and valid YAML
- Output ONLY the final YAML, no markdown code blocks or commentary
- DO NOT create, write, or modify any files - this is a planning phase only
- Your job is to OUTPUT the specification, not to implement it"#;

/// The expansion request up to the task's number.
pub const EXPAND_QUERY_INTRO: &'static str = r#"Expand Task "#;

/// The expansion request after the task's name.
pub const EXPAND_QUERY_TAIL: &'static str = r#"") by coordinating with your specialized agents.

IMPORTANT: Run all agents in parallel for maximum efficiency:
- Invoke @files, @functions, @formal, and @tests agents simultaneously
- Wait for all agents to complete
- Then combine their outputs into the complete task specification in YAML format."#;

/// The instructions of the agent that expands the task numbered `id` and
/// named `name`, given the task's overview as YAML and the task template.
pub open spec fn expand_system_prompt_text(
    id: u32,
    name: Seq<char>,
    overview_yaml: Seq<char>,
    template: Seq<char>,
) -> Seq<char> {
    EXPAND_INTRO@ + decimal(id as nat) + EXPAND_NAME_OPEN@ + name + EXPAND_OBJECTIVE@ + decimal(
        id as nat,
    ) + EXPAND_OVERVIEW@ + overview_yaml + EXPAND_TEMPLATE@ + template + EXPAND_AGENTS@ + decimal(
        id as nat,
    ) + EXPAND_KEEP_NAME@ + name + EXPAND_REQUIREMENTS@
}

/// The request that starts the expansion of the task numbered `id` and
/// named `name`.
pub open spec fn expand_query_text(id: u32, name: Seq<char>) -> Seq<char> {
    EXPAND_QUERY_INTRO@ + decimal(id as nat) + EXPAND_NAME_OPEN@ + name + EXPAND_QUERY_TAIL@
}

/// The instructions of the agent that expands the task numbered `task_id`
/// and named `task_name` (see `expand_system_prompt_text`); `overview_yaml`
/// is the task's overview written as YAML.
pub fn expand_system_prompt(task_id: u32, task_name: &str, overview_yaml: &str, task_template: &str) -> (res:
    String)
    ensures
        res@ == expand_system_prompt_text(task_id, task_name@, overview_yaml@, task_template@),
{
    let mut p = String::from_str(EXPAND_INTRO);
    push_decimal(&mut p, task_id as u64);
    push_str(&mut p, EXPAND_NAME_OPEN);
    push_str(&mut p, task_name);
    push_str(&mut p, EXPAND_OBJECTIVE);
    push_decimal(&mut p, task_id as u64);
    push_str(&mut p, EXPAND_OVERVIEW);
    push_str(&mut p, overview_yaml);
    push_str(&mut p, EXPAND_TEMPLATE);
    push_str(&mut p, task_template);
    push_str(&mut p, EXPAND_AGENTS);
    push_decimal(&mut p, task_id as u64);
    push_str(&mut p, EXPAND_KEEP_NAME);
    push_str(&mut p, task_name);
    push_str(&mut p, EXPAND_REQUIREMENTS);
    p
}

/// The request that starts the expansion of a task (see `expand_query_text`).
pub fn expand_query_prompt(task_id: u32, task_name: &str) -> (res: String)
    ensures
        res@ == expand_query_text(task_id, task_name@),
{
    let mut p = String::from_str(EXPAND_QUERY_INTRO);
    push_decimal(&mut p, task_id as u64);
    push_str(&mut p, EXPAND_NAME_OPEN);
    push_str(&mut p, task_name);
    push_str(&mut p, EXPAND_QUERY_TAIL);
    p
}

/// What is sent to the agent that expands one task of the overview.
pub struct ExpansionRequest {
    /// The name of the task the agent reports under (`expand_<id>`).
    pub task_id: String,
    /// The agent's name (`Task <id> Suborchestrator`).
    pub agent_name: String,
    /// What the agent is doing.
    pub description: String,
    /// The agent's instructions.
    pub system_prompt: String,
    /// The request that starts it.
    pub query: String,
}

/// Why a task of the overview cannot be expanded.
pub open spec fn expansion_error(task: YamlValue) -> Option<Seq<char>> {
    if task_value_id(task) is None {
        Some("Task missing id field"@)
    } else if task_value_name(task) is None {
        Some("Task missing name field"@)
    } else {
        None
    }
}

/// What is sent to expand a task of the overview, given as a YAML value:
/// refused when the task has no numeric `task.id` or no `task.name`; else
/// the agent's names and the prompts of `expand_system_prompt_text` and
/// `expand_query_text` for its id and name.
pub fn expansion_request(task: &YamlNode, overview_yaml: &str, task_template: &str) -> (res: Result<
    ExpansionRequest,
    String,
>)
    ensures
        match expansion_error(task@) {
            Some(e) => (res matches Err(m) && m@ == e),
            None => (res matches Ok(r) && {
                let id = task_value_id(task@)->0;
                let name = task_value_name(task@)->0;
                &&& r.task_id@ == "expand_"@ + decimal(id as nat)
                &&& r.agent_name@ == "Task "@ + decimal(id as nat) + " Suborchestrator"@
                &&& r.description@ == "Expanding task "@ + decimal(id as nat) + " with sub-agents"@
                &&& r.system_prompt@ == expand_system_prompt_text(id, name, overview_yaml@, task_template@)
                &&& r.query@ == expand_query_text(id, name)
            }),
        },
{
    let id = match get_task_id(task) {
        Some(id) => id,
        None => return Err(String::from_str("Task missing id field")),
    };
    let name = match get_task_name(task) {
        Some(n) => n,
        None => return Err(String::from_str("Task missing name field")),
    };
    let mut task_id = String::from_str("expand_");
    push_decimal(&mut task_id, id as u64);
    let mut agent_name = String::from_str("Task ");
    push_decimal(&mut agent_name, id as u64);
    push_str(&mut agent_name, " Suborchestrator");
    let mut description = String::from_str("Expanding task ");
    push_decimal(&mut description, id as u64);
    push_str(&mut description, " with sub-agents");
    Ok(ExpansionRequest {
        task_id,
        agent_name,
        description,
        system_prompt: expand_system_prompt(id, name, overview_yaml, task_template),
        query: expand_query_prompt(id, name),
    })
}

/// The name under which the agent expanding the task numbered `id` reports.
pub open spec fn expansion_agent_id(id: u32) -> Seq<char> {
    "task_"@ + decimal(id as nat) + "_suborchestrator"@
}

/// The name under which the agent expanding a task reports.
pub fn expansion_agent_name(task_id: u32) -> (res: String)
    ensures
        res@ == expansion_agent_id(task_id),
{
    let mut p = String::from_str("task_");
    push_decimal(&mut p, task_id as u64);
    push_str(&mut p, "_suborchestrator");
    p
}

// ============================================================================
// Planning the batches
// ============================================================================

/// The instructions of the agent that plans the batches.
pub const PLAN_SYSTEM_PROMPT: &'static str = r#"You are an execution planning specialist focused on dependency analysis and batch optimization.

Your goal is to analyze tasks_overview.yaml and generate an optimal execution plan that maximizes parallelization while respecting dependencies.

Key instructions:
- Analyze requires_completion_of for each task
- Group tasks into batches where all tasks in a batch can run in parallel
- Tasks can only be in a batch if ALL their dependencies are in previous batches
- Maximize tasks per batch (more parallelization = faster execution)
- Batches execute sequentially, tasks within batch execute in parallel
- Identify the critical path (longest dependency chain)
- Detect any circular dependencies and warn about them

Output only valid YAML following the template structure, no markdown code blocks or extra commentary."#;

/// The planning request up to the tasks overview.
pub const PLAN_PROMPT_HEAD: &'static str = r#"Analyze the tasks and their dependencies, then generate an execution plan.

# Tasks Overview:
```yaml
"#;

/// The planning request between the tasks overview and the plan template.
pub const PLAN_PROMPT_TEMPLATE: &'static str = r#"
```

# Execution Plan Template:
```yaml
"#;

/// The planning request after the plan template.
pub const PLAN_PROMPT_TAIL: &'static str = r#"
```

Generate a complete execution_plan.yaml that:
1. Groups tasks into optimal batches for parallel execution
2. Respects all dependencies (requires_completion_of)
3. Maximizes parallelization potential
4. Includes rationale for each batch
5. Identifies critical path and parallelization potential

Output only the YAML, no markdown formatting."#;

/// The request that asks for an execution plan of the tasks overview,
/// following the plan template.
pub open spec fn plan_prompt_text(overview_yaml: Seq<char>, plan_template: Seq<char>) -> Seq<char> {
    PLAN_PROMPT_HEAD@ + overview_yaml + PLAN_PROMPT_TEMPLATE@ + plan_template + PLAN_PROMPT_TAIL@
}

/// The request that asks for an execution plan (see `plan_prompt_text`).
pub fn plan_prompt(tasks_overview_yaml: &str, plan_template: &str) -> (res: String)
    ensures
        res@ == plan_prompt_text(tasks_overview_yaml@, plan_template@),
{
    let mut p = String::from_str(PLAN_PROMPT_HEAD);
    push_str(&mut p, tasks_overview_yaml);
    push_str(&mut p, PLAN_PROMPT_TEMPLATE);
    push_str(&mut p, plan_template);
    push_str(&mut p, PLAN_PROMPT_TAIL);
    p
}

// ============================================================================
// Reading the answers
// ============================================================================

/// The token counts of a finished query from the counts it reported: a
/// missing count is zero, and a count is kept modulo 2^32 (`as u32`).
pub fn token_usage(input_tokens: Option<u64>, output_tokens: Option<u64>) -> (res: TokenUsage)
    ensures
        res.input_tokens == (match input_tokens {
            Some(n) => n,
            None => 0u64,
        }) as u32,
        res.output_tokens == (match output_tokens {
            Some(n) => n,
            None => 0u64,
        }) as u32,
{
    let i: u64 = match input_tokens {
        Some(n) => n,
        None => 0,
    };
    let o: u64 = match output_tokens {
        Some(n) => n,
        None => 0,
    };
    TokenUsage { input_tokens: i as u32, output_tokens: o as u32 }
}

/// The parts of an answer joined with `sep` between each two.
pub fn join_parts(parts: &Vec<String>, sep: &str) -> (res: String)
    ensures
        res@ == joined(string_views(parts@), sep@),
{
    let mut res = String::new();
    let mut i: usize = 0;
    while i < parts.len()
        invariant
            i <= parts.len(),
            res@ == joined(string_views(parts@.take(i as int)), sep@),
        decreases parts.len() - i,
    {
        let ghost prev = string_views(parts@.take(i as int));
        assert(string_views(parts@.take(i + 1)).drop_last() =~= prev);
        if i > 0 {
            push_str(&mut res, sep);
        }
        push_str(&mut res, parts[i].as_str());
        proof {
            let now = string_views(parts@.take(i + 1));
            assert(now.last() == parts@[i as int]@);
            if i == 0 {
                assert(now.len() == 1);
                assert(res@ =~= now[0]);
            }
        }
        i = i + 1;
    }
    assert(parts@.take(parts@.len() as int) =~= parts@);
    res
}

/// The YAML an agent answered in parts: the parts joined with `sep`, then
/// the body of the first code block (see `fenced_yaml_text`), trimmed. The
/// overview's parts are joined with nothing between them, an expanded
/// task's with a newline.
pub fn answer_yaml(parts: &Vec<String>, sep: &str) -> (res: String)
    ensures
        res@ == fenced_yaml_text(joined(string_views(parts@), sep@)),
{
    let all = join_parts(parts, sep);
    fenced_yaml(all.as_str())
}

} // verus!
