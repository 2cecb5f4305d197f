//! Data types of the task planning workflow: task overviews, detailed task
//! specifications, execution plans and review results.
use vstd::prelude::*;

verus! {

// ============================================================================
// Task Overview Types
// ============================================================================

/// High-level task overview from tasks_overview.yaml
#[derive(Debug)]
pub struct TaskOverview {
    /// Basic task information
    pub task: TaskInfo,
    /// Task dependencies
    pub dependencies: Dependencies,
}

/// Basic task information
#[derive(Debug)]
pub struct TaskInfo {
    /// Unique task ID
    pub id: u32,
    /// Task name
    pub name: String,
    /// Task context/description
    pub context: String,
}

/// Task dependencies
#[derive(Debug)]
pub struct Dependencies {
    /// The tasks that have to finish first
    pub requires_completion_of: Vec<TaskDependency>,
}

/// Single task dependency
#[derive(Debug)]
pub struct TaskDependency {
    /// ID of the required task
    pub task_id: u32,
    /// Reason for the dependency
    pub reason: String,
}

/// Abstract value of a [`TaskDependency`].
pub struct TaskDependencyView {
    pub task_id: u32,
    pub reason: Seq<char>,
}

/// Abstract value of a [`TaskInfo`].
pub struct TaskInfoView {
    pub id: u32,
    pub name: Seq<char>,
    pub context: Seq<char>,
}

/// Abstract value of a [`TaskOverview`]: its information and the list of
/// tasks it depends on.
pub struct TaskOverviewView {
    pub task: TaskInfoView,
    pub dependencies: Seq<TaskDependencyView>,
}

impl View for TaskDependency {
    type V = TaskDependencyView;

    open spec fn view(&self) -> TaskDependencyView {
        TaskDependencyView { task_id: self.task_id, reason: self.reason@ }
    }
}

impl View for TaskInfo {
    type V = TaskInfoView;

    open spec fn view(&self) -> TaskInfoView {
        TaskInfoView { id: self.id, name: self.name@, context: self.context@ }
    }
}

impl View for Dependencies {
    type V = Seq<TaskDependencyView>;

    open spec fn view(&self) -> Seq<TaskDependencyView> {
        self.requires_completion_of@.map_values(|d: TaskDependency| d@)
    }
}

impl View for TaskOverview {
    type V = TaskOverviewView;

    open spec fn view(&self) -> TaskOverviewView {
        TaskOverviewView { task: self.task@, dependencies: self.dependencies@ }
    }
}

impl Clone for TaskDependency {
    fn clone(&self) -> (res: Self)
        ensures
            res@ == self@,
    {
        TaskDependency { task_id: self.task_id, reason: self.reason.clone() }
    }
}

impl Clone for TaskInfo {
    fn clone(&self) -> (res: Self)
        ensures
            res@ == self@,
    {
        TaskInfo { id: self.id, name: self.name.clone(), context: self.context.clone() }
    }
}

impl Clone for Dependencies {
    fn clone(&self) -> (res: Self)
        ensures
            res@ == self@,
    {
        let mut v: Vec<TaskDependency> = Vec::new();
        let mut i: usize = 0;
        while i < self.requires_completion_of.len()
            invariant
                i <= self.requires_completion_of.len(),
                v@.len() == i,
                forall|k: int| 0 <= k < i ==> (#[trigger] v@[k])@ == self.requires_completion_of@[k]@,
            decreases self.requires_completion_of.len() - i,
        {
            v.push(self.requires_completion_of[i].clone());
            i = i + 1;
        }
        let res = Dependencies { requires_completion_of: v };
        assert(res@ =~= self@);
        res
    }
}

impl Default for Dependencies {
    /// No dependencies.
    fn default() -> (res: Self)
        ensures
            res.requires_completion_of@.len() == 0,
    {
        Dependencies { requires_completion_of: Vec::new() }
    }
}

impl Clone for TaskOverview {
    fn clone(&self) -> (res: Self)
        ensures
            res@ == self@,
    {
        TaskOverview { task: self.task.clone(), dependencies: self.dependencies.clone() }
    }
}

// ============================================================================
// Detailed Task Types
// ============================================================================

/// Complete detailed task specification from tasks.yaml
#[derive(Debug, Clone)]
pub struct DetailedTask {
    /// Basic task information
    pub task: TaskInfo,
    /// Files to create or modify
    pub files: Vec<FileSpec>,
    /// Functions, structs, and other code items
    pub functions: Vec<FunctionGroup>,
    /// Formal verification requirements
    pub formal_verification: FormalVerification,
    /// Test specifications
    pub tests: TestSpec,
    /// Task dependencies
    pub dependencies: Dependencies,
}

/// File specification - a file to create or modify
#[derive(Debug, Clone)]
pub struct FileSpec {
    /// Full path to the file
    pub path: String,
    /// Brief description of the file's role
    pub description: String,
}

/// Group of code items in a single file
#[derive(Debug, Clone)]
pub struct FunctionGroup {
    /// Path to the file
    pub file: String,
    /// Code items in this file
    pub items: Vec<CodeItem>,
}

/// Single code item (function, struct, trait, etc.)
#[derive(Debug, Clone)]
pub struct CodeItem {
    /// Type of code item (function, struct, trait_impl, etc.)
    pub item_type: String,
    /// Name or signature of the item
    pub name: String,
    /// Description of purpose and behavior
    pub description: String,
    /// What must be true before execution
    pub preconditions: Option<String>,
    /// What will be true after execution
    pub postconditions: Option<String>,
    /// Properties that remain constant
    pub invariants: Option<String>,
}

/// Formal verification requirements
#[derive(Debug, Clone)]
pub struct FormalVerification {
    /// Whether formal verification is needed
    pub needed: bool,
    /// Verification level (None, Basic, Critical)
    pub level: String,
    /// Explanation of why verification is/isn't needed
    pub explanation: String,
    /// System prompt for verification (optional)
    pub system_prompt: Option<String>,
    /// Formal properties to verify (optional)
    pub properties: Option<Vec<String>>,
    /// Verification approach/strategy (optional)
    pub strategy: Option<String>,
}

/// Test specifications
#[derive(Debug, Clone)]
pub struct TestSpec {
    /// Test strategy and approach
    pub strategy: TestStrategy,
    /// Test implementation details
    pub implementation: TestImplementation,
    /// List of behaviors tested
    pub coverage: Vec<String>,
}

/// Test strategy and rationale
#[derive(Debug, Clone)]
pub struct TestStrategy {
    /// Testing approach (unit tests, integration tests, etc.)
    pub approach: String,
    /// Rationale for the testing approach
    pub rationale: Vec<String>,
}

/// Test implementation details
#[derive(Debug, Clone)]
pub struct TestImplementation {
    /// Path to the test file
    pub file: String,
    /// Location (create new, append to existing, etc.)
    pub location: String,
    /// Complete test code
    pub code: String,
}

// ============================================================================
// Execution Plan Types
// ============================================================================

/// Complete execution plan for batch processing
#[derive(Debug, Clone)]
pub struct ExecutionPlan {
    /// Total number of tasks
    pub total_tasks: usize,
    /// Total number of batches
    pub total_batches: usize,
    /// List of batches
    pub batches: Vec<Batch>,
    /// Dependencies summary
    pub dependencies_summary: DependenciesSummary,
}

/// Single batch of tasks
#[derive(Debug, Clone)]
pub struct Batch {
    /// Batch identifier
    pub batch_id: usize,
    /// Description of the batch
    pub description: String,
    /// Execution strategy (sequential, parallel, etc.)
    pub strategy: String,
    /// Tasks in this batch
    pub tasks: Vec<BatchTask>,
    /// Rationale for parallelization decisions
    pub parallelization_rationale: String,
}

/// Task reference in a batch
#[derive(Debug, Clone)]
pub struct BatchTask {
    /// Task ID
    pub task_id: u32,
    /// Task name
    pub task_name: String,
    /// Reason for including in this batch
    pub reason: String,
}

/// Dependencies summary for execution planning
#[derive(Debug, Clone)]
pub struct DependenciesSummary {
    /// Critical path (list of task IDs that must be sequential)
    pub critical_path: Vec<u32>,
    /// Parallelization potential (low, medium, high)
    pub parallelization_potential: String,
    /// Explanation of parallelization opportunities
    pub parallelization_explanation: String,
}

// ============================================================================
// Statistics and Review Types
// ============================================================================

/// Token usage counts
#[derive(Debug, Clone)]
pub struct TokenUsage {
    /// Number of input tokens
    pub input_tokens: u32,
    /// Number of output tokens
    pub output_tokens: u32,
}

/// Usage statistics of an agent run. The cost in dollars that the agent
/// service also reports is a float, and is kept beside this record by the
/// application.
#[derive(Debug, Clone)]
pub struct UsageStats {
    /// Total duration in milliseconds
    pub duration_ms: u64,
    /// API call duration in milliseconds
    pub duration_api_ms: Option<u64>,
    /// Number of conversation turns
    pub num_turns: u32,
    /// Token usage details
    pub usage: TokenUsage,
    /// Session identifier
    pub session_id: Option<String>,
}

/// Single task review result
#[derive(Debug, Clone)]
pub struct ReviewResult {
    /// Task ID being reviewed
    pub task_id: u32,
    /// Whether the review passed
    pub success: bool,
    /// List of issues found (empty if success=true)
    pub issues: Vec<String>,
    /// Summary of the review
    pub summary: String,
}

impl View for ReviewResult {
    /// Task id, whether it passed, its issues and its summary.
    type V = (u32, bool, Seq<Seq<char>>, Seq<char>);

    open spec fn view(&self) -> Self::V {
        (self.task_id, self.success, self.issues@.map_values(|s: String| s@), self.summary@)
    }
}

} // verus!
