//! Data structures of the research workflow: the prompts generated from an
//! objective and the results of executing them.
use vstd::prelude::*;

use crate::yaml_model::YamlNode;

verus! {

/// The analysis of a codebase written in Phase 0: a YAML value of any shape.
pub type CodebaseAnalysis = YamlNode;

/// A single research prompt with focus areas.
///
/// Generated in Phase 1, each prompt targets a specific aspect of the research objective.
#[derive(Debug, Clone)]
pub struct ResearchPrompt {
    /// Title of the research prompt
    pub title: String,
    /// Query/question to be executed by the research agent
    pub query: String,
    /// Focus areas or topics to concentrate on
    pub focus: Vec<String>,
}

/// Collection of research prompts with objective.
#[derive(Debug)]
pub struct PromptsData {
    /// Original research objective provided by the user
    pub objective: String,
    /// List of generated research prompts
    pub prompts: Vec<ResearchPrompt>,
}

impl View for ResearchPrompt {
    /// Title, query and focus areas.
    type V = (Seq<char>, Seq<char>, Seq<Seq<char>>);

    open spec fn view(&self) -> Self::V {
        (self.title@, self.query@, self.focus@.map_values(|s: String| s@))
    }
}

impl View for PromptsData {
    /// The objective and the prompts.
    type V = (Seq<char>, Seq<(Seq<char>, Seq<char>, Seq<Seq<char>>)>);

    open spec fn view(&self) -> Self::V {
        (self.objective@, self.prompts@.map_values(|p: ResearchPrompt| p@))
    }
}

/// Result of a single research execution.
#[derive(Debug, Clone)]
pub struct ResearchResult {
    /// Title of the research task
    pub title: String,
    /// Original query that was executed
    pub query: String,
    /// Path to the YAML file containing the detailed research findings
    pub response_file: String,
    /// Focus areas that were covered
    pub focus: Vec<String>,
}

/// The response files of a list of results, in order: the files that
/// phase 3 validates when no results directory is given.
pub fn response_files(results: &Vec<ResearchResult>) -> (res: Vec<String>)
    ensures
        res@.len() == results@.len(),
        forall|i: int| 0 <= i < results@.len() ==> #[trigger] res@[i]@ == results@[i].response_file@,
{
    let mut res: Vec<String> = Vec::new();
    let mut i: usize = 0;
    while i < results.len()
        invariant
            i <= results.len(),
            res@.len() == i,
            forall|k: int| 0 <= k < i ==> #[trigger] res@[k]@ == results@[k].response_file@,
        decreases results.len() - i,
    {
        res.push(results[i].response_file.clone());
        i = i + 1;
    }
    res
}

} // verus!
