//! Command-line arguments of the research workflow.
use vstd::prelude::*;

use crate::text::{
    all_ascii_digits, digits_value, lemma_split_append_piece, lemma_split_single_piece,
    lemma_trim_digits, parse_number_list, parse_separated_numbers, parse_unsigned, parsed_pieces,
    split_on, trim,
};

verus! {

/// Research workflow command-line arguments.
pub struct Args {
    /// Research objective/question
    pub input: Option<String>,
    /// Prompt writer system prompt (file path or string)
    pub system_prompt: Option<String>,
    /// Output style format (file path or string)
    pub append: Option<String>,
    /// Output file path for final documentation
    pub output: Option<String>,
    /// Number of research prompts to execute in parallel
    pub batch_size: usize,
    /// Comma-separated phases to execute (0=analyze, 1=prompts, 2=research,
    /// 3=validate, 4=synthesize)
    pub phases: String,
    /// Path to saved codebase analysis YAML (for resuming from Phase 1)
    pub analysis_file: Option<String>,
    /// Path to saved prompts YAML (for resuming from Phase 2)
    pub prompts_file: Option<String>,
    /// Path to saved research results YAML (for resuming from Phase 3)
    pub results_file: Option<String>,
    /// Directory path to analyze for Phase 0
    pub dir: Option<String>,
    /// Directory containing YAML files to validate (for Phase 3)
    pub results_dir: Option<String>,
    /// Hidden metadata flag
    pub workflow_metadata: bool,
}

/// The phase numbers named by a comma separated list: the pieces that parse
/// as `u32` after trimming, in order.
pub open spec fn research_phase_list(phases: Seq<char>) -> Seq<nat> {
    parse_number_list(phases, ',', u32::MAX as nat)
}

/// A list of one piece (no comma) names the phase that piece parses as,
/// after trimming, or none; in particular a string of digits names its value.
pub proof fn law_phase_list_of_one_piece(p: Seq<char>)
    requires
        !p.contains(','),
    ensures
        research_phase_list(p) == match parse_unsigned(trim(p), u32::MAX as nat) {
            Some(v) => seq![v],
            None => Seq::<nat>::empty(),
        },
        p.len() > 0 && all_ascii_digits(p) && digits_value(p) <= u32::MAX ==> research_phase_list(p)
            == seq![digits_value(p)],
{
    lemma_split_single_piece(p, ',');
    assert(seq![p].drop_last() =~= Seq::<Seq<char>>::empty());
    assert(seq![p].last() == p);
    assert(parsed_pieces(Seq::<Seq<char>>::empty(), u32::MAX as nat) =~= Seq::<nat>::empty());
    assert(research_phase_list(p) == parsed_pieces(seq![p], u32::MAX as nat));
    if p.len() > 0 && all_ascii_digits(p) && digits_value(p) <= u32::MAX {
        lemma_trim_digits(p);
        assert(p[0] != '+');
    }
}

/// Appending `,` and a piece to a phase list appends the phase that piece
/// parses as (after trimming), and nothing when it does not parse: the
/// phases come in the order they are listed, none is dropped; a string of
/// digits appends its value.
pub proof fn law_phase_list_append_piece(s: Seq<char>, p: Seq<char>)
    requires
        !p.contains(','),
    ensures
        research_phase_list(s + seq![','] + p) == match parse_unsigned(trim(p), u32::MAX as nat) {
            Some(v) => research_phase_list(s).push(v),
            None => research_phase_list(s),
        },
        p.len() > 0 && all_ascii_digits(p) && digits_value(p) <= u32::MAX ==> research_phase_list(
            s + seq![','] + p,
        ) == research_phase_list(s).push(digits_value(p)),
{
    lemma_split_append_piece(s, ',', p);
    let pieces = split_on(s, ',').push(p);
    assert(pieces.drop_last() =~= split_on(s, ','));
    assert(pieces.last() == p);
    if p.len() > 0 && all_ascii_digits(p) && digits_value(p) <= u32::MAX {
        lemma_trim_digits(p);
        assert(p[0] != '+');
    }
}

impl Args {
    /// Parse the comma-separated phases string into a list of phase numbers;
    /// pieces that are not numbers are skipped.
    pub fn parse_phases(&self) -> (res: Vec<u32>)
        ensures
            res@.len() == research_phase_list(self.phases@).len(),
            forall|i: int|
                0 <= i < res@.len() ==> res@[i] as nat == #[trigger] research_phase_list(
                    self.phases@,
                )[i],
    {
        let values = parse_separated_numbers(self.phases.as_str(), ',', 0xffff_ffff);
        let mut res: Vec<u32> = Vec::new();
        let mut i: usize = 0;
        while i < values.len()
            invariant
                i <= values.len(),
                values@.len() == research_phase_list(self.phases@).len(),
                forall|k: int|
                    0 <= k < values@.len() ==> values@[k] as nat == #[trigger] research_phase_list(
                        self.phases@,
                    )[k],
                res@.len() == i,
                forall|k: int| 0 <= k < i ==> res@[k] as nat == values@[k] as nat,
            decreases values.len() - i,
        {
            proof {
                crate::text::lemma_parse_number_list_bounded(self.phases@, ',', u32::MAX as nat);
            }
            assert(values@[i as int] as nat == research_phase_list(self.phases@)[i as int]);
            res.push(values[i] as u32);
            i = i + 1;
        }
        res
    }
}

} // verus!
