//! The pipeline builder's plan: the line is split on `|`, each segment is
//! trimmed and tokenized, the first stage may name a builtin, and every
//! other stage is an external program whose standard output is piped to
//! its successor, the last one inheriting the shell's own.
use vstd::prelude::*;

use crate::dispatch::command_kind;
use crate::dispatch::spec_command_kind;
use crate::dispatch::CommandKind;
use crate::text::spec_split;
use crate::text::spec_trim;
use crate::text::split_char;
use crate::text::trim_str;
use crate::text::views_of;
use crate::tokenizer::input_line_parsing;
use crate::tokenizer::spec_tokenize;

verus! {

/// One planned stage: its words, the builtin it runs instead of spawning
/// (first stage only), and how its standard streams are wired.
#[derive(Debug)]
pub struct PipelineStage {
    pub tokens: Vec<String>,
    pub builtin: Option<CommandKind>,
    pub stdin_from_prev: bool,
    pub piped_stdout: bool,
}

/// The plan for one pipeline line: aborted whole when a segment has no
/// program, otherwise one stage per segment.
#[derive(Debug)]
pub enum PipelinePlan {
    Abort,
    Run { stages: Vec<PipelineStage> },
}

/// The raw segments of a pipeline line, split on the pipe character.
pub open spec fn spec_segments(line: Seq<char>) -> Seq<Seq<char>> {
    spec_split(line, '|')
}

/// The words of the `k`-th segment, after trimming it.
pub open spec fn spec_stage_words(line: Seq<char>, k: int) -> Seq<Seq<char>> {
    spec_tokenize(spec_trim(spec_segments(line)[k]))
}

/// True when the `k`-th segment is malformed: no words at all, or a
/// program that is blank after trimming.
pub open spec fn spec_stage_bad(line: Seq<char>, k: int) -> bool {
    spec_stage_words(line, k).len() == 0 || spec_trim(spec_stage_words(line, k)[0]).len() == 0
}

/// The builtin a first-stage program name runs instead of spawning:
/// `type`, `exit` and `cd` keep their builtin meaning there.
pub open spec fn spec_pipeline_builtin(name: Seq<char>) -> Option<CommandKind> {
    let k = spec_command_kind(name);
    if k == CommandKind::Type || k == CommandKind::Exit || k == CommandKind::Cd {
        Some(k)
    } else {
        None
    }
}

/// Plans one pipeline line: a stage per `|`-separated segment, aborted
/// whole when any segment lacks a program. The first stage may run a
/// builtin; every external stage pipes its standard output to the next
/// stage, the last inheriting the shell's, and reads the previous
/// external stage's output.
pub fn plan_pipeline(line: &str) -> (r: PipelinePlan)
    ensures
        r is Abort <==> (exists|k: int|
            0 <= k < spec_segments(line@).len() && spec_stage_bad(line@, k)),
        r matches PipelinePlan::Run { stages } ==> {
            &&& stages@.len() == spec_segments(line@).len()
            &&& (forall|k: int|
                0 <= k < stages@.len() ==> {
                    let stg = #[trigger] stages@[k];
                    &&& views_of(stg.tokens@) == spec_stage_words(line@, k)
                    &&& stg.builtin == (if k == 0 {
                        spec_pipeline_builtin(spec_trim(spec_stage_words(line@, 0)[0]))
                    } else {
                        None::<CommandKind>
                    })
                    &&& stg.piped_stdout == (stg.builtin is None && k + 1 < stages@.len())
                    &&& stg.stdin_from_prev == (stg.builtin is None && k > 0 && stages@[k
                        - 1].builtin is None)
                })
        },
{
    let segments = split_char(line, '|');
    let n = segments.len();
    let mut stages: Vec<PipelineStage> = Vec::new();
    let mut i: usize = 0;
    while i < n
        invariant
            i <= n,
            n == spec_segments(line@).len(),
            views_of(segments@) == spec_segments(line@),
            stages@.len() == i,
            forall|k: int| 0 <= k < i ==> !spec_stage_bad(line@, k),
            forall|k: int|
                0 <= k < i ==> {
                    let stg = #[trigger] stages@[k];
                    &&& views_of(stg.tokens@) == spec_stage_words(line@, k)
                    &&& stg.builtin == (if k == 0 {
                        spec_pipeline_builtin(spec_trim(spec_stage_words(line@, 0)[0]))
                    } else {
                        None::<CommandKind>
                    })
                    &&& stg.piped_stdout == (stg.builtin is None && k + 1 < n)
                    &&& stg.stdin_from_prev == (stg.builtin is None && k > 0 && stages@[k
                        - 1].builtin is None)
                },
        decreases n - i,
    {
        proof {
            assert(views_of(segments@)[i as int] == segments@[i as int]@);
        }
        let seg_trimmed = trim_str(segments[i].as_str());
        let words = input_line_parsing(seg_trimmed.as_str());
        proof {
            assert(views_of(words@).len() == words@.len());
        }
        if words.len() == 0 {
            proof {
                assert(spec_stage_bad(line@, i as int));
            }
            return PipelinePlan::Abort;
        }
        proof {
            assert(views_of(words@)[0] == words@[0]@);
        }
        let prog_trimmed = trim_str(words[0].as_str());
        if prog_trimmed.as_str().is_empty() {
            proof {
                assert(spec_stage_bad(line@, i as int));
            }
            return PipelinePlan::Abort;
        }
        let builtin: Option<CommandKind> = if i == 0 {
            let kind = command_kind(prog_trimmed.as_str());
            match kind {
                CommandKind::Type => Some(kind),
                CommandKind::Exit => Some(kind),
                CommandKind::Cd => Some(kind),
                _ => None,
            }
        } else {
            None
        };
        let stdin_from_prev: bool = if i == 0 {
            false
        } else {
            builtin.is_none() && stages[i - 1].builtin.is_none()
        };
        let piped_stdout = builtin.is_none() && i + 1 < n;
        stages.push(PipelineStage { tokens: words, builtin, stdin_from_prev, piped_stdout });
        i = i + 1;
    }
    PipelinePlan::Run { stages }
}

} // verus!
