//! What one run reports: the formatted bytes, or a line naming the stage that
//! failed.
use vstd::prelude::*;
use vstd::string::*;
use crate::formats::OutputFormat;

verus! {

/// The stages of a run that can fail.
#[derive(Debug, Clone, Copy, PartialEq, Eq, Structural)]
pub enum Stage {
    /// Opening the engine for the chosen target.
    Build,
    /// Translating the source text into bytes.
    Assemble,
    /// Rendering the bytes as text.
    Format,
}

pub open spec fn stage_label(stage: Stage) -> Seq<char> {
    match stage {
        Stage::Build => "Failed to build assembler"@,
        Stage::Assemble => "Could not assemble code"@,
        Stage::Format => "Could not format the result"@,
    }
}

/// The line reported when `stage` fails with the given detail.
pub open spec fn failure_text(stage: Stage, detail: Seq<char>) -> Seq<char> {
    stage_label(stage) + ": "@ + detail
}

impl Stage {
    /// The words that open the report of a failure at this stage.
    pub fn context(&self) -> (r: &'static str)
        ensures
            r@ == stage_label(*self),
    {
        match self {
            Stage::Build => "Failed to build assembler",
            Stage::Assemble => "Could not assemble code",
            Stage::Format => "Could not format the result",
        }
    }
}

/// The report of a failure at `stage`: its context, a colon and the detail.
pub fn failure_line(stage: Stage, detail: &str) -> (r: String)
    ensures
        r@ == failure_text(stage, detail@),
{
    let mut line = String::from_str(stage.context());
    line.append(": ");
    line.append(detail);
    line
}

/// What a run reports once the engine has answered: the bytes in `format`, or,
/// where the engine refused the source with the given detail, the assembly
/// failure line.
pub fn render_assembled(format: OutputFormat, assembled: Result<Vec<u8>, String>) -> (r: Result<
    String,
    String,
>)
    ensures
        assembled is Ok ==> r is Ok && r->Ok_0@ == format.render(assembled->Ok_0@),
        assembled is Err ==> r is Err && r->Err_0@ == failure_text(
            Stage::Assemble,
            assembled->Err_0@,
        ),
{
    match assembled {
        Ok(bytes) => match format.format_sequence(bytes.as_slice()) {
            Ok(text) => Ok(text),
            Err(_) => Err(failure_line(Stage::Format, "")),
        },
        Err(detail) => Err(failure_line(Stage::Assemble, detail.as_str())),
    }
}

} // verus!
