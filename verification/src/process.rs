//! The line processor: what to write for one line of input.

use vstd::prelude::*;
use crate::compare::{do_compare, evaluated, CompiledComparison, ComparisonView, Evaluation};
use crate::error::Error;
use crate::level::passes;
use crate::record::{parsed, LogRecord, RecordView};
use crate::style::Format;
use crate::text::{chars_of, text_of};

verus! {

/// What is done with one line of input.
pub enum Outcome {
    /// Nothing is written.
    Drop,
    /// The line is written as it was read.
    Echo,
    /// The line is a record that passed the filters: it is written as
    /// display text.
    Show(RecordView),
    /// The run ends: the comparison cannot be held against this record.
    Fail(Evaluation),
}

/// Decides on one line. A line that is no record is dropped where `strict`
/// is on, and else written as it is. A record is dropped where its level is
/// below `level_filter`, or where there is a condition that it does not
/// match; any other record is shown.
pub open spec fn decided(
    line: Seq<char>,
    level_filter: u8,
    condition: Option<ComparisonView>,
    strict: bool,
) -> Outcome {
    match parsed(line) {
        Err(_) => if strict {
            Outcome::Drop
        } else {
            Outcome::Echo
        },
        Ok(record) => if !passes(record.level, level_filter) {
            Outcome::Drop
        } else {
            match condition {
                None => Outcome::Show(record),
                Some(comparison) => match evaluated(record, comparison) {
                    Evaluation::Answer(true) => Outcome::Show(record),
                    Evaluation::Answer(false) => Outcome::Drop,
                    failed => Outcome::Fail(failed),
                },
            }
        },
    }
}

/// What a condition holds, if there is one.
pub open spec fn condition_view(condition: Option<CompiledComparison>) -> Option<ComparisonView> {
    match condition {
        Some(comparison) => Some(comparison@),
        None => None,
    }
}

/// The operand of a condition.
pub open spec fn operand_of(condition: Option<CompiledComparison>) -> Seq<char> {
    match condition {
        Some(comparison) => comparison.value@,
        None => Seq::empty(),
    }
}

/// Whether `r` is what is written on `outcome` for the line `line`: nothing
/// for a dropped line, the line and a line end for an echoed one, the display
/// text for a record that is shown; and the error where the run ends.
pub open spec fn carries_out(
    r: Result<Option<String>, Error>,
    outcome: Outcome,
    line: Seq<char>,
    operand: Seq<char>,
    colorize: bool,
) -> bool {
    match outcome {
        Outcome::Drop => r matches Ok(None),
        Outcome::Echo => r matches Ok(Some(text)) && text@ == line + seq!['\n'],
        Outcome::Show(record) => r matches Ok(Some(text)) && record.shown_as(text@, colorize),
        Outcome::Fail(Evaluation::OperandNotNumber) => r matches Err(
            Error::OperandNotNumber(given),
        ) && given@ == operand,
        Outcome::Fail(_) => r matches Err(Error::OperandNotSmallUint(given)) && given@
            == operand,
    }
}

/// Processes one line of input: reads it, filters it by level and by the
/// condition, and renders it (see [`decided`] and [`carries_out`]). What comes
/// back is what is to be written, if anything.
pub fn process_line(
    line: &str,
    format: Format,
    level_filter: u8,
    condition: &Option<CompiledComparison>,
    strict: bool,
    colorize: bool,
) -> (r: Result<Option<String>, Error>)
    ensures
        carries_out(
            r,
            decided(line@, level_filter, condition_view(*condition), strict),
            line@,
            operand_of(*condition),
            colorize,
        ),
{
    match LogRecord::parse(line) {
        Ok(record) => {
            if record.level < level_filter {
                return Ok(None);
            }
            match condition {
                Some(comparison) => {
                    match do_compare(&record, comparison) {
                        Ok(true) => {},
                        Ok(false) => {
                            return Ok(None);
                        },
                        Err(e) => {
                            return Err(e);
                        },
                    }
                },
                None => {},
            }
            Ok(Some(record.format(format, colorize)))
        },
        Err(_) => {
            if strict {
                Ok(None)
            } else {
                let mut out = chars_of(line);
                out.push('\n');
                assert(out@ =~= line@ + seq!['\n']);
                Ok(Some(text_of(&out)))
            }
        },
    }
}

/// A record passes the level filter exactly when its level is at least the
/// threshold; a level equal to the threshold passes.
pub proof fn lemma_level_filter(line: Seq<char>, level_filter: u8, strict: bool)
    requires
        parsed(line) is Ok,
    ensures
        decided(line, level_filter, None, strict) is Show <==> parsed(line)->Ok_0.level
            >= level_filter,
        parsed(line)->Ok_0.level == level_filter ==> decided(line, level_filter, None, strict)
            == Outcome::Show(parsed(line)->Ok_0),
        parsed(line)->Ok_0.level < level_filter ==> decided(line, level_filter, None, strict)
            == Outcome::Drop,
{
}

/// A line that is no record is written as it is where `strict` is off, and
/// not at all where it is on, whatever the filters.
pub proof fn lemma_malformed_line(
    line: Seq<char>,
    level_filter: u8,
    condition: Option<ComparisonView>,
)
    requires
        parsed(line) is Err,
    ensures
        decided(line, level_filter, condition, false) == Outcome::Echo,
        decided(line, level_filter, condition, true) == Outcome::Drop,
{
}

} // verus!
