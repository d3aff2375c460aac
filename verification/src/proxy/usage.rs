//! Which token counts of a response are worth recording.
use vstd::prelude::*;

verus! {

/// A value observed in a response.
#[derive(Clone, Copy, Debug, PartialEq, Eq, Structural)]
pub enum Observation {
    /// Reported by the upstream.
    Measured(u64),
    /// Worked out from the stream.
    Estimated(u64),
    /// Not reported.
    Unavailable,
    /// Reported in a shape that makes no sense.
    Invalid,
}

/// The token counts that metrics take in, and where the completion count
/// comes from.
#[derive(Clone, Copy, Debug)]
pub struct RecordedTokens {
    pub prompt: Option<u64>,
    pub completion: Option<u64>,
    pub source: &'static str,
    /// Reasoning tokens, where there are any.
    pub reasoning: Option<u64>,
    /// Tool calls, where there are any.
    pub tool_calls: Option<u64>,
}

/// A measured value.
pub open spec fn measured(o: Observation) -> Option<u64> {
    match o {
        Observation::Measured(n) => Some(n),
        _ => None,
    }
}

/// A measured value above zero.
pub open spec fn measured_some(o: Observation) -> Option<u64> {
    match o {
        Observation::Measured(n) => if n > 0 {
            Some(n)
        } else {
            None
        },
        _ => None,
    }
}

fn take_measured(o: Observation) -> (r: Option<u64>)
    ensures
        r == measured(o),
{
    match o {
        Observation::Measured(n) => Some(n),
        _ => None,
    }
}

fn take_some(o: Observation) -> (r: Option<u64>)
    ensures
        r == measured_some(o),
{
    match o {
        Observation::Measured(n) => if n > 0 {
            Some(n)
        } else {
            None
        },
        _ => None,
    }
}

/// The completion count that is recorded, and where it comes from.
pub open spec fn completed(o: Observation) -> (Option<u64>, Seq<char>) {
    match o {
        Observation::Measured(n) => (Some(n), "usage"@),
        Observation::Estimated(n) => (Some(n), "estimate"@),
        _ => (None, "usage"@),
    }
}

/// Counts are recorded as they were observed: what was measured stands, an
/// estimate counts only for the completion and is marked as one, a zero of
/// what is rare is left out, and nothing is made up where nothing was seen.
pub proof fn law_counts_are_recorded_as_observed(o: Observation)
    ensures
        o matches Observation::Measured(n) ==> measured(o) == Some(n) && completed(o) == (
            Some(n),
            "usage"@,
        ) && (n > 0 ==> measured_some(o) == Some(n)) && (n == 0 ==> measured_some(o) is None),
        o matches Observation::Estimated(n) ==> measured(o) is None && measured_some(o) is None
            && completed(o) == (Some(n), "estimate"@),
        o is Unavailable || o is Invalid ==> measured(o) is None && measured_some(o) is None
            && completed(o).0 is None,
{
}

/// Record only finalized typed observations. Invalid and unavailable upstream
/// values are deliberately absent.
pub fn recorded_tokens(
    prompt: Observation,
    completion: Observation,
    reasoning: Observation,
    tool_calls: Observation,
) -> (r: RecordedTokens)
    ensures
        r.prompt == measured(prompt),
        r.completion == match completion {
            Observation::Measured(n) => Some(n),
            Observation::Estimated(n) => Some(n),
            _ => None,
        },
        r.source@ == if completion is Estimated {
            "estimate"@
        } else {
            "usage"@
        },
        (r.completion, r.source@) == completed(completion),
        r.reasoning == measured_some(reasoning),
        r.tool_calls == measured_some(tool_calls),
{
    let (count, source) = match completion {
        Observation::Measured(n) => (Some(n), "usage"),
        Observation::Estimated(n) => (Some(n), "estimate"),
        _ => (None, "usage"),
    };
    RecordedTokens {
        prompt: take_measured(prompt),
        completion: count,
        source,
        reasoning: take_some(reasoning),
        tool_calls: take_some(tool_calls),
    }
}

}
