//! Recoverable errors reported by the Core API.
use vstd::prelude::*;

use crate::text::push_char;
use crate::types::{ActionId, CandidateId, StateRevision};

verus! {

/// A recoverable error reported by the Core API.
#[derive(Clone, Debug, PartialEq, Eq)]
pub enum ImeError {
    /// Engine configuration violates a Core invariant.
    InvalidConfig(&'static str),
    /// One input event carries more UTF-8 data than allowed.
    EventTextTooLong { actual: usize, max: usize },
    /// Applying an event would grow the composition beyond its hard limit.
    CompositionTooLong { actual: usize, max: usize },
    /// A context field exceeds its hard UTF-8 byte limit.
    ContextTextTooLong { field: &'static str, actual: usize, max: usize },
    /// The platform has not acknowledged enough actions to accept another one.
    TooManyOutstandingActions { max: usize },
    /// An acknowledgement refers to an action that this Session does not know.
    UnknownAction(ActionId),
    /// A candidate selection was produced for an older Session revision.
    StaleRevision { expected: StateRevision, actual: StateRevision },
    /// A candidate ID does not exist in the current snapshot.
    UnknownCandidate(CandidateId),
    /// A monotonic identifier reached its representable limit.
    CounterExhausted(&'static str),
}

/// The decimal digit `d`.
pub open spec fn digit(d: nat) -> char {
    if d == 0 {
        '0'
    } else if d == 1 {
        '1'
    } else if d == 2 {
        '2'
    } else if d == 3 {
        '3'
    } else if d == 4 {
        '4'
    } else if d == 5 {
        '5'
    } else if d == 6 {
        '6'
    } else if d == 7 {
        '7'
    } else if d == 8 {
        '8'
    } else {
        '9'
    }
}

/// The decimal representation of `n`, without leading zeros.
pub open spec fn decimal(n: nat) -> Seq<char>
    decreases n,
{
    if n < 10 {
        seq![digit(n)]
    } else {
        decimal(n / 10).push(digit(n % 10))
    }
}

/// The message reported for an error.
pub open spec fn error_message(e: ImeError) -> Seq<char> {
    match e {
        ImeError::InvalidConfig(reason) => "invalid engine config: "@ + reason@,
        ImeError::EventTextTooLong { actual, max } => "event text is "@ + decimal(actual as nat)
            + " bytes; maximum is "@ + decimal(max as nat),
        ImeError::CompositionTooLong { actual, max } => "composition would be "@ + decimal(
            actual as nat,
        ) + " bytes; maximum is "@ + decimal(max as nat),
        ImeError::ContextTextTooLong { field, actual, max } => "context field "@ + field@ + " is "@
            + decimal(actual as nat) + " bytes; maximum is "@ + decimal(max as nat),
        ImeError::TooManyOutstandingActions { max } => "too many outstanding actions; maximum is "@
            + decimal(max as nat),
        ImeError::UnknownAction(id) => "unknown action id "@ + decimal(id.0 as nat),
        ImeError::StaleRevision { expected, actual } => "stale state revision "@ + decimal(
            actual.0 as nat,
        ) + "; current revision is "@ + decimal(expected.0 as nat),
        ImeError::UnknownCandidate(id) => "unknown candidate id "@ + decimal(id.0 as nat),
        ImeError::CounterExhausted(counter) => counter@ + " counter exhausted"@,
    }
}

fn digit_char(d: u64) -> (r: char)
    requires
        d < 10,
    ensures
        r == digit(d as nat),
{
    if d == 0 {
        '0'
    } else if d == 1 {
        '1'
    } else if d == 2 {
        '2'
    } else if d == 3 {
        '3'
    } else if d == 4 {
        '4'
    } else if d == 5 {
        '5'
    } else if d == 6 {
        '6'
    } else if d == 7 {
        '7'
    } else if d == 8 {
        '8'
    } else {
        '9'
    }
}

/// Appends the decimal representation of `n`.
fn push_decimal(s: &mut String, n: u64)
    ensures
        final(s)@ == old(s)@ + decimal(n as nat),
    decreases n,
{
    if n >= 10 {
        push_decimal(s, n / 10);
    }
    push_char(s, digit_char(n % 10));
    proof {
        if n >= 10 {
            assert(old(s)@ + decimal((n / 10) as nat) + seq![digit((n % 10) as nat)] =~= old(s)@
                + decimal(n as nat));
        } else {
            assert(old(s)@ + seq![digit(n as nat)] =~= old(s)@ + decimal(n as nat));
        }
    }
}

impl ImeError {
    /// A human-readable description of the error.
    pub fn message(&self) -> (r: String)
        ensures
            r@ == error_message(*self),
    {
        let mut s = String::new();
        match self {
            ImeError::InvalidConfig(reason) => {
                s.append("invalid engine config: ");
                s.append(reason);
            },
            ImeError::EventTextTooLong { actual, max } => {
                s.append("event text is ");
                push_decimal(&mut s, *actual as u64);
                s.append(" bytes; maximum is ");
                push_decimal(&mut s, *max as u64);
            },
            ImeError::CompositionTooLong { actual, max } => {
                s.append("composition would be ");
                push_decimal(&mut s, *actual as u64);
                s.append(" bytes; maximum is ");
                push_decimal(&mut s, *max as u64);
            },
            ImeError::ContextTextTooLong { field, actual, max } => {
                s.append("context field ");
                s.append(field);
                s.append(" is ");
                push_decimal(&mut s, *actual as u64);
                s.append(" bytes; maximum is ");
                push_decimal(&mut s, *max as u64);
            },
            ImeError::TooManyOutstandingActions { max } => {
                s.append("too many outstanding actions; maximum is ");
                push_decimal(&mut s, *max as u64);
            },
            ImeError::UnknownAction(id) => {
                s.append("unknown action id ");
                push_decimal(&mut s, id.0);
            },
            ImeError::StaleRevision { expected, actual } => {
                s.append("stale state revision ");
                push_decimal(&mut s, actual.0);
                s.append("; current revision is ");
                push_decimal(&mut s, expected.0);
            },
            ImeError::UnknownCandidate(id) => {
                s.append("unknown candidate id ");
                push_decimal(&mut s, id.0 as u64);
            },
            ImeError::CounterExhausted(counter) => {
                s.append(counter);
                s.append(" counter exhausted");
            },
        }
        proof {
            assert(Seq::<char>::empty() + "invalid engine config: "@ =~= "invalid engine config: "@);
        }
        s
    }
}

} // verus!
