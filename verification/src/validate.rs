//! The report of a failed XSD validation.

use vstd::prelude::*;

use crate::text::{decimal, usize_to_text};

verus! {

/// One error of a schema validation, as plain values.
pub struct SchemaError {
    /// The line of the error, if known.
    pub line: Option<i32>,
    /// The message, if any.
    pub message: Option<String>,
}

/// The number of errors listed in a report.
pub const REPORTED_ERRORS: usize = 15;

/// The text of a signed number.
pub open spec fn signed_decimal(n: int) -> Seq<char> {
    if n < 0 {
        "-"@ + decimal((-n) as nat)
    } else {
        decimal(n as nat)
    }
}

/// `n` in decimal, with a leading `-` when it is negative.
fn i32_to_text(n: i32) -> (r: String)
    ensures
        r@ == signed_decimal(n as int),
{
    if n < 0 {
        let magnitude: usize = (-(n as i64)) as usize;
        let mut s = String::from_str("-");
        let digits = usize_to_text(magnitude);
        s.append(digits.as_str());
        s
    } else {
        usize_to_text(n as usize)
    }
}

/// The report line of one error.
pub open spec fn error_line(e: SchemaError) -> Seq<char> {
    "   [ERROR] line "@ + match e.line {
        Some(l) => signed_decimal(l as int),
        None => "?"@,
    } + ": "@ + match e.message {
        Some(m) => m@,
        None => "Unknown error"@,
    } + "\n"@
}

/// The lines of the first `n` errors.
pub open spec fn error_lines(errors: Seq<SchemaError>, n: nat) -> Seq<char>
    decreases n,
{
    if n == 0 || errors.len() == 0 {
        seq![]
    } else if n > errors.len() {
        error_lines(errors, errors.len())
    } else {
        error_lines(errors, (n - 1) as nat) + error_line(errors[n - 1])
    }
}

/// The report for `filename`: a heading with the number of errors, the
/// first [`REPORTED_ERRORS`] errors, and how many more there are.
pub open spec fn spec_report(filename: Seq<char>, errors: Seq<SchemaError>) -> Seq<char> {
    "❌ "@ + filename + " failed XSD validation ("@ + decimal(errors.len()) + " errors):\n"@
        + error_lines(errors, REPORTED_ERRORS as nat) + if errors.len() > REPORTED_ERRORS {
        "   ... and "@ + decimal((errors.len() - REPORTED_ERRORS) as nat) + " more errors\n"@
    } else {
        seq![]
    }
}

/// Builds the report of a failed validation of `filename` (see [`spec_report`]).
pub fn build_schema_validation_error_report(filename: &str, errors: &Vec<SchemaError>) -> (r: String)
    ensures
        r@ == spec_report(filename@, errors@),
{
    let mut report = String::from_str("❌ ");
    report.append(filename);
    report.append(" failed XSD validation (");
    let n = usize_to_text(errors.len());
    report.append(n.as_str());
    report.append(" errors):\n");
    let ghost head = report@;
    let limit = if errors.len() < REPORTED_ERRORS { errors.len() } else { REPORTED_ERRORS };
    let mut i: usize = 0;
    while i < limit
        invariant
            i <= limit,
            limit <= errors.len(),
            limit == if errors.len() < REPORTED_ERRORS { errors.len() } else { REPORTED_ERRORS },
            report@ == head + error_lines(errors@, i as nat),
        decreases limit - i,
    {
        let e = &errors[i];
        report.append("   [ERROR] line ");
        match e.line {
            Some(l) => {
                let t = i32_to_text(l);
                report.append(t.as_str());
            },
            None => report.append("?"),
        }
        report.append(": ");
        match &e.message {
            Some(m) => report.append(m.as_str()),
            None => report.append("Unknown error"),
        }
        report.append("\n");
        proof {
            assert(error_lines(errors@, (i + 1) as nat) == error_lines(errors@, i as nat) + error_line(errors@[i as int]));
            assert(report@ =~= head + error_lines(errors@, (i + 1) as nat));
        }
        i += 1;
    }
    proof {
        if errors.len() > REPORTED_ERRORS {
            assert(error_lines(errors@, REPORTED_ERRORS as nat) == error_lines(errors@, limit as nat));
        } else {
            assert(error_lines(errors@, REPORTED_ERRORS as nat) == error_lines(errors@, errors.len() as nat));
        }
    }
    if errors.len() > REPORTED_ERRORS {
        report.append("   ... and ");
        let more = usize_to_text(errors.len() - REPORTED_ERRORS);
        report.append(more.as_str());
        report.append(" more errors\n");
    }
    report
}

} // verus!
