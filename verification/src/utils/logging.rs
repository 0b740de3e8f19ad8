//! The lines that the engine writes to its log. Writing them is the host's
//! business.

use crate::utils::bytes::format_bytes;
use crate::utils::bytes::spec_format_bytes;
use crate::utils::text::decimal;
use crate::utils::text::push_decimal;
use vstd::prelude::*;
use vstd::string::*;

verus! {

/// The details of a performance line: " (details)", or nothing.
pub open spec fn details_text(details: Option<&str>) -> Seq<char> {
    match details {
        Some(d) => " ("@ + d@ + ")"@,
        None => Seq::empty(),
    }
}

/// The log line for an operation that took `duration_ms` milliseconds.
pub open spec fn performance_line(operation: Seq<char>, duration_ms: u64, details: Option<&str>) -> Seq<
    char,
> {
    "Performance: "@ + operation + " took "@ + decimal(duration_ms as nat) + "ms"@ + details_text(
        details,
    )
}

/// The log line for a component that uses `bytes` bytes.
pub open spec fn memory_line(component: Seq<char>, bytes: usize) -> Seq<char> {
    "Memory: "@ + component + " using "@ + decimal(bytes as nat) + " ("@ + spec_format_bytes(
        bytes as int,
    ) + ")"@
}

/// Log performance metrics: the line to be logged.
pub fn log_performance(operation: &str, duration_ms: u64, details: Option<&str>) -> (line: String)
    ensures
        line@ == performance_line(operation@, duration_ms, details),
{
    let mut line = String::from_str("Performance: ");
    line.append(operation);
    line.append(" took ");
    push_decimal(&mut line, duration_ms as u128);
    line.append("ms");
    match details {
        Some(d) => {
            line.append(" (");
            line.append(d);
            line.append(")");
            proof {
                assert(line@ =~= performance_line(operation@, duration_ms, details));
            }
        },
        None => {
            proof {
                assert(line@ =~= performance_line(operation@, duration_ms, details));
            }
        },
    }
    line
}

/// Log memory usage: the line to be logged.
pub fn log_memory_usage(component: &str, bytes: usize) -> (line: String)
    ensures
        line@ == memory_line(component@, bytes),
{
    let mut line = String::from_str("Memory: ");
    line.append(component);
    line.append(" using ");
    push_decimal(&mut line, bytes as u128);
    line.append(" (");
    let shown = format_bytes(bytes);
    line.append(shown.as_str());
    line.append(")");
    proof {
        assert(line@ =~= memory_line(component@, bytes));
    }
    line
}

} // verus!
