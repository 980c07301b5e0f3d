use vstd::prelude::*;
use vstd::string::StringExecFns;
use crate::json::{json_quoted, json_str, printable, lemma_printable_concat, lemma_quoted_printable};
use crate::runner::Metrics;
use crate::text::{decimal_text, spec_decimal, decimal_digits, lemma_decimal_reads_back};

verus! {

/// An optional text as a JSON value: a string literal, or `null`.
pub open spec fn json_optional(s: Option<Seq<char>>) -> Seq<char> {
    match s {
        Some(t) => json_quoted(t),
        None => "null"@,
    }
}

/// The JSON object, on one line, that reports one run of one property by
/// one tool.
pub open spec fn report_text(
    tool: Seq<char>,
    property: Seq<char>,
    status: Seq<char>,
    m: Metrics,
    counterexample: Option<Seq<char>>,
    error: Option<Seq<char>>,
) -> Seq<char> {
    "{\"status\":"@ + json_quoted(status) + ",\"tests\":"@ + spec_decimal(m.inputs as nat)
        + ",\"discards\":0,\"time\":"@ + json_quoted(spec_decimal(m.elapsed_us as nat) + "us"@)
        + ",\"counterexample\":"@ + json_optional(counterexample) + ",\"error\":"@
        + json_optional(error) + ",\"tool\":"@ + json_quoted(tool) + ",\"property\":"@
        + json_quoted(property) + "}"@
}

/// Writes an optional text as a JSON value.
fn json_optional_text(s: Option<&str>) -> (r: String)
    ensures
        r@ == json_optional(match s {
            Some(t) => Some(t@),
            None => None,
        }),
{
    match s {
        Some(t) => json_str(t),
        None => String::from_str("null"),
    }
}

/// Writes the report of one run.
pub fn report_line(
    tool: &str,
    property: &str,
    status: &str,
    m: Metrics,
    counterexample: Option<&str>,
    error: Option<&str>,
) -> (r: String)
    ensures
        r@ == report_text(
            tool@,
            property@,
            status@,
            m,
            match counterexample {
                Some(t) => Some(t@),
                None => None,
            },
            match error {
                Some(t) => Some(t@),
                None => None,
            },
        ),
{
    let mut r = String::from_str("{\"status\":");
    r.append(json_str(status).as_str());
    r.append(",\"tests\":");
    r.append(decimal_text(m.inputs as u128).as_str());
    r.append(",\"discards\":0,\"time\":");
    let mut time = decimal_text(m.elapsed_us);
    time.append("us");
    r.append(json_str(time.as_str()).as_str());
    r.append(",\"counterexample\":");
    r.append(json_optional_text(counterexample).as_str());
    r.append(",\"error\":");
    r.append(json_optional_text(error).as_str());
    r.append(",\"tool\":");
    r.append(json_str(tool).as_str());
    r.append(",\"property\":");
    r.append(json_str(property).as_str());
    r.append("}");
    r
}

/// Writes the report of a run that ended with `status`: `passed`, or
/// `failed` with the diagnostic as counterexample.
pub fn outcome_report(tool: &str, property: &str, status: &Result<(), String>, m: Metrics) -> (r: String)
    ensures
        match status {
            Ok(_) => r@ == report_text(tool@, property@, "passed"@, m, None, None),
            Err(e) => r@ == report_text(tool@, property@, "failed"@, m, Some(e@), None),
        },
{
    match status {
        Ok(()) => report_line(tool, property, "passed", m, None, None),
        Err(e) => report_line(tool, property, "failed", m, Some(e.as_str()), None),
    }
}

/// Writes the report of a run that was cut short by a panic in the
/// adapter, with the panic's text as error and nothing measured.
pub fn aborted_report(tool: &str, property: &str, error: &str) -> (r: String)
    ensures
        r@ == report_text(tool@, property@, "aborted"@, Metrics { inputs: 0, elapsed_us: 0 }, None, Some(error@)),
{
    report_line(tool, property, "aborted", Metrics::default(), None, Some(error))
}


/// Decimal notation is printable.
proof fn lemma_decimal_printable(n: nat)
    ensures
        printable(spec_decimal(n)),
{
    lemma_decimal_reads_back(n);
    let d = decimal_digits();
    assert forall|i: int| 0 <= i < spec_decimal(n).len() implies (#[trigger] spec_decimal(n)[i] as u32) >= 0x20 by {
        assert(d.contains(spec_decimal(n)[i]));
        let k: int = choose|k: int| 0 <= k < d.len() && d[k] == spec_decimal(n)[i];
        assert(d[k] as u32 >= 0x20);
    }
}

/// Law: every report is a single printable line: whatever the tool,
/// property, status and diagnostics hold, the report holds no line break or
/// other control character, so each run prints exactly one line.
pub proof fn lemma_report_single_line(
    tool: Seq<char>,
    property: Seq<char>,
    status: Seq<char>,
    m: Metrics,
    counterexample: Option<Seq<char>>,
    error: Option<Seq<char>>,
)
    ensures
        printable(report_text(tool, property, status, m, counterexample, error)),
{
    reveal_strlit("{\"status\":");
    reveal_strlit(",\"tests\":");
    reveal_strlit(",\"discards\":0,\"time\":");
    reveal_strlit("us");
    reveal_strlit(",\"counterexample\":");
    reveal_strlit(",\"error\":");
    reveal_strlit(",\"tool\":");
    reveal_strlit(",\"property\":");
    reveal_strlit("}");
    reveal_strlit("null");
    let l1 = "{\"status\":"@;
    let l2 = ",\"tests\":"@;
    let l3 = ",\"discards\":0,\"time\":"@;
    let l4 = ",\"counterexample\":"@;
    let l5 = ",\"error\":"@;
    let l6 = ",\"tool\":"@;
    let l7 = ",\"property\":"@;
    let l8 = "}"@;
    assert(printable(l1));
    assert(printable(l2));
    assert(printable(l3));
    assert(printable(l4));
    assert(printable(l5));
    assert(printable(l6));
    assert(printable(l7));
    assert(printable(l8));
    assert(printable("null"@));
    lemma_quoted_printable(status);
    lemma_quoted_printable(tool);
    lemma_quoted_printable(property);
    lemma_quoted_printable(spec_decimal(m.elapsed_us as nat) + "us"@);
    lemma_decimal_printable(m.inputs as nat);
    match counterexample {
        Some(t) => lemma_quoted_printable(t),
        None => {},
    }
    match error {
        Some(t) => lemma_quoted_printable(t),
        None => {},
    }
    let c = json_optional(counterexample);
    let e = json_optional(error);
    let s0 = l1 + json_quoted(status);
    lemma_printable_concat(l1, json_quoted(status));
    let s1 = s0 + l2;
    lemma_printable_concat(s0, l2);
    let s2 = s1 + spec_decimal(m.inputs as nat);
    lemma_printable_concat(s1, spec_decimal(m.inputs as nat));
    let s3 = s2 + l3;
    lemma_printable_concat(s2, l3);
    let s4 = s3 + json_quoted(spec_decimal(m.elapsed_us as nat) + "us"@);
    lemma_printable_concat(s3, json_quoted(spec_decimal(m.elapsed_us as nat) + "us"@));
    let s5 = s4 + l4;
    lemma_printable_concat(s4, l4);
    let s6 = s5 + c;
    lemma_printable_concat(s5, c);
    let s7 = s6 + l5;
    lemma_printable_concat(s6, l5);
    let s8 = s7 + e;
    lemma_printable_concat(s7, e);
    let s9 = s8 + l6;
    lemma_printable_concat(s8, l6);
    let s10 = s9 + json_quoted(tool);
    lemma_printable_concat(s9, json_quoted(tool));
    let s11 = s10 + l7;
    lemma_printable_concat(s10, l7);
    let s12 = s11 + json_quoted(property);
    lemma_printable_concat(s11, json_quoted(property));
    lemma_printable_concat(s12, l8);
    assert(report_text(tool, property, status, m, counterexample, error) == s12 + l8);
}

} // verus!
