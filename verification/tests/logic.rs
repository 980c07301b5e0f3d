use toml_etna::generate::bytes_to_toml_str;
use toml_etna::json::json_str;
use toml_etna::property::{
    does_not_panic_verdict, input_in_domain, panic_message, terminates_verdict, PanicPayload,
    ParseOutcome, PropertyResult, WorkerOutcome, MAX_INPUT_BYTES, PARSE_TIMEOUT_MS,
    WORKER_STACK_BYTES,
};
use toml_etna::report::{aborted_report, outcome_report, report_line};
use toml_etna::runner::{
    all_properties, case_passes, case_verdict, combine_outcomes, etna_outcome, etna_panic_status,
    hegel_failure_outcome, hegel_unknown_marker, join_strings, optional_verdict,
    run_status_result, select_property, select_tool, to_err, totals_fit, unknown_property_message,
    unknown_tool_message, witnesses, CaseVerdict, Metrics, Outcome, Property, PropertySelection,
    RunStatus, Tool,
};
use toml_etna::text::{chars_of, decimal_text, starts_with, str_equals, strip_prefix};

fn fail_text(r: &PropertyResult) -> Option<String> {
    match r {
        PropertyResult::Fail(m) => Some(m.clone()),
        _ => None,
    }
}

#[test]
fn domain_bound_counts_utf8_bytes() {
    assert_eq!(MAX_INPUT_BYTES, 4096);
    assert!(input_in_domain(""));
    assert!(input_in_domain(&"a".repeat(4096)));
    assert!(!input_in_domain(&"a".repeat(4097)));
    // two bytes per character
    assert!(input_in_domain(&"\u{e9}".repeat(2048)));
    assert!(!input_in_domain(&"\u{e9}".repeat(2049)));
    // four bytes per character
    assert!(input_in_domain(&"\u{1F600}".repeat(1024)));
    assert!(!input_in_domain(&"\u{1F600}".repeat(1025)));
}

#[test]
fn no_panic_verdicts() {
    assert!(matches!(does_not_panic_verdict(ParseOutcome::Completed), PropertyResult::Pass));
    let r = does_not_panic_verdict(ParseOutcome::Panicked(PanicPayload::Text("all items have spans".to_string())));
    assert_eq!(fail_text(&r).unwrap(), "parser panicked: all items have spans");
    let r = does_not_panic_verdict(ParseOutcome::Panicked(PanicPayload::Opaque));
    assert_eq!(fail_text(&r).unwrap(), "parser panicked: parser panicked");
}

#[test]
fn termination_verdicts() {
    assert_eq!(PARSE_TIMEOUT_MS, 2000);
    assert_eq!(WORKER_STACK_BYTES, 262144);
    assert!(matches!(
        terminates_verdict(WorkerOutcome::Finished(ParseOutcome::Completed)),
        PropertyResult::Pass
    ));
    let r = terminates_verdict(WorkerOutcome::Finished(ParseOutcome::Panicked(PanicPayload::Text("boom".to_string()))));
    assert_eq!(fail_text(&r).unwrap(), "parser panicked on worker: boom");
    let r = terminates_verdict(WorkerOutcome::Finished(ParseOutcome::Panicked(PanicPayload::Opaque)));
    assert_eq!(fail_text(&r).unwrap(), "parser panicked on worker: parser thread panicked");
    let r = terminates_verdict(WorkerOutcome::TimedOut);
    assert_eq!(fail_text(&r).unwrap(), "parser failed to terminate within 2000 ms");
    let r = terminates_verdict(WorkerOutcome::Disconnected);
    assert_eq!(fail_text(&r).unwrap(), "parser worker disconnected without result");
    let r = terminates_verdict(WorkerOutcome::SpawnFailed("no threads".to_string()));
    assert_eq!(fail_text(&r).unwrap(), "failed to spawn worker: no threads");
}

#[test]
fn panic_message_prefers_the_payload_text() {
    assert_eq!(panic_message(&PanicPayload::Text("x".to_string()), "fallback"), "x");
    assert_eq!(panic_message(&PanicPayload::Opaque, "fallback"), "fallback");
}

#[test]
fn to_err_keeps_only_failures() {
    assert_eq!(to_err(PropertyResult::Pass), Ok(()));
    assert_eq!(to_err(PropertyResult::Discard), Ok(()));
    assert_eq!(to_err(PropertyResult::Fail("bad".to_string())), Err("bad".to_string()));
}

#[test]
fn metrics_combine_adds_fields() {
    let a = Metrics { inputs: 3, elapsed_us: 10 };
    let b = Metrics { inputs: 4, elapsed_us: 5 };
    let c = a.combine(b);
    assert_eq!((c.inputs, c.elapsed_us), (7, 15));
    let d = b.combine(a);
    assert_eq!((d.inputs, d.elapsed_us), (7, 15));
    let z = Metrics::default();
    assert_eq!((z.inputs, z.elapsed_us), (0, 0));
}

#[test]
fn combined_outcome_keeps_first_failure_and_sums() {
    let outcomes: Vec<Outcome> = vec![
        (Ok(()), Metrics { inputs: 1, elapsed_us: 2 }),
        (Err("first".to_string()), Metrics { inputs: 3, elapsed_us: 4 }),
        (Err("second".to_string()), Metrics { inputs: 5, elapsed_us: 6 }),
    ];
    let (status, m) = combine_outcomes(&outcomes);
    assert_eq!(status, Err("first".to_string()));
    assert_eq!((m.inputs, m.elapsed_us), (9, 12));
    let all_ok: Vec<Outcome> = vec![
        (Ok(()), Metrics { inputs: 1, elapsed_us: 1 }),
        (Ok(()), Metrics { inputs: 1, elapsed_us: 1 }),
    ];
    let (status, m) = combine_outcomes(&all_ok);
    assert_eq!(status, Ok(()));
    assert_eq!((m.inputs, m.elapsed_us), (2, 2));
    let (status, m) = combine_outcomes(&Vec::new());
    assert_eq!(status, Ok(()));
    assert_eq!((m.inputs, m.elapsed_us), (0, 0));
}

#[test]
fn generated_strings_use_the_alphabet() {
    assert_eq!(bytes_to_toml_str(&[]), "");
    assert_eq!(bytes_to_toml_str(&[0, 1, 2, 3, 27, 28, 255]), "abcx#ax");
    assert_eq!(bytes_to_toml_str(&[18, 19, 21, 22, 23, 24, 25]), "\n\t()\"'\\");
    let all: Vec<u8> = (0..=255).collect();
    let s = bytes_to_toml_str(&all);
    assert_eq!(s.chars().count(), 256);
    assert_eq!(s.len(), 256);
    let alphabet = "abcxyz012_-.= []{}\n\t,()\"'\\:#";
    assert!(s.chars().all(|c| alphabet.contains(c)));
    assert!(input_in_domain(&bytes_to_toml_str(&vec![7u8; 4096])));
    assert!(!input_in_domain(&bytes_to_toml_str(&vec![7u8; 4097])));
}

#[test]
fn json_strings_escape_specials() {
    assert_eq!(json_str(""), "\"\"");
    assert_eq!(json_str("plain"), "\"plain\"");
    assert_eq!(json_str("a\"b\\c\nd\re\tf"), "\"a\\\"b\\\\c\\nd\\re\\tf\"");
    assert_eq!(json_str("\u{1}\u{1f}\u{0}"), "\"\\u0001\\u001f\\u0000\"");
    assert_eq!(json_str("\u{e9}\u{7f}"), "\"\u{e9}\u{7f}\"");
    let escaped = json_str("line\nbreak\u{2}");
    assert!(escaped.chars().all(|c| (c as u32) >= 0x20));
}

#[test]
fn decimal_writes_like_display() {
    for n in [0u128, 7, 10, 99, 2000, 123456789, u64::MAX as u128, u128::MAX] {
        assert_eq!(decimal_text(n), n.to_string());
    }
}

#[test]
fn text_helpers() {
    assert_eq!(chars_of("h\u{e9}!"), vec!['h', '\u{e9}', '!']);
    assert!(str_equals("All", "All"));
    assert!(!str_equals("All", "Al"));
    assert!(!str_equals("abc", "abd"));
    assert!(starts_with("Unknown property for etna: x", "Unknown property for etna"));
    assert!(!starts_with("Unknown", "Unknown property"));
    assert!(starts_with("x", ""));
    assert_eq!(strip_prefix("ab:cd", "ab:"), Some("cd".to_string()));
    assert_eq!(strip_prefix("ab:cd", "b"), None);
    assert_eq!(strip_prefix("ab", "ab"), Some(String::new()));
}

#[test]
fn property_and_tool_names() {
    assert_eq!(select_property("All"), PropertySelection::All);
    assert_eq!(select_property("ParseTerminates"), PropertySelection::One(Property::ParseTerminates));
    assert_eq!(select_property("ParseDoesNotPanic"), PropertySelection::One(Property::ParseDoesNotPanic));
    assert_eq!(select_property("parseterminates"), PropertySelection::Unknown);
    for p in all_properties() {
        assert_eq!(select_property(p.name()), PropertySelection::One(p));
    }
    assert_eq!(all_properties(), vec![Property::ParseTerminates, Property::ParseDoesNotPanic]);
    for t in [Tool::Etna, Tool::Proptest, Tool::Quickcheck, Tool::Crabcheck, Tool::Hegel] {
        assert_eq!(select_tool(t.name()), Some(t));
    }
    assert_eq!(select_tool("afl"), None);
    assert_eq!(unknown_property_message(Tool::Etna, "X"), "Unknown property for etna: X");
    assert_eq!(unknown_property_message(Tool::Quickcheck, "Y"), "Unknown property for quickcheck: Y");
    assert_eq!(unknown_tool_message("afl"), "Unknown tool: afl");
}

#[test]
fn witness_inputs() {
    assert_eq!(witnesses(Property::ParseTerminates), vec!["key = a)b\n", ")\n"]);
    assert_eq!(
        witnesses(Property::ParseDoesNotPanic),
        vec!["={=<=u==", "==\n[._[._", "a=[{[]-]{\na.", "={[]\r]."]
    );
}

#[test]
fn etna_outcomes() {
    let (s, m) = etna_outcome(Ok(()), 42);
    assert_eq!(s, Ok(()));
    assert_eq!((m.inputs, m.elapsed_us), (1, 42));
    let (s, m) = etna_outcome(Err("parser panicked: x".to_string()), 42);
    assert_eq!(s, Err("parser panicked: x".to_string()));
    assert_eq!((m.inputs, m.elapsed_us), (1, 42));
    let msg = unknown_property_message(Tool::Etna, "Nope");
    let (s, m) = etna_outcome(Err(msg.clone()), 42);
    assert_eq!(s, Err(msg));
    assert_eq!((m.inputs, m.elapsed_us), (0, 0));
    assert_eq!(
        etna_panic_status(&PanicPayload::Text("oops".to_string()), "ParseTerminates"),
        Err("(panic: oops)".to_string())
    );
    assert_eq!(
        etna_panic_status(&PanicPayload::Opaque, "ParseTerminates"),
        Err("(panic: panic in ParseTerminates)".to_string())
    );
}

#[test]
fn framework_verdicts() {
    let fail = PropertyResult::Fail("f".to_string());
    assert!(case_passes(&PropertyResult::Pass));
    assert!(case_passes(&PropertyResult::Discard));
    assert!(!case_passes(&fail));
    assert_eq!(case_verdict(&PropertyResult::Pass), CaseVerdict::Passed);
    assert_eq!(case_verdict(&fail), CaseVerdict::Failed);
    assert_eq!(case_verdict(&PropertyResult::Discard), CaseVerdict::Discarded);
    assert_eq!(optional_verdict(&PropertyResult::Pass), Some(true));
    assert_eq!(optional_verdict(&fail), Some(false));
    assert_eq!(optional_verdict(&PropertyResult::Discard), None);
}

#[test]
fn run_statuses() {
    assert_eq!(run_status_result(RunStatus::Finished), Ok(()));
    assert_eq!(
        run_status_result(RunStatus::Failed(vec!["\"a)b\"".to_string(), "x".to_string()])),
        Err("(\"a)b\" x)".to_string())
    );
    assert_eq!(run_status_result(RunStatus::Failed(vec![])), Err("()".to_string()));
    assert_eq!(run_status_result(RunStatus::Aborted("io".to_string())), Err("aborted: io".to_string()));
    assert_eq!(run_status_result(RunStatus::TimedOut), Err("timed out".to_string()));
    assert_eq!(run_status_result(RunStatus::GaveUpAfter(17)), Err("gave up after 17 tests".to_string()));
    assert_eq!(
        run_status_result(RunStatus::GaveUpWith { passed: 3, discarded: 1000 }),
        Err("gave up: passed=3, discarded=1000".to_string())
    );
    assert_eq!(join_strings(&vec!["a".to_string(), "b".to_string(), "c".to_string()], ", "), "a, b, c");
}

#[test]
fn hegel_failures() {
    let m = Metrics { inputs: 9, elapsed_us: 99 };
    let marker = hegel_unknown_marker("Foo");
    assert_eq!(marker, "__unknown_property:Foo");
    let (s, got) = hegel_failure_outcome(&marker, m);
    assert_eq!(s, Err("Unknown property for hegel: Foo".to_string()));
    assert_eq!((got.inputs, got.elapsed_us), (0, 0));
    let (s, got) = hegel_failure_outcome("Property test failed: (\"x\")", m);
    assert_eq!(s, Err("(\"x\")".to_string()));
    assert_eq!((got.inputs, got.elapsed_us), (9, 99));
    let (s, _) = hegel_failure_outcome("something else", m);
    assert_eq!(s, Err("something else".to_string()));
}

#[test]
fn report_lines() {
    let m = Metrics { inputs: 12, elapsed_us: 3456 };
    assert_eq!(
        report_line("etna", "All", "passed", m, None, None),
        "{\"status\":\"passed\",\"tests\":12,\"discards\":0,\"time\":\"3456us\",\"counterexample\":null,\"error\":null,\"tool\":\"etna\",\"property\":\"All\"}"
    );
    assert_eq!(
        outcome_report("proptest", "ParseTerminates", &Err("(\"a\\nb\")".to_string()), m),
        "{\"status\":\"failed\",\"tests\":12,\"discards\":0,\"time\":\"3456us\",\"counterexample\":\"(\\\"a\\\\nb\\\")\",\"error\":null,\"tool\":\"proptest\",\"property\":\"ParseTerminates\"}"
    );
    assert_eq!(
        outcome_report("hegel", "All", &Ok(()), m),
        report_line("hegel", "All", "passed", m, None, None)
    );
    assert_eq!(
        aborted_report("quickcheck", "ParseDoesNotPanic", "boom"),
        "{\"status\":\"aborted\",\"tests\":0,\"discards\":0,\"time\":\"0us\",\"counterexample\":null,\"error\":\"boom\",\"tool\":\"quickcheck\",\"property\":\"ParseDoesNotPanic\"}"
    );
}

#[test]
fn totals_fit_detects_overflow() {
    let ok: Vec<Outcome> = vec![
        (Ok(()), Metrics { inputs: u64::MAX - 1, elapsed_us: 0 }),
        (Ok(()), Metrics { inputs: 1, elapsed_us: u128::MAX }),
    ];
    assert!(totals_fit(&ok));
    let too_many: Vec<Outcome> = vec![
        (Ok(()), Metrics { inputs: u64::MAX, elapsed_us: 0 }),
        (Ok(()), Metrics { inputs: 1, elapsed_us: 0 }),
    ];
    assert!(!totals_fit(&too_many));
    let too_long: Vec<Outcome> = vec![
        (Ok(()), Metrics { inputs: 0, elapsed_us: u128::MAX }),
        (Err("x".to_string()), Metrics { inputs: 0, elapsed_us: 1 }),
    ];
    assert!(!totals_fit(&too_long));
}

#[test]
fn json_literals_decode_back() {
    // A minimal JSON string decoder, for the escapes that JSON defines.
    fn decode(lit: &str) -> Option<String> {
        let cs: Vec<char> = lit.chars().collect();
        if cs.len() < 2 || cs[0] != '"' || cs[cs.len() - 1] != '"' {
            return None;
        }
        let body = &cs[1..cs.len() - 1];
        let mut out = String::new();
        let mut i = 0;
        while i < body.len() {
            let c = body[i];
            if c == '\\' {
                let e = *body.get(i + 1)?;
                match e {
                    '"' => out.push('"'),
                    '\\' => out.push('\\'),
                    '/' => out.push('/'),
                    'b' => out.push('\u{8}'),
                    'f' => out.push('\u{c}'),
                    'n' => out.push('\n'),
                    'r' => out.push('\r'),
                    't' => out.push('\t'),
                    'u' => {
                        let hex: String = body.get(i + 2..i + 6)?.iter().collect();
                        out.push(char::from_u32(u32::from_str_radix(&hex, 16).ok()?)?);
                        i += 4;
                    }
                    _ => return None,
                }
                i += 2;
            } else if c == '"' || (c as u32) < 0x20 {
                return None;
            } else {
                out.push(c);
                i += 1;
            }
        }
        Some(out)
    }
    for s in ["", "plain", "a\"b\\c", "\n\r\t\u{0}\u{1f}\u{7f}", "\u{e9}\u{1F600}/x", "key = a)b\n"] {
        assert_eq!(decode(&json_str(s)), Some(s.to_string()));
    }
}
