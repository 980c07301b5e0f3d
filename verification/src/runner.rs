use vstd::prelude::*;
use vstd::string::StringExecFns;
use crate::property::{PropertyResult, PanicPayload, panic_text, panic_message};
use crate::property::spec_input_in_domain;
use vstd::utf8::{is_ascii_chars, is_ascii_chars_encode_utf8};
use crate::text::{strip_prefix, starts_with, decimal_text, spec_decimal};

verus! {

/// What a run measured: how many inputs it tried and how long it took.
#[derive(Debug, Clone, Copy)]
pub struct Metrics {
    pub inputs: u64,
    pub elapsed_us: u128,
}

impl Default for Metrics {
    fn default() -> (m: Metrics)
        ensures
            m.inputs == 0,
            m.elapsed_us == 0,
    {
        Metrics { inputs: 0, elapsed_us: 0 }
    }
}

impl Metrics {
    /// Adds two measurements field by field. An addition that overflows
    /// panics in the original's arithmetic, so such inputs are left out.
    pub fn combine(self, other: Metrics) -> (m: Metrics)
        requires
            self.inputs + other.inputs <= u64::MAX,
            self.elapsed_us + other.elapsed_us <= u128::MAX,
        ensures
            m.inputs == self.inputs + other.inputs,
            m.elapsed_us == self.elapsed_us + other.elapsed_us,
    {
        Metrics { inputs: self.inputs + other.inputs, elapsed_us: self.elapsed_us + other.elapsed_us }
    }
}

/// The status and the measurements of one property run.
pub type Outcome = (Result<(), String>, Metrics);

/// The status a framework reports for one property result: an input in the
/// domain that passed, and an input outside it, are both fine; a failure
/// carries its diagnostic.
pub fn to_err(r: PropertyResult) -> (res: Result<(), String>)
    ensures
        match r {
            PropertyResult::Fail(m) => res == Err::<(), String>(m),
            _ => res is Ok,
        },
{
    match r {
        PropertyResult::Pass | PropertyResult::Discard => Ok(()),
        PropertyResult::Fail(m) => Err(m),
    }
}

/// Total inputs over a sequence of outcomes.
pub open spec fn total_inputs(s: Seq<Outcome>) -> nat
    decreases s.len(),
{
    if s.len() == 0 {
        0
    } else {
        total_inputs(s.drop_last()) + s.last().1.inputs as nat
    }
}

/// Total time over a sequence of outcomes.
pub open spec fn total_elapsed(s: Seq<Outcome>) -> nat
    decreases s.len(),
{
    if s.len() == 0 {
        0
    } else {
        total_elapsed(s.drop_last()) + s.last().1.elapsed_us as nat
    }
}

/// The diagnostic of the first outcome that failed, or `None` when none did.
pub open spec fn first_failure(s: Seq<Outcome>) -> Option<String>
    decreases s.len(),
{
    if s.len() == 0 {
        None
    } else {
        match first_failure(s.drop_last()) {
            Some(e) => Some(e),
            None => match s.last().0 {
                Ok(_) => None,
                Err(e) => Some(e),
            },
        }
    }
}

/// A status read as its diagnostic, if it has one.
pub open spec fn failure_of(r: Result<(), String>) -> Option<String> {
    match r {
        Ok(_) => None,
        Err(e) => Some(e),
    }
}

/// Totals never shrink when more outcomes follow.
proof fn lemma_totals_grow(s: Seq<Outcome>, i: int)
    requires
        0 <= i <= s.len(),
    ensures
        total_inputs(s.take(i)) <= total_inputs(s),
        total_elapsed(s.take(i)) <= total_elapsed(s),
    decreases s.len() - i,
{
    if i < s.len() {
        lemma_totals_grow(s, i + 1);
        assert(s.take(i + 1).drop_last() =~= s.take(i));
    } else {
        assert(s.take(i) =~= s);
    }
}

/// Whether the measurements of `outcomes` can be added up without
/// overflow, which `combine_outcomes` needs.
pub fn totals_fit(outcomes: &Vec<Outcome>) -> (b: bool)
    ensures
        b == (total_inputs(outcomes@) <= u64::MAX && total_elapsed(outcomes@) <= u128::MAX),
{
    let mut inputs: u64 = 0;
    let mut elapsed: u128 = 0;
    let mut i: usize = 0;
    while i < outcomes.len()
        invariant
            0 <= i <= outcomes@.len(),
            inputs == total_inputs(outcomes@.take(i as int)),
            elapsed == total_elapsed(outcomes@.take(i as int)),
        decreases outcomes@.len() - i,
    {
        proof {
            lemma_totals_grow(outcomes@, i + 1);
            assert(outcomes@.take(i + 1).drop_last() =~= outcomes@.take(i as int));
            assert(outcomes@.take(i + 1).last() == outcomes@[i as int]);
        }
        match inputs.checked_add(outcomes[i].1.inputs) {
            Some(n) => {
                inputs = n;
            },
            None => {
                return false;
            },
        }
        match elapsed.checked_add(outcomes[i].1.elapsed_us) {
            Some(n) => {
                elapsed = n;
            },
            None => {
                return false;
            },
        }
        i = i + 1;
    }
    assert(outcomes@.take(outcomes@.len() as int) =~= outcomes@);
    true
}

/// Folds the outcomes of running every property in turn into one: the
/// measurements add up, and the status is that of the first failure.
pub fn combine_outcomes(outcomes: &Vec<Outcome>) -> (res: Outcome)
    requires
        total_inputs(outcomes@) <= u64::MAX,
        total_elapsed(outcomes@) <= u128::MAX,
    ensures
        failure_of(res.0) == first_failure(outcomes@),
        res.1.inputs == total_inputs(outcomes@),
        res.1.elapsed_us == total_elapsed(outcomes@),
        forall|k: int|
            0 <= k < outcomes@.len() && (#[trigger] outcomes@[k]).0 is Err && (forall|j: int|
                0 <= j < k ==> (#[trigger] outcomes@[j]).0 is Ok) ==> res.0 == outcomes@[k].0,
        (forall|j: int| 0 <= j < outcomes@.len() ==> (#[trigger] outcomes@[j]).0 is Ok) ==> res.0 is Ok,
{
    let mut total = Metrics::default();
    let mut status: Result<(), String> = Ok(());
    let mut i: usize = 0;
    while i < outcomes.len()
        invariant
            0 <= i <= outcomes@.len(),
            total_inputs(outcomes@) <= u64::MAX,
            total_elapsed(outcomes@) <= u128::MAX,
            total.inputs == total_inputs(outcomes@.take(i as int)),
            total.elapsed_us == total_elapsed(outcomes@.take(i as int)),
            failure_of(status) == first_failure(outcomes@.take(i as int)),
        decreases outcomes@.len() - i,
    {
        proof {
            lemma_totals_grow(outcomes@, i + 1);
            assert(outcomes@.take(i + 1).drop_last() =~= outcomes@.take(i as int));
            assert(outcomes@.take(i + 1).last() == outcomes@[i as int]);
        }
        let m = outcomes[i].1;
        total = total.combine(m);
        match &outcomes[i].0 {
            Ok(()) => {},
            Err(e) => {
                if status.is_ok() {
                    status = Err(e.clone());
                }
            },
        }
        i = i + 1;
    }
    assert(outcomes@.take(outcomes@.len() as int) =~= outcomes@);
    proof {
        lemma_first_failure_ok_iff_all_ok(outcomes@);
        assert forall|k: int|
            0 <= k < outcomes@.len() && (#[trigger] outcomes@[k]).0 is Err && (forall|j: int|
                0 <= j < k ==> (#[trigger] outcomes@[j]).0 is Ok) implies status == outcomes@[k].0 by {
            lemma_earliest_failure_wins(outcomes@, k);
        }
    }
    (status, total)
}

/// Law: the combined status is `Ok` exactly when every property's status
/// is, and when it is not, it is the status of one of the properties.
pub proof fn lemma_first_failure_ok_iff_all_ok(s: Seq<Outcome>)
    ensures
        first_failure(s) is None <==> forall|i: int| 0 <= i < s.len() ==> (#[trigger] s[i]).0 is Ok,
        first_failure(s) is Some ==> exists|i: int| 0 <= i < s.len() && failure_of((#[trigger] s[i]).0) == first_failure(s),
    decreases s.len(),
{
    if s.len() > 0 {
        let p = s.drop_last();
        lemma_first_failure_ok_iff_all_ok(p);
        assert forall|i: int| 0 <= i < p.len() implies #[trigger] p[i] == s[i] by {}
        assert(s[s.len() - 1] == s.last());
        if first_failure(p) is Some {
            let i: int = choose|i: int| 0 <= i < p.len() && failure_of((#[trigger] p[i]).0) == first_failure(p);
            assert(s[i] == p[i]);
            assert(!(s[i].0 is Ok));
        } else if s.last().0 is Ok {
            assert forall|i: int| 0 <= i < s.len() implies (#[trigger] s[i]).0 is Ok by {
                if i < p.len() {
                    assert(p[i] == s[i]);
                }
            }
        } else {
            assert(!(s[s.len() - 1].0 is Ok));
            assert(failure_of(s[s.len() - 1].0) == first_failure(s));
        }
    }
}


/// The properties of the workload.
#[derive(Debug, Clone, Copy, PartialEq, Eq, Structural)]
pub enum Property {
    ParseTerminates,
    ParseDoesNotPanic,
}

/// The name a property goes by on the command line and in reports.
pub open spec fn property_name_text(p: Property) -> Seq<char> {
    match p {
        Property::ParseTerminates => "ParseTerminates"@,
        Property::ParseDoesNotPanic => "ParseDoesNotPanic"@,
    }
}

impl Property {
    /// Computes `property_name_text`.
    pub fn name(self) -> (r: &'static str)
        ensures
            r@ == property_name_text(self),
            self == Property::ParseTerminates ==> r@ == "ParseTerminates"@,
            self == Property::ParseDoesNotPanic ==> r@ == "ParseDoesNotPanic"@,
    {
        match self {
            Property::ParseTerminates => "ParseTerminates",
            Property::ParseDoesNotPanic => "ParseDoesNotPanic",
        }
    }
}

/// Every property, in the order that `All` runs them.
pub fn all_properties() -> (v: Vec<Property>)
    ensures
        v@ == seq![Property::ParseTerminates, Property::ParseDoesNotPanic],
{
    let v: Vec<Property> = vec![Property::ParseTerminates, Property::ParseDoesNotPanic];
    assert(v@ =~= seq![Property::ParseTerminates, Property::ParseDoesNotPanic]);
    v
}

/// What a property argument on the command line asks for.
#[derive(Debug, Clone, Copy, PartialEq, Eq, Structural)]
pub enum PropertySelection {
    /// Every property, one after the other.
    All,
    /// One property.
    One(Property),
    /// A name that no property goes by.
    Unknown,
}

/// How a property argument is read.
pub open spec fn spec_select_property(name: Seq<char>) -> PropertySelection {
    if name == "All"@ {
        PropertySelection::All
    } else if name == "ParseTerminates"@ {
        PropertySelection::One(Property::ParseTerminates)
    } else if name == "ParseDoesNotPanic"@ {
        PropertySelection::One(Property::ParseDoesNotPanic)
    } else {
        PropertySelection::Unknown
    }
}

/// Reads a property argument.
pub fn select_property(name: &str) -> (r: PropertySelection)
    ensures
        r == spec_select_property(name@),
        name@ == "All"@ ==> r == PropertySelection::All,
        name@ == "ParseTerminates"@ ==> r == PropertySelection::One(Property::ParseTerminates),
        name@ == "ParseDoesNotPanic"@ ==> r == PropertySelection::One(Property::ParseDoesNotPanic),
        r == PropertySelection::Unknown <==> (name@ != "All"@ && name@ != "ParseTerminates"@
            && name@ != "ParseDoesNotPanic"@),
{
    proof {
        lemma_property_words_distinct();
    }
    if crate::text::str_equals(name, "All") {
        PropertySelection::All
    } else if crate::text::str_equals(name, "ParseTerminates") {
        PropertySelection::One(Property::ParseTerminates)
    } else if crate::text::str_equals(name, "ParseDoesNotPanic") {
        PropertySelection::One(Property::ParseDoesNotPanic)
    } else {
        PropertySelection::Unknown
    }
}

/// Law: a property's own name selects that property.
pub proof fn lemma_name_selects_property(p: Property)
    ensures
        spec_select_property(property_name_text(p)) == PropertySelection::One(p),
{
    reveal_strlit("All");
    reveal_strlit("ParseTerminates");
    reveal_strlit("ParseDoesNotPanic");
    assert("All"@.len() != "ParseTerminates"@.len());
    assert("All"@.len() != "ParseDoesNotPanic"@.len());
    assert("ParseTerminates"@[5] != "ParseDoesNotPanic"@[5]);
}

/// The testing tools that the runner drives.
#[derive(Debug, Clone, Copy, PartialEq, Eq, Structural)]
pub enum Tool {
    Etna,
    Proptest,
    Quickcheck,
    Crabcheck,
    Hegel,
}

/// The name a tool goes by on the command line and in reports.
pub open spec fn tool_name_text(t: Tool) -> Seq<char> {
    match t {
        Tool::Etna => "etna"@,
        Tool::Proptest => "proptest"@,
        Tool::Quickcheck => "quickcheck"@,
        Tool::Crabcheck => "crabcheck"@,
        Tool::Hegel => "hegel"@,
    }
}

impl Tool {
    /// Computes `tool_name_text`.
    pub fn name(self) -> (r: &'static str)
        ensures
            r@ == tool_name_text(self),
            self == Tool::Etna ==> r@ == "etna"@,
            self == Tool::Proptest ==> r@ == "proptest"@,
            self == Tool::Quickcheck ==> r@ == "quickcheck"@,
            self == Tool::Crabcheck ==> r@ == "crabcheck"@,
            self == Tool::Hegel ==> r@ == "hegel"@,
    {
        match self {
            Tool::Etna => "etna",
            Tool::Proptest => "proptest",
            Tool::Quickcheck => "quickcheck",
            Tool::Crabcheck => "crabcheck",
            Tool::Hegel => "hegel",
        }
    }
}

/// How a tool argument is read.
pub open spec fn spec_select_tool(name: Seq<char>) -> Option<Tool> {
    if name == "etna"@ {
        Some(Tool::Etna)
    } else if name == "proptest"@ {
        Some(Tool::Proptest)
    } else if name == "quickcheck"@ {
        Some(Tool::Quickcheck)
    } else if name == "crabcheck"@ {
        Some(Tool::Crabcheck)
    } else if name == "hegel"@ {
        Some(Tool::Hegel)
    } else {
        None
    }
}

/// Reads a tool argument.
pub fn select_tool(name: &str) -> (r: Option<Tool>)
    ensures
        r == spec_select_tool(name@),
        name@ == "etna"@ ==> r == Some(Tool::Etna),
        name@ == "proptest"@ ==> r == Some(Tool::Proptest),
        name@ == "quickcheck"@ ==> r == Some(Tool::Quickcheck),
        name@ == "crabcheck"@ ==> r == Some(Tool::Crabcheck),
        name@ == "hegel"@ ==> r == Some(Tool::Hegel),
        r is None <==> (name@ != "etna"@ && name@ != "proptest"@ && name@ != "quickcheck"@
            && name@ != "crabcheck"@ && name@ != "hegel"@),
{
    proof {
        lemma_tool_words_distinct();
    }
    if crate::text::str_equals(name, "etna") {
        Some(Tool::Etna)
    } else if crate::text::str_equals(name, "proptest") {
        Some(Tool::Proptest)
    } else if crate::text::str_equals(name, "quickcheck") {
        Some(Tool::Quickcheck)
    } else if crate::text::str_equals(name, "crabcheck") {
        Some(Tool::Crabcheck)
    } else if crate::text::str_equals(name, "hegel") {
        Some(Tool::Hegel)
    } else {
        None
    }
}

/// The diagnostic for a property name that a tool does not know.
pub open spec fn unknown_property_text(t: Tool, name: Seq<char>) -> Seq<char> {
    "Unknown property for "@ + tool_name_text(t) + ": "@ + name
}

/// Computes `unknown_property_text`.
pub fn unknown_property_message(t: Tool, name: &str) -> (r: String)
    ensures
        r@ == unknown_property_text(t, name@),
{
    let mut m = String::from_str("Unknown property for ");
    m.append(t.name());
    m.append(": ");
    m.append(name);
    m
}

/// The diagnostic for a tool name that the runner does not know.
pub fn unknown_tool_message(name: &str) -> (r: String)
    ensures
        r@ == "Unknown tool: "@ + name@,
{
    let mut m = String::from_str("Unknown tool: ");
    m.append(name);
    m
}

/// The witness inputs of the termination property: each made the lexer of
/// a faulty parser loop forever.
pub open spec fn terminates_witness_texts() -> Seq<Seq<char>> {
    seq!["key = a)b\n"@, ")\n"@]
}

/// The witness inputs of the no-panic property: each made a faulty parser
/// panic.
pub open spec fn does_not_panic_witness_texts() -> Seq<Seq<char>> {
    seq!["={=<=u=="@, "==\n[._[._"@, "a=[{[]-]{\na."@, "={[]\r]."@]
}

/// The witness inputs that the deterministic run feeds to a property.
pub open spec fn witness_texts(p: Property) -> Seq<Seq<char>> {
    match p {
        Property::ParseTerminates => terminates_witness_texts(),
        Property::ParseDoesNotPanic => does_not_panic_witness_texts(),
    }
}

/// Lists the witness inputs of a property, in the order they are run.
pub fn witnesses(p: Property) -> (v: Vec<&'static str>)
    ensures
        v@.len() == witness_texts(p).len(),
        forall|i: int| 0 <= i < v@.len() ==> (#[trigger] v@[i])@ == witness_texts(p)[i],
{
    match p {
        Property::ParseTerminates => {
            let v: Vec<&'static str> = vec!["key = a)b\n", ")\n"];
            v
        },
        Property::ParseDoesNotPanic => {
            let v: Vec<&'static str> = vec!["={=<=u==", "==\n[._[._", "a=[{[]-]{\na.", "={[]\r]."];
            v
        },
    }
}

/// The status of a deterministic check whose run panicked: the panic's
/// message, or a note naming the property, in brackets after `panic: `.
pub fn etna_panic_status(p: &PanicPayload, property: &str) -> (r: Result<(), String>)
    ensures
        r matches Err(m) && m@ == "(panic: "@ + panic_text(*p, "panic in "@ + property@) + ")"@,
{
    let mut fallback = String::from_str("panic in ");
    fallback.append(property);
    let msg = panic_message(p, fallback.as_str());
    let mut m = String::from_str("(panic: ");
    m.append(msg.as_str());
    m.append(")");
    Err(m)
}

/// The outcome of a deterministic check: one input tried in the measured
/// time, except where the status reports a property name that the check
/// does not know, which counts as nothing run.
pub fn etna_outcome(status: Result<(), String>, elapsed_us: u128) -> (r: Outcome)
    ensures
        failure_of(r.0) == failure_of(status),
        (status matches Err(e) && "Unknown property for etna"@.is_prefix_of(e@)) ==> r.1.inputs == 0 && r.1.elapsed_us == 0,
        !(status matches Err(e) && "Unknown property for etna"@.is_prefix_of(e@)) ==> r.1.inputs == 1 && r.1.elapsed_us == elapsed_us,
{
    let unknown = match &status {
        Ok(()) => false,
        Err(e) => starts_with(e.as_str(), "Unknown property for etna"),
    };
    if unknown {
        (status, Metrics::default())
    } else {
        (status, Metrics { inputs: 1, elapsed_us })
    }
}

/// Whether a shrinking framework counts a property result as a passing
/// case: everything but a failure does.
pub fn case_passes(r: &PropertyResult) -> (b: bool)
    ensures
        b == !(r is Fail),
{
    match r {
        PropertyResult::Fail(_) => false,
        _ => true,
    }
}

/// A test-case verdict in the three-way form some frameworks take.
#[derive(Debug, Clone, Copy, PartialEq, Eq, Structural)]
pub enum CaseVerdict {
    Passed,
    Failed,
    Discarded,
}

/// Reads a property result as a three-way case verdict.
pub fn case_verdict(r: &PropertyResult) -> (v: CaseVerdict)
    ensures
        r is Pass <==> v == CaseVerdict::Passed,
        r is Fail <==> v == CaseVerdict::Failed,
        r is Discard <==> v == CaseVerdict::Discarded,
{
    match r {
        PropertyResult::Pass => CaseVerdict::Passed,
        PropertyResult::Fail(_) => CaseVerdict::Failed,
        PropertyResult::Discard => CaseVerdict::Discarded,
    }
}

/// Reads a property result as an optional pass/fail, `None` meaning the
/// case is discarded.
pub fn optional_verdict(r: &PropertyResult) -> (v: Option<bool>)
    ensures
        r is Pass <==> v == Some(true),
        r is Fail <==> v == Some(false),
        r is Discard <==> v is None,
{
    match r {
        PropertyResult::Pass => Some(true),
        PropertyResult::Fail(_) => Some(false),
        PropertyResult::Discard => None,
    }
}

/// How a framework's whole run ended.
#[derive(Debug)]
pub enum RunStatus {
    /// Every case it tried passed.
    Finished,
    /// A case failed; these are its arguments, as the framework shows them.
    Failed(Vec<String>),
    /// The run stopped on an error, shown as this text.
    Aborted(String),
    /// The run used up its time.
    TimedOut,
    /// Too many cases were discarded, after this many passed.
    GaveUpAfter(u64),
    /// Too many cases were discarded, with these counts.
    GaveUpWith { passed: u64, discarded: u64 },
}

/// Parts joined with a separator between each two.
pub open spec fn joined(parts: Seq<Seq<char>>, sep: Seq<char>) -> Seq<char>
    decreases parts.len(),
{
    if parts.len() == 0 {
        Seq::empty()
    } else if parts.len() == 1 {
        parts[0]
    } else {
        joined(parts.drop_last(), sep) + sep + parts.last()
    }
}

/// The diagnostic a run status stands for, `None` for a finished run.
pub open spec fn run_status_text(s: RunStatus) -> Option<Seq<char>> {
    match s {
        RunStatus::Finished => None,
        RunStatus::Failed(args) => Some(
            "("@ + joined(args@.map_values(|a: String| a@), " "@) + ")"@,
        ),
        RunStatus::Aborted(e) => Some("aborted: "@ + e@),
        RunStatus::TimedOut => Some("timed out"@),
        RunStatus::GaveUpAfter(n) => Some("gave up after "@ + spec_decimal(n as nat) + " tests"@),
        RunStatus::GaveUpWith { passed, discarded } => Some(
            "gave up: passed="@ + spec_decimal(passed as nat) + ", discarded="@ + spec_decimal(
                discarded as nat,
            ),
        ),
    }
}

/// Joins strings with a separator.
pub fn join_strings(parts: &Vec<String>, sep: &str) -> (r: String)
    ensures
        r@ == joined(parts@.map_values(|a: String| a@), sep@),
        parts@.len() == 0 ==> r@ == Seq::<char>::empty(),
        parts@.len() == 1 ==> r@ == parts@[0]@,
        parts@.len() == 2 ==> r@ == parts@[0]@ + sep@ + parts@[1]@,
{
    proof {
        lemma_joined_laws(parts@.map_values(|a: String| a@), sep@);
    }
    let ghost views = parts@.map_values(|a: String| a@);
    let mut r = String::new();
    let mut i: usize = 0;
    while i < parts.len()
        invariant
            views == parts@.map_values(|a: String| a@),
            0 <= i <= parts@.len(),
            r@ == joined(views.take(i as int), sep@),
        decreases parts@.len() - i,
    {
        proof {
            assert(views.take(i + 1).drop_last() =~= views.take(i as int));
            assert(views.take(i + 1).last() == parts@[i as int]@);
        }
        if i == 0 {
            assert(r@ =~= Seq::<char>::empty());
            r.append(parts[i].as_str());
            assert(views.take(1)[0] == parts@[0]@);
        } else {
            r.append(sep);
            r.append(parts[i].as_str());
        }
        i = i + 1;
    }
    assert(views.take(parts@.len() as int) =~= views);
    r
}

/// The status that a framework's run reports.
pub fn run_status_result(s: RunStatus) -> (r: Result<(), String>)
    ensures
        match run_status_text(s) {
            None => r is Ok,
            Some(t) => r matches Err(m) && m@ == t,
        },
        s matches RunStatus::Failed(args) ==> (args@.len() == 1 ==> (r matches Err(m) && m@ == "("@
            + args@[0]@ + ")"@)),
{
    match s {
        RunStatus::Finished => Ok(()),
        RunStatus::Failed(args) => {
            let mut m = String::from_str("(");
            let j = join_strings(&args, " ");
            m.append(j.as_str());
            m.append(")");
            Err(m)
        },
        RunStatus::Aborted(e) => {
            let mut m = String::from_str("aborted: ");
            m.append(e.as_str());
            Err(m)
        },
        RunStatus::TimedOut => Err(String::from_str("timed out")),
        RunStatus::GaveUpAfter(n) => {
            let mut m = String::from_str("gave up after ");
            let d = decimal_text(n as u128);
            m.append(d.as_str());
            m.append(" tests");
            Err(m)
        },
        RunStatus::GaveUpWith { passed, discarded } => {
            let mut m = String::from_str("gave up: passed=");
            let d = decimal_text(passed as u128);
            m.append(d.as_str());
            m.append(", discarded=");
            let e = decimal_text(discarded as u128);
            m.append(e.as_str());
            Err(m)
        },
    }
}


/// Law: a tool's own name selects that tool.
pub proof fn lemma_name_selects_tool(t: Tool)
    ensures
        spec_select_tool(tool_name_text(t)) == Some(t),
{
    reveal_strlit("etna");
    reveal_strlit("proptest");
    reveal_strlit("quickcheck");
    reveal_strlit("crabcheck");
    reveal_strlit("hegel");
    assert("etna"@.len() == 4);
    assert("proptest"@.len() == 8);
    assert("quickcheck"@.len() == 10);
    assert("crabcheck"@.len() == 9);
    assert("hegel"@.len() == 5);
}

/// The panic message by which a hegel run reports that it was asked for a
/// property it does not know.
pub open spec fn hegel_unknown_marker_text(name: Seq<char>) -> Seq<char> {
    "__unknown_property:"@ + name
}

/// Computes `hegel_unknown_marker_text`.
pub fn hegel_unknown_marker(name: &str) -> (r: String)
    ensures
        r@ == hegel_unknown_marker_text(name@),
{
    let mut m = String::from_str("__unknown_property:");
    m.append(name);
    m
}

/// The outcome of a hegel run that ended in a panic with message `msg`,
/// having measured `m`: a marked unknown property counts as nothing run and
/// is reported as such; any other panic is a failure, with the framework's
/// own lead-in taken off its message.
pub fn hegel_failure_outcome(msg: &str, m: Metrics) -> (r: Outcome)
    ensures
        "__unknown_property:"@.is_prefix_of(msg@) ==> {
            &&& r.0 matches Err(e) && e@ == unknown_property_text(
                Tool::Hegel,
                msg@.skip("__unknown_property:"@.len() as int),
            )
            &&& r.1.inputs == 0
            &&& r.1.elapsed_us == 0
        },
        !"__unknown_property:"@.is_prefix_of(msg@) ==> {
            &&& r.0 matches Err(e) && e@ == (if "Property test failed: "@.is_prefix_of(msg@) {
                msg@.skip("Property test failed: "@.len() as int)
            } else {
                msg@
            })
            &&& r.1 == m
        },
{
    match strip_prefix(msg, "__unknown_property:") {
        Some(rest) => (Err(unknown_property_message(Tool::Hegel, rest.as_str())), Metrics::default()),
        None => {
            match strip_prefix(msg, "Property test failed: ") {
                Some(rest) => (Err(rest), m),
                None => (Err(String::from_str(msg)), m),
            }
        },
    }
}

/// Law: the unknown-property marker that a hegel run panics with is read
/// back as the unknown-property diagnostic for the very name it carries.
pub proof fn lemma_hegel_marker_reads_back(name: Seq<char>)
    ensures
        "__unknown_property:"@.is_prefix_of(hegel_unknown_marker_text(name)),
        hegel_unknown_marker_text(name).skip("__unknown_property:"@.len() as int) == name,
{
    let p = "__unknown_property:"@;
    assert((p + name).take(p.len() as int) =~= p);
    assert((p + name).skip(p.len() as int) =~= name);
}


/// A short ASCII text lies in the properties' domain.
proof fn lemma_short_ascii_in_domain(t: Seq<char>)
    requires
        is_ascii_chars(t),
        t.len() <= crate::property::MAX_INPUT_BYTES,
    ensures
        spec_input_in_domain(t),
{
    is_ascii_chars_encode_utf8(t);
}

/// Law: every witness input lies in the properties' domain, so the
/// deterministic run never discards one.
pub proof fn lemma_witnesses_in_domain(p: Property)
    ensures
        forall|i: int| 0 <= i < witness_texts(p).len() ==> spec_input_in_domain(#[trigger] witness_texts(p)[i]),
{
    reveal_strlit("key = a)b\n");
    reveal_strlit(")\n");
    reveal_strlit("={=<=u==");
    reveal_strlit("==\n[._[._");
    reveal_strlit("a=[{[]-]{\na.");
    reveal_strlit("={[]\r].");
    lemma_short_ascii_in_domain("key = a)b\n"@);
    lemma_short_ascii_in_domain(")\n"@);
    lemma_short_ascii_in_domain("={=<=u=="@);
    lemma_short_ascii_in_domain("==\n[._[._"@);
    lemma_short_ascii_in_domain("a=[{[]-]{\na."@);
    lemma_short_ascii_in_domain("={[]\r]."@);
}


/// The five tool words of the usage line are different words.
proof fn lemma_tool_words_distinct()
    ensures
        "etna"@ != "proptest"@,
        "etna"@ != "quickcheck"@,
        "etna"@ != "crabcheck"@,
        "etna"@ != "hegel"@,
        "proptest"@ != "quickcheck"@,
        "proptest"@ != "crabcheck"@,
        "proptest"@ != "hegel"@,
        "quickcheck"@ != "crabcheck"@,
        "quickcheck"@ != "hegel"@,
        "crabcheck"@ != "hegel"@,
{
    reveal_strlit("etna");
    reveal_strlit("proptest");
    reveal_strlit("quickcheck");
    reveal_strlit("crabcheck");
    reveal_strlit("hegel");
    assert("etna"@.len() == 4);
    assert("proptest"@.len() == 8);
    assert("quickcheck"@.len() == 10);
    assert("crabcheck"@.len() == 9);
    assert("hegel"@.len() == 5);
}

/// The three property words of the usage line are different words.
proof fn lemma_property_words_distinct()
    ensures
        "All"@ != "ParseTerminates"@,
        "All"@ != "ParseDoesNotPanic"@,
        "ParseTerminates"@ != "ParseDoesNotPanic"@,
{
    reveal_strlit("All");
    reveal_strlit("ParseTerminates");
    reveal_strlit("ParseDoesNotPanic");
    assert("All"@.len() != "ParseTerminates"@.len());
    assert("All"@.len() != "ParseDoesNotPanic"@.len());
    assert("ParseTerminates"@[5] != "ParseDoesNotPanic"@[5]);
}

/// Law: the runner accepts exactly the lower-case tool words of its usage
/// line, `etna`, `proptest`, `quickcheck`, `crabcheck`, `hegel`, each
/// selecting its own tool, each tool going by its word, and no other name.
pub proof fn lemma_tool_words()
    ensures
        spec_select_tool("etna"@) == Some(Tool::Etna),
        spec_select_tool("proptest"@) == Some(Tool::Proptest),
        spec_select_tool("quickcheck"@) == Some(Tool::Quickcheck),
        spec_select_tool("crabcheck"@) == Some(Tool::Crabcheck),
        spec_select_tool("hegel"@) == Some(Tool::Hegel),
        tool_name_text(Tool::Etna) == "etna"@,
        tool_name_text(Tool::Proptest) == "proptest"@,
        tool_name_text(Tool::Quickcheck) == "quickcheck"@,
        tool_name_text(Tool::Crabcheck) == "crabcheck"@,
        tool_name_text(Tool::Hegel) == "hegel"@,
        forall|w: Seq<char>| spec_select_tool(w) is Some ==> (w == "etna"@ || w == "proptest"@
            || w == "quickcheck"@ || w == "crabcheck"@ || w == "hegel"@),
{
    lemma_tool_words_distinct();
}

/// Law: the runner accepts exactly the property words of its usage line,
/// `All`, `ParseTerminates`, `ParseDoesNotPanic`, and each property goes by
/// its word.
pub proof fn lemma_property_words()
    ensures
        spec_select_property("All"@) == PropertySelection::All,
        spec_select_property("ParseTerminates"@) == PropertySelection::One(Property::ParseTerminates),
        spec_select_property("ParseDoesNotPanic"@) == PropertySelection::One(Property::ParseDoesNotPanic),
        property_name_text(Property::ParseTerminates) == "ParseTerminates"@,
        property_name_text(Property::ParseDoesNotPanic) == "ParseDoesNotPanic"@,
        forall|w: Seq<char>| spec_select_property(w) != PropertySelection::Unknown ==> (w == "All"@
            || w == "ParseTerminates"@ || w == "ParseDoesNotPanic"@),
{
    lemma_property_words_distinct();
}


/// Law: joining puts the separator between each two parts and nowhere
/// else: nothing joins to nothing, one part joins to itself, two parts to
/// the first, the separator and the second, and joining two nonempty lists
/// one after the other is joining each and putting the separator between.
pub proof fn lemma_joined_laws(parts: Seq<Seq<char>>, sep: Seq<char>)
    ensures
        parts.len() == 0 ==> joined(parts, sep) == Seq::<char>::empty(),
        parts.len() == 1 ==> joined(parts, sep) == parts[0],
        parts.len() == 2 ==> joined(parts, sep) == parts[0] + sep + parts[1],
        forall|a: Seq<char>| #[trigger] joined(seq![a], sep) == a,
        forall|p: Seq<Seq<char>>, q: Seq<Seq<char>>| p.len() > 0 && q.len() > 0 ==>
            #[trigger] joined(p + q, sep) == joined(p, sep) + sep + joined(q, sep),
{
    if parts.len() == 2 {
        assert(parts.drop_last() =~= seq![parts[0]]);
        assert(parts.drop_last().len() == 1);
        assert(joined(parts.drop_last(), sep) == parts[0]);
        assert(parts.last() == parts[1]);
    }
    assert forall|p: Seq<Seq<char>>, q: Seq<Seq<char>>| p.len() > 0 && q.len() > 0 implies
        #[trigger] joined(p + q, sep) == joined(p, sep) + sep + joined(q, sep) by {
        lemma_joined_append(p, q, sep);
    }
}

/// Joining two nonempty lists one after the other.
proof fn lemma_joined_append(p: Seq<Seq<char>>, q: Seq<Seq<char>>, sep: Seq<char>)
    requires
        p.len() > 0,
        q.len() > 0,
    ensures
        joined(p + q, sep) == joined(p, sep) + sep + joined(q, sep),
    decreases q.len(),
{
    if q.len() == 1 {
        assert((p + q).drop_last() =~= p);
        assert((p + q).last() == q[0]);
        assert(joined(p + q, sep) =~= joined(p, sep) + sep + q[0]);
    } else {
        lemma_joined_append(p, q.drop_last(), sep);
        assert((p + q).drop_last() =~= p + q.drop_last());
        assert((p + q).last() == q.last());
        assert(joined(p + q, sep) =~= joined(p, sep) + sep + joined(q, sep));
    }
}


/// Law: the combined status is that of the earliest failing outcome: when
/// every outcome before position `k` passed and the one at `k` failed, the
/// failure at `k` is the one reported, whatever follows it.
pub proof fn lemma_earliest_failure_wins(s: Seq<Outcome>, k: int)
    requires
        0 <= k < s.len(),
        s[k].0 is Err,
        forall|j: int| 0 <= j < k ==> (#[trigger] s[j]).0 is Ok,
    ensures
        first_failure(s) == failure_of(s[k].0),
    decreases s.len(),
{
    let p = s.drop_last();
    assert forall|j: int| 0 <= j < p.len() implies #[trigger] p[j] == s[j] by {}
    if k == s.len() - 1 {
        lemma_first_failure_ok_iff_all_ok(p);
        assert forall|j: int| 0 <= j < p.len() implies (#[trigger] p[j]).0 is Ok by {
            assert(s[j].0 is Ok);
        }
        assert(s.last() == s[k]);
    } else {
        assert forall|j: int| 0 <= j < k implies (#[trigger] p[j]).0 is Ok by {
            assert(s[j].0 is Ok);
        }
        lemma_earliest_failure_wins(p, k);
    }
}


/// Law: totals add up over runs: one outcome totals to its own
/// measurements, and the totals of two runs one after the other are the sums
/// of their totals.
pub proof fn lemma_totals_additive(p: Seq<Outcome>, q: Seq<Outcome>)
    ensures
        total_inputs(p + q) == total_inputs(p) + total_inputs(q),
        total_elapsed(p + q) == total_elapsed(p) + total_elapsed(q),
        forall|o: Outcome| #[trigger] total_inputs(seq![o]) == o.1.inputs,
        forall|o: Outcome| #[trigger] total_elapsed(seq![o]) == o.1.elapsed_us,
    decreases q.len(),
{
    assert forall|o: Outcome| #[trigger] total_inputs(seq![o]) == o.1.inputs by {
        assert(seq![o].drop_last() =~= Seq::<Outcome>::empty());
        assert(total_inputs(Seq::<Outcome>::empty()) == 0);
        assert(seq![o].last() == o);
    }
    assert forall|o: Outcome| #[trigger] total_elapsed(seq![o]) == o.1.elapsed_us by {
        assert(seq![o].drop_last() =~= Seq::<Outcome>::empty());
        assert(total_elapsed(Seq::<Outcome>::empty()) == 0);
        assert(seq![o].last() == o);
    }
    if q.len() == 0 {
        assert(p + q =~= p);
    } else {
        lemma_totals_additive(p, q.drop_last());
        assert((p + q).drop_last() =~= p + q.drop_last());
        assert((p + q).last() == q.last());
    }
}

} // verus!
