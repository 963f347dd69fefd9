//! Doctor: checks on the integrity of a repository, and on whether its claims can be published and
//! merged.
use vstd::prelude::*;
use vstd::string::*;

use crate::command::RunnerError;
use crate::config::ConfigError;
use crate::exit::EnvoyExitCode;
use crate::git::RepositoryError;
use crate::github::GithubIssueError;
use crate::id::{short_id, short_text, Id, IssueNumber};
use crate::json::{same_json, Json, JsonView};
use crate::observation::ObservationError;
use crate::store::StoreError;
use crate::text::{ascending_texts, decimal, decimal_text, optional, same, sorted_distinct, views};
use crate::time::Timestamp;

pub use crate::diagnosis::coordination_checks;
pub use crate::document::doctor_document;
pub use crate::examination::{doctor_repository, doctor_stack};
pub use crate::redaction::redact_doctor_paths;

verus! {

#[derive(Clone, Copy, Debug, PartialEq, Eq, Structural)]
pub enum CheckGate {
    Integrity,
    Publish,
    Merge,
}

impl CheckGate {
    pub open spec fn name(self) -> Seq<char> {
        match self {
            CheckGate::Integrity => "integrity"@,
            CheckGate::Publish => "publish"@,
            CheckGate::Merge => "merge"@,
        }
    }

    pub fn as_str(self) -> (name: &'static str)
        ensures
            name@ == self.name(),
    {
        match self {
            CheckGate::Integrity => "integrity",
            CheckGate::Publish => "publish",
            CheckGate::Merge => "merge",
        }
    }
}

#[derive(Clone, Copy, Debug, PartialEq, Eq, Structural)]
pub enum CheckStatus {
    Pass,
    Warn,
    Fail,
    Skip,
    Error,
}

impl CheckStatus {
    /// The sign of a status in a report for people.
    pub open spec fn sign(self) -> Seq<char> {
        match self {
            CheckStatus::Pass => "✓"@,
            CheckStatus::Warn => "!"@,
            CheckStatus::Fail => "✗"@,
            CheckStatus::Skip => "-"@,
            CheckStatus::Error => "×"@,
        }
    }

    pub fn symbol(self) -> (symbol: &'static str)
        ensures
            symbol@ == self.sign(),
    {
        match self {
            CheckStatus::Pass => "✓",
            CheckStatus::Warn => "!",
            CheckStatus::Fail => "✗",
            CheckStatus::Skip => "-",
            CheckStatus::Error => "×",
        }
    }

    pub open spec fn name(self) -> Seq<char> {
        match self {
            CheckStatus::Pass => "pass"@,
            CheckStatus::Warn => "warn"@,
            CheckStatus::Fail => "fail"@,
            CheckStatus::Skip => "skip"@,
            CheckStatus::Error => "error"@,
        }
    }

    pub fn as_str(self) -> (name: &'static str)
        ensures
            name@ == self.name(),
    {
        match self {
            CheckStatus::Pass => "pass",
            CheckStatus::Warn => "warn",
            CheckStatus::Fail => "fail",
            CheckStatus::Skip => "skip",
            CheckStatus::Error => "error",
        }
    }
}

/// What checks come to.
#[derive(Clone, Copy, Debug, PartialEq, Eq, Structural)]
pub enum GateRollup {
    Okay,
    Warning,
    Blocked,
    Error,
}

impl GateRollup {
    /// How bad it is.
    pub open spec fn severity(self) -> int {
        match self {
            GateRollup::Okay => 0,
            GateRollup::Warning => 1,
            GateRollup::Blocked => 2,
            GateRollup::Error => 3,
        }
    }

    fn rank(self) -> (rank: u8)
        ensures
            rank == self.severity(),
    {
        match self {
            GateRollup::Okay => 0,
            GateRollup::Warning => 1,
            GateRollup::Blocked => 2,
            GateRollup::Error => 3,
        }
    }

    pub open spec fn name(self) -> Seq<char> {
        match self {
            GateRollup::Okay => "ok"@,
            GateRollup::Warning => "warning"@,
            GateRollup::Blocked => "blocked"@,
            GateRollup::Error => "error"@,
        }
    }

    pub fn as_str(self) -> (name: &'static str)
        ensures
            name@ == self.name(),
    {
        match self {
            GateRollup::Okay => "ok",
            GateRollup::Warning => "warning",
            GateRollup::Blocked => "blocked",
            GateRollup::Error => "error",
        }
    }

    pub open spec fn exit(self) -> EnvoyExitCode {
        match self {
            GateRollup::Okay => EnvoyExitCode::Success,
            GateRollup::Warning => EnvoyExitCode::Warning,
            GateRollup::Blocked => EnvoyExitCode::Blocked,
            GateRollup::Error => EnvoyExitCode::OperationalError,
        }
    }

    pub fn exit_code(self) -> (code: EnvoyExitCode)
        ensures
            code == self.exit(),
    {
        match self {
            GateRollup::Okay => EnvoyExitCode::Success,
            GateRollup::Warning => EnvoyExitCode::Warning,
            GateRollup::Blocked => EnvoyExitCode::Blocked,
            GateRollup::Error => EnvoyExitCode::OperationalError,
        }
    }
}

/// What a report is about.
#[derive(Debug)]
pub struct DoctorSubject {
    pub repo: String,
    pub issue: Option<IssueNumber>,
    pub stack: bool,
}

pub struct SubjectView {
    pub repo: Seq<char>,
    pub issue: Option<IssueNumber>,
    pub stack: bool,
}

impl View for DoctorSubject {
    type V = SubjectView;

    open spec fn view(&self) -> SubjectView {
        SubjectView { repo: self.repo@, issue: self.issue, stack: self.stack }
    }
}

/// One check and its result.
#[derive(Debug)]
pub struct DoctorCheck {
    pub id: String,
    pub gate: CheckGate,
    pub title: String,
    pub status: CheckStatus,
    pub required: bool,
    pub message: String,
    pub evidence: Option<Json>,
}

pub struct CheckView {
    pub id: Seq<char>,
    pub gate: CheckGate,
    pub title: Seq<char>,
    pub status: CheckStatus,
    pub required: bool,
    pub message: Seq<char>,
    pub evidence: Option<JsonView>,
}

impl View for DoctorCheck {
    type V = CheckView;

    open spec fn view(&self) -> CheckView {
        CheckView {
            id: self.id@,
            gate: self.gate,
            title: self.title@,
            status: self.status,
            required: self.required,
            message: self.message@,
            evidence: optional(self.evidence),
        }
    }
}

impl Clone for DoctorCheck {
    fn clone(&self) -> (copy: Self)
        ensures
            copy@ == self@,
    {
        DoctorCheck {
            id: self.id.clone(),
            gate: self.gate,
            title: self.title.clone(),
            status: self.status,
            required: self.required,
            message: self.message.clone(),
            evidence: match &self.evidence {
                Some(evidence) => Some(evidence.clone()),
                None => None,
            },
        }
    }
}

/// A check that is not required and has no evidence.
pub open spec fn check(
    id: Seq<char>,
    gate: CheckGate,
    title: Seq<char>,
    status: CheckStatus,
    message: Seq<char>,
) -> CheckView {
    CheckView { id, gate, title, status, required: false, message, evidence: None }
}

/// A required check without evidence.
pub open spec fn required_check(
    id: Seq<char>,
    gate: CheckGate,
    title: Seq<char>,
    status: CheckStatus,
    message: Seq<char>,
) -> CheckView {
    CheckView { id, gate, title, status, required: true, message, evidence: None }
}

impl CheckView {
    pub open spec fn with(self, evidence: JsonView) -> CheckView {
        CheckView { evidence: Some(evidence), ..self }
    }
}

impl DoctorCheck {
    pub fn new(id: &str, gate: CheckGate, title: &str, status: CheckStatus, message: String) -> (check:
        Self)
        ensures
            check@ == self::check(id@, gate, title@, status, message@),
    {
        DoctorCheck {
            id: id.to_owned(),
            gate,
            title: title.to_owned(),
            status,
            required: false,
            message,
            evidence: None,
        }
    }

    pub fn required(self) -> (check: Self)
        ensures
            check@ == (CheckView { required: true, ..self@ }),
    {
        DoctorCheck {
            id: self.id,
            gate: self.gate,
            title: self.title,
            status: self.status,
            required: true,
            message: self.message,
            evidence: self.evidence,
        }
    }

    pub fn with_evidence(self, evidence: Json) -> (check: Self)
        ensures
            check@ == self@.with(evidence@),
    {
        DoctorCheck {
            id: self.id,
            gate: self.gate,
            title: self.title,
            status: self.status,
            required: self.required,
            message: self.message,
            evidence: Some(evidence),
        }
    }
}

/// Whether two checks are the same.
pub fn same_check(a: &DoctorCheck, b: &DoctorCheck) -> (equal: bool)
    ensures
        equal == (a@ == b@),
{
    let evidence = match (&a.evidence, &b.evidence) {
        (Some(x), Some(y)) => same_json(x, y),
        (None, None) => true,
        (Some(_), None) => false,
        (None, Some(_)) => false,
    };
    evidence && same(a.id.as_str(), b.id.as_str()) && a.gate == b.gate && same(
        a.title.as_str(),
        b.title.as_str(),
    ) && a.status == b.status && a.required == b.required && same(
        a.message.as_str(),
        b.message.as_str(),
    )
}

// ---------------------------------------------------------------------------------------------
// What checks come to
// ---------------------------------------------------------------------------------------------
/// What one check comes to: a required check that was skipped is an error.
pub open spec fn check_outcome(check: CheckView) -> GateRollup {
    match check.status {
        CheckStatus::Pass => GateRollup::Okay,
        CheckStatus::Warn => GateRollup::Warning,
        CheckStatus::Fail => GateRollup::Blocked,
        CheckStatus::Error => GateRollup::Error,
        CheckStatus::Skip => if check.required {
            GateRollup::Error
        } else {
            GateRollup::Okay
        },
    }
}

/// The worse of two.
pub open spec fn worse(a: GateRollup, b: GateRollup) -> GateRollup {
    if b.severity() > a.severity() {
        b
    } else {
        a
    }
}

/// What checks come to: the worst of them.
pub open spec fn rollup(checks: Seq<CheckView>) -> GateRollup
    decreases checks.len(),
{
    if checks.len() == 0 {
        GateRollup::Okay
    } else {
        worse(rollup(checks.drop_last()), check_outcome(checks.last()))
    }
}

/// What the checks of one gate come to.
pub open spec fn gate_rollup(checks: Seq<CheckView>, gate: CheckGate) -> GateRollup
    decreases checks.len(),
{
    if checks.len() == 0 {
        GateRollup::Okay
    } else if checks.last().gate == gate {
        worse(gate_rollup(checks.drop_last(), gate), check_outcome(checks.last()))
    } else {
        gate_rollup(checks.drop_last(), gate)
    }
}

/// What the checks of each gate come to.
#[derive(Clone, Copy, Debug, PartialEq, Eq, Structural)]
pub struct GateRollups {
    pub integrity: GateRollup,
    pub publish: GateRollup,
    pub merge: GateRollup,
}

pub open spec fn rollups_of(checks: Seq<CheckView>) -> GateRollups {
    GateRollups {
        integrity: gate_rollup(checks, CheckGate::Integrity),
        publish: gate_rollup(checks, CheckGate::Publish),
        merge: gate_rollup(checks, CheckGate::Merge),
    }
}

/// The worst of the gates.
pub open spec fn worst(gates: GateRollups) -> GateRollup {
    worse(worse(gates.integrity, gates.publish), gates.merge)
}

fn worse_of(a: GateRollup, b: GateRollup) -> (result: GateRollup)
    ensures
        result == worse(a, b),
{
    if b.rank() > a.rank() {
        b
    } else {
        a
    }
}

fn check_rollup(check: &DoctorCheck) -> (result: GateRollup)
    ensures
        result == check_outcome(check@),
{
    match check.status {
        CheckStatus::Pass => GateRollup::Okay,
        CheckStatus::Warn => GateRollup::Warning,
        CheckStatus::Fail => GateRollup::Blocked,
        CheckStatus::Error => GateRollup::Error,
        CheckStatus::Skip => if check.required {
            GateRollup::Error
        } else {
            GateRollup::Okay
        },
    }
}

/// What checks come to.
pub fn rollup_gate(checks: &Vec<DoctorCheck>) -> (result: GateRollup)
    ensures
        result == rollup(views(checks@)),
{
    let ghost all = views(checks@);
    let mut result = GateRollup::Okay;
    let mut i: usize = 0;
    assert(all.take(0) =~= Seq::empty());
    while i < checks.len()
        invariant
            i <= checks.len(),
            all == views(checks@),
            result == rollup(all.take(i as int)),
        decreases checks.len() - i,
    {
        assert(all.take(i + 1).drop_last() =~= all.take(i as int));
        assert(all.take(i + 1).last() == checks@[i as int]@);
        result = worse_of(result, check_rollup(&checks[i]));
        i = i + 1;
    }
    assert(all.take(i as int) =~= all);
    result
}

fn rollup_gate_for(checks: &Vec<DoctorCheck>, gate: CheckGate) -> (result: GateRollup)
    ensures
        result == gate_rollup(views(checks@), gate),
{
    let ghost all = views(checks@);
    let mut result = GateRollup::Okay;
    let mut i: usize = 0;
    assert(all.take(0) =~= Seq::empty());
    while i < checks.len()
        invariant
            i <= checks.len(),
            all == views(checks@),
            result == gate_rollup(all.take(i as int), gate),
        decreases checks.len() - i,
    {
        assert(all.take(i + 1).drop_last() =~= all.take(i as int));
        assert(all.take(i + 1).last() == checks@[i as int]@);
        if checks[i].gate == gate {
            result = worse_of(result, check_rollup(&checks[i]));
        }
        i = i + 1;
    }
    assert(all.take(i as int) =~= all);
    result
}

fn rollups(checks: &Vec<DoctorCheck>) -> (gates: GateRollups)
    ensures
        gates == rollups_of(views(checks@)),
{
    GateRollups {
        integrity: rollup_gate_for(checks, CheckGate::Integrity),
        publish: rollup_gate_for(checks, CheckGate::Publish),
        merge: rollup_gate_for(checks, CheckGate::Merge),
    }
}

fn worst_gate(gates: GateRollups) -> (result: GateRollup)
    ensures
        result == worst(gates),
{
    worse_of(worse_of(gates.integrity, gates.publish), gates.merge)
}

/// Checks come to at least what each of them comes to, and to no more than the worst of them.
pub proof fn rollup_is_the_worst_check(checks: Seq<CheckView>)
    ensures
        forall|i: int|
            0 <= i < checks.len() ==> check_outcome(#[trigger] checks[i]).severity() <= rollup(
                checks,
            ).severity(),
        rollup(checks) == GateRollup::Okay || exists|i: int|
            0 <= i < checks.len() && check_outcome(#[trigger] checks[i]) == rollup(checks),
    decreases checks.len(),
{
    if checks.len() > 0 {
        let front = checks.drop_last();
        rollup_is_the_worst_check(front);
        assert forall|i: int| 0 <= i < checks.len() implies check_outcome(
            #[trigger] checks[i],
        ).severity() <= rollup(checks).severity() by {
            if i < front.len() {
                assert(checks[i] == front[i]);
            }
        }
        if rollup(checks) != GateRollup::Okay {
            if rollup(checks) == rollup(front) {
                let i = choose|i: int|
                    0 <= i < front.len() && check_outcome(#[trigger] front[i]) == rollup(front);
                assert(check_outcome(checks[i]) == rollup(checks));
            } else {
                assert(check_outcome(checks[checks.len() - 1]) == rollup(checks));
            }
        }
    }
}

/// The worst of the gates is what all checks together come to.
pub proof fn worst_gate_is_the_rollup(checks: Seq<CheckView>)
    ensures
        worst(rollups_of(checks)) == rollup(checks),
    decreases checks.len(),
{
    if checks.len() > 0 {
        worst_gate_is_the_rollup(checks.drop_last());
    }
}

/// A further check never makes a report better.
pub proof fn more_checks_are_no_better(checks: Seq<CheckView>, more: CheckView)
    ensures
        rollup(checks).severity() <= rollup(checks.push(more)).severity(),
{
    assert(checks.push(more).drop_last() =~= checks);
}

/// Every report ends the command with zero where all is well, and else with one to three, the
/// higher the worse it is.
pub proof fn exit_codes_follow_severity(rollup: GateRollup)
    ensures
        rollup.exit().number() == rollup.severity(),
{
}

// ---------------------------------------------------------------------------------------------
// Reports
// ---------------------------------------------------------------------------------------------
/// The checks on one generation of a stack.
#[derive(Debug)]
pub struct DoctorNodeReport {
    pub issue: IssueNumber,
    pub claim_id: Id,
    pub status: GateRollup,
    pub gates: GateRollups,
    pub checks: Vec<DoctorCheck>,
    pub recommendations: Vec<String>,
}

pub struct NodeReportView {
    pub issue: IssueNumber,
    pub claim_id: Id,
    pub status: GateRollup,
    pub gates: GateRollups,
    pub checks: Seq<CheckView>,
    pub recommendations: Seq<Seq<char>>,
}

impl View for DoctorNodeReport {
    type V = NodeReportView;

    open spec fn view(&self) -> NodeReportView {
        NodeReportView {
            issue: self.issue,
            claim_id: self.claim_id,
            status: self.status,
            gates: self.gates,
            checks: views(self.checks@),
            recommendations: views(self.recommendations@),
        }
    }
}

/// The report on a generation that its checks make.
pub open spec fn node_report(
    issue: IssueNumber,
    claim_id: Id,
    checks: Seq<CheckView>,
    recommendations: Seq<Seq<char>>,
) -> NodeReportView {
    NodeReportView {
        issue,
        claim_id,
        status: worst(rollups_of(checks)),
        gates: rollups_of(checks),
        checks,
        recommendations,
    }
}

impl DoctorNodeReport {
    pub fn new(
        issue: IssueNumber,
        claim_id: Id,
        checks: Vec<DoctorCheck>,
        recommendations: Vec<String>,
    ) -> (report: Self)
        ensures
            report@ == node_report(issue, claim_id, views(checks@), views(recommendations@)),
    {
        let gates = rollups(&checks);
        DoctorNodeReport {
            issue,
            claim_id,
            status: worst_gate(gates),
            gates,
            checks,
            recommendations,
        }
    }
}

/// The checks on a repository, an issue or a stack.
#[derive(Debug)]
pub struct DoctorReport {
    pub subject: DoctorSubject,
    pub status: GateRollup,
    pub gates: GateRollups,
    pub checks: Vec<DoctorCheck>,
    pub recommendations: Vec<String>,
    pub generated_at: Timestamp,
    pub nodes: Vec<DoctorNodeReport>,
}

pub struct ReportView {
    pub subject: SubjectView,
    pub status: GateRollup,
    pub gates: GateRollups,
    pub checks: Seq<CheckView>,
    pub recommendations: Seq<Seq<char>>,
    pub generated_at: Timestamp,
    pub nodes: Seq<NodeReportView>,
}

impl View for DoctorReport {
    type V = ReportView;

    open spec fn view(&self) -> ReportView {
        ReportView {
            subject: self.subject@,
            status: self.status,
            gates: self.gates,
            checks: views(self.checks@),
            recommendations: views(self.recommendations@),
            generated_at: self.generated_at,
            nodes: views(self.nodes@),
        }
    }
}

/// The report that checks make.
pub open spec fn report(
    subject: SubjectView,
    checks: Seq<CheckView>,
    recommendations: Seq<Seq<char>>,
    generated_at: Timestamp,
) -> ReportView {
    ReportView {
        subject,
        status: worst(rollups_of(checks)),
        gates: rollups_of(checks),
        checks,
        recommendations,
        generated_at,
        nodes: Seq::empty(),
    }
}

/// The checks of all nodes, one after the other.
pub open spec fn node_checks(nodes: Seq<NodeReportView>) -> Seq<CheckView>
    decreases nodes.len(),
{
    if nodes.len() == 0 {
        Seq::empty()
    } else {
        node_checks(nodes.drop_last()) + nodes.last().checks
    }
}

/// The recommendations of all nodes, one after the other.
pub open spec fn node_recommendations(nodes: Seq<NodeReportView>) -> Seq<Seq<char>>
    decreases nodes.len(),
{
    if nodes.len() == 0 {
        Seq::empty()
    } else {
        node_recommendations(nodes.drop_last()) + nodes.last().recommendations
    }
}

/// A report with the reports on generations: their checks count, and all recommendations stand
/// together, in ascending order and each once.
pub open spec fn with_node_reports(report: ReportView, nodes: Seq<NodeReportView>) -> ReportView {
    let checks = report.checks + node_checks(nodes);
    ReportView {
        status: worst(rollups_of(checks)),
        gates: rollups_of(checks),
        recommendations: ascending_texts(report.recommendations + node_recommendations(nodes)),
        nodes,
        ..report
    }
}

pub fn append_checks(checks: &mut Vec<DoctorCheck>, more: &Vec<DoctorCheck>)
    ensures
        views(final(checks)@) == views(old(checks)@) + views(more@),
{
    let ghost start = views(checks@);
    let mut i: usize = 0;
    assert(start + views(more@).take(0) =~= start);
    while i < more.len()
        invariant
            i <= more.len(),
            views(checks@) == start + views(more@).take(i as int),
        decreases more.len() - i,
    {
        let ghost done = views(checks@);
        checks.push(more[i].clone());
        i = i + 1;
        assert(views(checks@) =~= done.push(more@[i - 1]@));
        assert(start + views(more@).take(i as int) =~= done.push(more@[i - 1]@));
    }
    assert(views(more@).take(i as int) =~= views(more@));
}

pub fn append_texts(texts: &mut Vec<String>, more: &Vec<String>)
    ensures
        views(final(texts)@) == views(old(texts)@) + views(more@),
{
    let ghost start = views(texts@);
    let mut i: usize = 0;
    assert(start + views(more@).take(0) =~= start);
    while i < more.len()
        invariant
            i <= more.len(),
            views(texts@) == start + views(more@).take(i as int),
        decreases more.len() - i,
    {
        let ghost done = views(texts@);
        texts.push(more[i].clone());
        i = i + 1;
        assert(views(texts@) =~= done.push(more@[i - 1]@));
        assert(start + views(more@).take(i as int) =~= done.push(more@[i - 1]@));
    }
    assert(views(more@).take(i as int) =~= views(more@));
}

fn clone_checks(checks: &Vec<DoctorCheck>) -> (copy: Vec<DoctorCheck>)
    ensures
        views(copy@) == views(checks@),
{
    let mut copy: Vec<DoctorCheck> = Vec::new();
    append_checks(&mut copy, checks);
    assert(views(copy@) =~= views(checks@));
    copy
}

impl DoctorReport {
    pub fn new(
        subject: DoctorSubject,
        checks: Vec<DoctorCheck>,
        recommendations: Vec<String>,
        generated_at: Timestamp,
    ) -> (report: Self)
        ensures
            report@ == self::report(
                subject@,
                views(checks@),
                views(recommendations@),
                generated_at,
            ),
    {
        let gates = rollups(&checks);
        let result = DoctorReport {
            subject,
            status: worst_gate(gates),
            gates,
            checks,
            recommendations,
            generated_at,
            nodes: Vec::new(),
        };
        assert(result@.nodes =~= Seq::empty());
        result
    }

    /// The report with the reports on the generations of a stack.
    pub fn with_nodes(self, nodes: Vec<DoctorNodeReport>) -> (report: Self)
        ensures
            report@ == with_node_reports(self@, views(nodes@)),
    {
        let ghost all = views(nodes@);
        let mut checks = clone_checks(&self.checks);
        let mut recommendations = self.recommendations;
        let ghost own_checks = views(checks@);
        let ghost own_recommendations = views(recommendations@);
        let mut i: usize = 0;
        assert(all.take(0) =~= Seq::empty());
        assert(own_checks + node_checks(all.take(0)) =~= own_checks);
        assert(own_recommendations + node_recommendations(all.take(0)) =~= own_recommendations);
        while i < nodes.len()
            invariant
                i <= nodes.len(),
                all == views(nodes@),
                views(checks@) == own_checks + node_checks(all.take(i as int)),
                views(recommendations@) == own_recommendations + node_recommendations(
                    all.take(i as int),
                ),
            decreases nodes.len() - i,
        {
            assert(all.take(i + 1).drop_last() =~= all.take(i as int));
            assert(all.take(i + 1).last() == nodes@[i as int]@);
            append_checks(&mut checks, &nodes[i].checks);
            append_texts(&mut recommendations, &nodes[i].recommendations);
            i = i + 1;
            assert(views(checks@) =~= own_checks + node_checks(all.take(i as int)));
            assert(views(recommendations@) =~= own_recommendations + node_recommendations(
                all.take(i as int),
            ));
        }
        assert(all.take(i as int) =~= all);
        let gates = rollups(&checks);
        DoctorReport {
            subject: self.subject,
            status: worst_gate(gates),
            gates,
            checks: self.checks,
            recommendations: sorted_distinct(&recommendations),
            generated_at: self.generated_at,
            nodes,
        }
    }

    pub fn exit_code(&self) -> (code: EnvoyExitCode)
        ensures
            code == self@.status.exit(),
    {
        self.status.exit_code()
    }
}

// ---------------------------------------------------------------------------------------------
// Reports for people
// ---------------------------------------------------------------------------------------------
/// The line of a check.
pub open spec fn check_line(indent: Seq<char>, check: CheckView) -> Seq<char> {
    indent + check.status.sign() + " ["@ + check.gate.name() + "] "@ + check.title + ": "@
        + check.message + "\n"@
}

/// What is written so far, and then the lines of checks.
pub open spec fn check_lines(
    written: Seq<char>,
    indent: Seq<char>,
    checks: Seq<CheckView>,
) -> Seq<char>
    decreases checks.len(),
{
    if checks.len() == 0 {
        written
    } else {
        check_lines(written, indent, checks.drop_last()) + check_line(indent, checks.last())
    }
}

fn write_check_lines(output: &mut String, indent: &str, checks: &Vec<DoctorCheck>)
    ensures
        final(output)@ == check_lines(old(output)@, indent@, views(checks@)),
{
    let ghost start = output@;
    let ghost all = views(checks@);
    let mut i: usize = 0;
    assert(all.take(0) =~= Seq::empty());
    while i < checks.len()
        invariant
            i <= checks.len(),
            all == views(checks@),
            output@ == check_lines(start, indent@, all.take(i as int)),
        decreases checks.len() - i,
    {
        let check = &checks[i];
        assert(all.take(i + 1).drop_last() =~= all.take(i as int));
        assert(all.take(i + 1).last() == check@);
        let mut line = indent.to_owned();
        line.append(check.status.symbol());
        line.append(" [");
        line.append(check.gate.as_str());
        line.append("] ");
        line.append(check.title.as_str());
        line.append(": ");
        line.append(check.message.as_str());
        line.append("\n");
        assert(line@ == check_line(indent@, check@));
        output.append(line.as_str());
        i = i + 1;
    }
    assert(all.take(i as int) =~= all);
}

/// The line of a node.
pub open spec fn node_line(node: NodeReportView) -> Seq<char> {
    "\n#"@ + decimal(node.issue as nat) + " "@ + short_text(node.claim_id) + ": "@
        + node.status.name() + " (integrity="@ + node.gates.integrity.name() + " publish="@
        + node.gates.publish.name() + " merge="@ + node.gates.merge.name() + ")\n"@
}

pub open spec fn node_lines(written: Seq<char>, nodes: Seq<NodeReportView>) -> Seq<char>
    decreases nodes.len(),
{
    if nodes.len() == 0 {
        written
    } else {
        check_lines(
            node_lines(written, nodes.drop_last()) + node_line(nodes.last()),
            "  "@,
            nodes.last().checks,
        )
    }
}

fn write_node_lines(output: &mut String, nodes: &Vec<DoctorNodeReport>)
    ensures
        final(output)@ == node_lines(old(output)@, views(nodes@)),
{
    let ghost start = output@;
    let ghost all = views(nodes@);
    let mut i: usize = 0;
    assert(all.take(0) =~= Seq::empty());
    while i < nodes.len()
        invariant
            i <= nodes.len(),
            all == views(nodes@),
            output@ == node_lines(start, all.take(i as int)),
        decreases nodes.len() - i,
    {
        let node = &nodes[i];
        assert(all.take(i + 1).drop_last() =~= all.take(i as int));
        assert(all.take(i + 1).last() == node@);
        let mut line = "\n#".to_owned();
        line.append(decimal_text(node.issue).as_str());
        line.append(" ");
        line.append(short_id(node.claim_id).as_str());
        line.append(": ");
        line.append(node.status.as_str());
        line.append(" (integrity=");
        line.append(node.gates.integrity.as_str());
        line.append(" publish=");
        line.append(node.gates.publish.as_str());
        line.append(" merge=");
        line.append(node.gates.merge.as_str());
        line.append(")\n");
        assert(line@ == node_line(node@));
        output.append(line.as_str());
        write_check_lines(output, "  ", &node.checks);
        i = i + 1;
    }
    assert(all.take(i as int) =~= all);
}

pub open spec fn recommendation_lines(written: Seq<char>, texts: Seq<Seq<char>>) -> Seq<char>
    decreases texts.len(),
{
    if texts.len() == 0 {
        written
    } else {
        recommendation_lines(written, texts.drop_last()) + ("- "@ + texts.last() + "\n"@)
    }
}

fn write_recommendations(output: &mut String, texts: &Vec<String>)
    ensures
        final(output)@ == recommendation_lines(old(output)@, views(texts@)),
{
    let ghost start = output@;
    let ghost all = views(texts@);
    let mut i: usize = 0;
    assert(all.take(0) =~= Seq::empty());
    while i < texts.len()
        invariant
            i <= texts.len(),
            all == views(texts@),
            output@ == recommendation_lines(start, all.take(i as int)),
        decreases texts.len() - i,
    {
        assert(all.take(i + 1).drop_last() =~= all.take(i as int));
        assert(all.take(i + 1).last() == texts@[i as int]@);
        let mut line = "- ".to_owned();
        line.append(texts[i].as_str());
        line.append("\n");
        output.append(line.as_str());
        i = i + 1;
    }
    assert(all.take(i as int) =~= all);
}

/// What a report is about, in words.
pub open spec fn report_heading(subject: SubjectView) -> Seq<char> {
    let start = "Doctor report for "@ + subject.repo;
    if subject.issue is Some {
        start + " issue #"@ + decimal(subject.issue->0 as nat)
    } else if subject.stack {
        start + " stack"@
    } else {
        start
    }
}

/// A report as people read it.
pub open spec fn human_report(report: ReportView) -> Seq<char> {
    let head = report_heading(report.subject) + "\n\nOverall: "@ + report.status.name()
        + "\nGates: integrity="@ + report.gates.integrity.name() + " publish="@
        + report.gates.publish.name() + " merge="@ + report.gates.merge.name() + "\n\nChecks:\n"@;
    let checked = check_lines(head, Seq::empty(), report.checks);
    let nodes = if report.nodes.len() > 0 {
        node_lines(checked + "\nStack nodes (root -> target):\n"@, report.nodes)
    } else {
        checked
    };
    let advised = nodes + "\nRecommendations:\n"@;
    if report.recommendations.len() == 0 {
        advised + "- None\n"@
    } else {
        recommendation_lines(advised, report.recommendations)
    }
}

pub fn render_doctor_human(report: &DoctorReport) -> (output: String)
    ensures
        output@ == human_report(report@),
{
    let mut output = "Doctor report for ".to_owned();
    output.append(report.subject.repo.as_str());
    if let Some(issue) = report.subject.issue {
        output.append(" issue #");
        output.append(decimal_text(issue).as_str());
    } else if report.subject.stack {
        output.append(" stack");
    }
    assert(output@ == report_heading(report@.subject));
    output.append("\n\nOverall: ");
    output.append(report.status.as_str());
    output.append("\nGates: integrity=");
    output.append(report.gates.integrity.as_str());
    output.append(" publish=");
    output.append(report.gates.publish.as_str());
    output.append(" merge=");
    output.append(report.gates.merge.as_str());
    output.append("\n\nChecks:\n");
    let indent = String::new();
    write_check_lines(&mut output, indent.as_str(), &report.checks);
    if report.nodes.len() > 0 {
        output.append("\nStack nodes (root -> target):\n");
        write_node_lines(&mut output, &report.nodes);
    }
    output.append("\nRecommendations:\n");
    if report.recommendations.len() == 0 {
        output.append("- None\n");
    } else {
        write_recommendations(&mut output, &report.recommendations);
    }
    output
}

/// Why no report could be made.
#[derive(Debug)]
pub enum DoctorError {
    Repository(RepositoryError),
    Config(ConfigError),
    Runner(RunnerError),
    InvalidGitOutput(String),
    Store(StoreError),
    Observation(ObservationError),
    Github(GithubIssueError),
}

impl DoctorError {
    pub open spec fn text(self) -> Seq<char> {
        match self {
            DoctorError::Repository(error) => error.text(),
            DoctorError::Config(error) => error.text(),
            DoctorError::Runner(error) => error.text(),
            DoctorError::InvalidGitOutput(problem) => "invalid Git output: "@ + problem@,
            DoctorError::Store(error) => error.text(),
            DoctorError::Observation(error) => error.text(),
            DoctorError::Github(error) => error.text(),
        }
    }

    pub fn message(&self) -> (text: String)
        ensures
            text@ == self.text(),
    {
        match self {
            DoctorError::Repository(error) => error.message(),
            DoctorError::Config(error) => error.message(),
            DoctorError::Runner(error) => error.message(),
            DoctorError::InvalidGitOutput(problem) => {
                let mut text = "invalid Git output: ".to_owned();
                text.append(problem.as_str());
                text
            },
            DoctorError::Store(error) => error.message(),
            DoctorError::Observation(error) => error.message(),
            DoctorError::Github(error) => error.message(),
        }
    }
}

} // verus!
