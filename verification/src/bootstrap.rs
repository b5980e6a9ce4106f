//! Bringing a session up: the secret first, then the trust anchor, then the
//! client, then a first look at the ledger, then wallet recovery where it is
//! due.
//!
//! The caller does the work of each stage and reports how it went. This
//! module decides what comes next, what is shown, and what ends the start.

use crate::report::{error_report, error_text};
use crate::secret::{mode_for, recovery_due, recovery_due_for, secret_mode, SecretMode};
use crate::text::{contains_text, decimal, decimal_text, lemma_contains_middle};
use crate::trusted::{hex_encode, hex_text, utc_instant, utc_instant_text};
use vstd::prelude::*;

verus! {

/// What the remote endpoint says of the ledger: its latest version, and when
/// that version was made, in microseconds since the start of 1970.
#[derive(Clone, Copy, Debug, PartialEq, Eq, Structural)]
pub struct LedgerCheckpoint {
    pub version: u64,
    pub timestamp_micros: u64,
}

/// An account that wallet recovery derived.
#[derive(Clone, Debug, PartialEq, Eq)]
pub struct DerivedAccount {
    /// The account's place in derivation order.
    pub index: u64,
    /// The account's address, as bytes.
    pub address: Vec<u8>,
}

/// A derived account as plain values.
pub struct AccountView {
    pub index: u64,
    pub address: Seq<u8>,
}

impl View for DerivedAccount {
    type V = AccountView;

    open spec fn view(&self) -> AccountView {
        AccountView { index: self.index, address: self.address@ }
    }
}

/// The accounts of a list as plain values, in order.
pub open spec fn account_views(v: Seq<DerivedAccount>) -> Seq<AccountView> {
    Seq::new(v.len(), |i: int| v[i]@)
}

/// What the session is started with, as far as the start depends on it.
#[derive(Clone, Debug, PartialEq, Eq)]
pub struct BootPlan {
    /// The URL of the remote endpoint.
    pub url: String,
    /// The file to load the mnemonic from, where one was named.
    pub mnemonic_file: Option<String>,
}

/// A boot plan as plain values.
pub struct BootPlanView {
    pub url: Seq<char>,
    pub mnemonic_file: bool,
}

impl View for BootPlan {
    type V = BootPlanView;

    open spec fn view(&self) -> BootPlanView {
        BootPlanView { url: self.url@, mnemonic_file: self.mnemonic_file is Some }
    }
}

/// Where the start of a session stands.
#[derive(Clone, Debug, PartialEq, Eq)]
pub enum Stage {
    /// The secret was asked for.
    AwaitingSecret,
    /// The trust anchor is being resolved.
    AwaitingAnchor { recover: bool },
    /// The client is being built.
    AwaitingClient { recover: bool },
    /// The remote endpoint was asked for its latest checkpoint.
    AwaitingLedger { recover: bool },
    /// Wallet recovery is running.
    AwaitingRecovery { summary: String },
    /// The session is up. The summary says what it is connected to.
    Ready { summary: String },
    /// The session cannot start, and the message says why.
    Failed(String),
}

/// A stage as plain values.
pub enum StageView {
    AwaitingSecret,
    AwaitingAnchor { recover: bool },
    AwaitingClient { recover: bool },
    AwaitingLedger { recover: bool },
    AwaitingRecovery { summary: Seq<char> },
    Ready { summary: Seq<char> },
    Failed(Seq<char>),
}

impl View for Stage {
    type V = StageView;

    open spec fn view(&self) -> StageView {
        match *self {
            Stage::AwaitingSecret => StageView::AwaitingSecret,
            Stage::AwaitingAnchor { recover } => StageView::AwaitingAnchor { recover },
            Stage::AwaitingClient { recover } => StageView::AwaitingClient { recover },
            Stage::AwaitingLedger { recover } => StageView::AwaitingLedger { recover },
            Stage::AwaitingRecovery { summary } => StageView::AwaitingRecovery {
                summary: summary@,
            },
            Stage::Ready { summary } => StageView::Ready { summary: summary@ },
            Stage::Failed(message) => StageView::Failed(message@),
        }
    }
}

/// How a piece of the start went, as the caller reports it. Each failure
/// comes with the text of its cause.
#[derive(Debug, PartialEq, Eq)]
pub enum Report {
    /// The secret was read: the phrase that was entered, which may be empty.
    SecretRead(Result<String, String>),
    /// The trust anchor was resolved, or the message says why it was not.
    AnchorResolved(Result<(), String>),
    /// The client was built.
    ClientBuilt(Result<(), String>),
    /// The remote endpoint told its latest checkpoint.
    LedgerQueried(Result<LedgerCheckpoint, String>),
    /// The wallet was recovered: the derived accounts in derivation order.
    Recovered(Result<Vec<DerivedAccount>, String>),
}

/// A report as plain values.
pub enum ReportView {
    SecretRead(Result<Seq<char>, Seq<char>>),
    AnchorResolved(Result<(), Seq<char>>),
    ClientBuilt(Result<(), Seq<char>>),
    LedgerQueried(Result<LedgerCheckpoint, Seq<char>>),
    Recovered(Result<Seq<AccountView>, Seq<char>>),
}

impl View for Report {
    type V = ReportView;

    open spec fn view(&self) -> ReportView {
        match *self {
            Report::SecretRead(Ok(secret)) => ReportView::SecretRead(Ok(secret@)),
            Report::SecretRead(Err(cause)) => ReportView::SecretRead(Err(cause@)),
            Report::AnchorResolved(Ok(())) => ReportView::AnchorResolved(Ok(())),
            Report::AnchorResolved(Err(cause)) => ReportView::AnchorResolved(Err(cause@)),
            Report::ClientBuilt(Ok(())) => ReportView::ClientBuilt(Ok(())),
            Report::ClientBuilt(Err(cause)) => ReportView::ClientBuilt(Err(cause@)),
            Report::LedgerQueried(Ok(checkpoint)) => ReportView::LedgerQueried(Ok(checkpoint)),
            Report::LedgerQueried(Err(cause)) => ReportView::LedgerQueried(Err(cause@)),
            Report::Recovered(Ok(accounts)) => ReportView::Recovered(Ok(account_views(accounts@))),
            Report::Recovered(Err(cause)) => ReportView::Recovered(Err(cause@)),
        }
    }
}

/// What the caller is to do next.
#[derive(Clone, Copy, Debug, PartialEq, Eq, Structural)]
pub enum Task {
    /// Nothing: the start is over, or the report was not waited for.
    Nothing,
    /// Read the secret phrase in the given way.
    ReadSecret(SecretMode),
    /// Resolve the trust anchor.
    ResolveAnchor,
    /// Build the client, with the anchor and the secret.
    BuildClient,
    /// Ask the remote endpoint for its latest checkpoint.
    QueryLedger,
    /// Recover the wallet.
    RecoverWallet,
}

/// The whole seconds of a time in microseconds.
pub open spec fn seconds_of(micros: u64) -> int {
    micros as int / 1_000_000
}

/// The nanoseconds past the whole second of a time in microseconds.
pub open spec fn nanos_of(micros: u64) -> int {
    (micros as int % 1_000_000) * 1000
}

/// The summary of a connection: the endpoint, the latest version, and when
/// that version was made, already written out.
pub open spec fn summary_text(url: Seq<char>, version: u64, stamp: Seq<char>) -> Seq<char> {
    "Connected to validator at: "@ + url + ", latest version = "@ + decimal(version as nat)
        + ", timestamp = "@ + stamp
}

/// The summary of a connection from what the endpoint told, or nothing where
/// the time it told is no moment that can be written.
pub open spec fn summary_for(url: Seq<char>, checkpoint: LedgerCheckpoint) -> Option<Seq<char>> {
    match utc_instant_text(
        seconds_of(checkpoint.timestamp_micros),
        nanos_of(checkpoint.timestamp_micros),
    ) {
        Some(stamp) => Some(summary_text(url, checkpoint.version, stamp)),
        None => None,
    }
}

/// The line of the recovery report for one account.
pub open spec fn account_line(account: AccountView) -> Seq<char> {
    "#"@ + decimal(account.index as nat) + " address "@ + hex_text(account.address) + "\n"@
}

/// The lines of the recovery report for the accounts, in order.
pub open spec fn account_lines(accounts: Seq<AccountView>) -> Seq<char>
    decreases accounts.len(),
{
    if accounts.len() == 0 {
        Seq::empty()
    } else {
        account_lines(accounts.drop_last()) + account_line(accounts.last())
    }
}

/// The recovery report: how many accounts were derived, then each of them
/// with its index and its address, in derivation order.
pub open spec fn recovery_text(accounts: Seq<AccountView>) -> Seq<char> {
    "Wallet recovered and the first "@ + decimal(accounts.len()) + " child accounts were derived\n"@
        + account_lines(accounts)
}

/// What is shown before the secret is read.
pub open spec fn secret_prompt_text(mode: SecretMode) -> Seq<char> {
    match mode {
        SecretMode::Masked => "Enter your 0L mnemonic:\n\u{1F511}"@,
        SecretMode::Visible => "Enter your 0L mnemonic:\n(unsafe STDIN input for testing) \u{1F511}\n"@,
    }
}

/// The message for a secret that could not be read.
pub open spec fn secret_failure_text(cause: Seq<char>) -> Seq<char> {
    "Failed to read the mnemonic: "@ + cause
}

/// The message for a client that could not be built.
pub open spec fn client_failure_text(cause: Seq<char>) -> Seq<char> {
    "Failed to construct client.: "@ + cause
}

/// The message for an endpoint that did not tell its latest checkpoint.
pub open spec fn ledger_failure_text(url: Seq<char>, cause: Seq<char>) -> Seq<char> {
    "Not able to connect to validator at "@ + url + ". Error: "@ + cause
}

/// The message for an endpoint that told a time which cannot be written.
pub open spec fn timestamp_failure_text(url: Seq<char>, micros: u64) -> Seq<char> {
    ledger_failure_text(url, "timestamp out of range: "@ + decimal(micros as nat))
}

/// What a wallet recovery that failed is reported under.
pub open spec fn recovery_context() -> Seq<char> {
    "Error recovering Libra wallet"@
}

/// How the start begins: with the reading of the secret, in the way that
/// the deployment tag selects.
pub open spec fn begin_for(tag: Option<Seq<char>>) -> (StageView, Seq<char>, Task) {
    (
        StageView::AwaitingSecret,
        secret_prompt_text(mode_for(tag)),
        Task::ReadSecret(mode_for(tag)),
    )
}

/// What the endpoint's checkpoint leads to: the summary of the connection,
/// and wallet recovery where it is due.
pub open spec fn on_checkpoint(plan: BootPlanView, recover: bool, checkpoint: LedgerCheckpoint) -> (
    StageView,
    Seq<char>,
    Task,
) {
    match summary_for(plan.url, checkpoint) {
        Some(summary) => if recover {
            (StageView::AwaitingRecovery { summary }, Seq::empty(), Task::RecoverWallet)
        } else {
            (StageView::Ready { summary }, Seq::empty(), Task::Nothing)
        },
        None => (
            StageView::Failed(timestamp_failure_text(plan.url, checkpoint.timestamp_micros)),
            Seq::empty(),
            Task::Nothing,
        ),
    }
}

/// The stage after a report, what is shown, and what the caller is to do.
///
/// Every failure but that of wallet recovery ends the start. A wallet
/// recovery that fails is reported, and the session is up all the same. A
/// report that the stage does not wait for changes nothing.
pub open spec fn next(plan: BootPlanView, stage: StageView, report: ReportView) -> (
    StageView,
    Seq<char>,
    Task,
) {
    match (stage, report) {
        (StageView::AwaitingSecret, ReportView::SecretRead(Ok(secret))) => (
            StageView::AwaitingAnchor { recover: recovery_due_for(secret, plan.mnemonic_file) },
            Seq::empty(),
            Task::ResolveAnchor,
        ),
        (StageView::AwaitingSecret, ReportView::SecretRead(Err(cause))) => (
            StageView::Failed(secret_failure_text(cause)),
            Seq::empty(),
            Task::Nothing,
        ),
        (StageView::AwaitingAnchor { recover }, ReportView::AnchorResolved(Ok(_))) => (
            StageView::AwaitingClient { recover },
            Seq::empty(),
            Task::BuildClient,
        ),
        (StageView::AwaitingAnchor { .. }, ReportView::AnchorResolved(Err(message))) => (
            StageView::Failed(message),
            Seq::empty(),
            Task::Nothing,
        ),
        (StageView::AwaitingClient { recover }, ReportView::ClientBuilt(Ok(_))) => (
            StageView::AwaitingLedger { recover },
            Seq::empty(),
            Task::QueryLedger,
        ),
        (StageView::AwaitingClient { .. }, ReportView::ClientBuilt(Err(cause))) => (
            StageView::Failed(client_failure_text(cause)),
            Seq::empty(),
            Task::Nothing,
        ),
        (StageView::AwaitingLedger { recover }, ReportView::LedgerQueried(Ok(checkpoint))) => {
            on_checkpoint(plan, recover, checkpoint)
        },
        (StageView::AwaitingLedger { .. }, ReportView::LedgerQueried(Err(cause))) => (
            StageView::Failed(ledger_failure_text(plan.url, cause)),
            Seq::empty(),
            Task::Nothing,
        ),
        (StageView::AwaitingRecovery { summary }, ReportView::Recovered(Ok(accounts))) => (
            StageView::Ready { summary },
            recovery_text(accounts),
            Task::Nothing,
        ),
        (StageView::AwaitingRecovery { summary }, ReportView::Recovered(Err(cause))) => (
            StageView::Ready { summary },
            error_text(recovery_context(), cause),
            Task::Nothing,
        ),
        _ => (stage, Seq::empty(), Task::Nothing),
    }
}

/// Whether a report tells a checkpoint whose time lies before the end of the
/// year 9999, so that it can be written.
pub open spec fn in_written_range(report: ReportView) -> bool {
    report matches ReportView::LedgerQueried(Ok(checkpoint)) && checkpoint.timestamp_micros
        <= 253_402_300_799_999_999
}

/// How far a stage is into the start.
pub open spec fn rank(stage: StageView) -> nat {
    match stage {
        StageView::AwaitingSecret => 0,
        StageView::AwaitingAnchor { .. } => 1,
        StageView::AwaitingClient { .. } => 2,
        StageView::AwaitingLedger { .. } => 3,
        StageView::AwaitingRecovery { .. } => 4,
        StageView::Ready { .. } => 5,
        StageView::Failed(_) => 5,
    }
}

/// The stage that a run of reports ends at.
pub open spec fn stage_after(plan: BootPlanView, stage: StageView, reports: Seq<ReportView>) -> StageView
    decreases reports.len(),
{
    if reports.len() == 0 {
        stage
    } else {
        stage_after(plan, next(plan, stage, reports[0]).0, reports.drop_first())
    }
}

/// The number of times that a run of reports asks for wallet recovery.
pub open spec fn recoveries_in(plan: BootPlanView, stage: StageView, reports: Seq<ReportView>) -> nat
    decreases reports.len(),
{
    if reports.len() == 0 {
        0
    } else {
        let (after, _, task) = next(plan, stage, reports[0]);
        let here: nat = if task == Task::RecoverWallet {
            1
        } else {
            0
        };
        here + recoveries_in(plan, after, reports.drop_first())
    }
}

/// The start never goes back, and each piece of work is asked for on
/// entering its stage from the stage before, and at no other time. The
/// secret is not asked for again.
pub proof fn lemma_stages_in_order(plan: BootPlanView, stage: StageView, report: ReportView)
    ensures
        rank(next(plan, stage, report).0) >= rank(stage),
        !(next(plan, stage, report).2 is ReadSecret),
        next(plan, stage, report).2 == Task::ResolveAnchor <==> stage is AwaitingSecret && next(
            plan,
            stage,
            report,
        ).0 is AwaitingAnchor,
        next(plan, stage, report).2 == Task::BuildClient <==> stage is AwaitingAnchor && next(
            plan,
            stage,
            report,
        ).0 is AwaitingClient,
        next(plan, stage, report).2 == Task::QueryLedger <==> stage is AwaitingClient && next(
            plan,
            stage,
            report,
        ).0 is AwaitingLedger,
        next(plan, stage, report).2 == Task::RecoverWallet <==> stage is AwaitingLedger && next(
            plan,
            stage,
            report,
        ).0 is AwaitingRecovery,
{
}

/// The trust anchor is resolved only once the secret has been read, and the
/// client is built only once the trust anchor has been resolved.
pub proof fn lemma_client_needs_anchor(plan: BootPlanView, stage: StageView, report: ReportView)
    ensures
        next(plan, stage, report).2 == Task::ResolveAnchor ==> stage is AwaitingSecret
            && report is SecretRead && report->SecretRead_0 is Ok,
        next(plan, stage, report).2 == Task::BuildClient ==> stage is AwaitingAnchor
            && report is AnchorResolved && report->AnchorResolved_0 is Ok,
{
}

/// The secret is never shown, and nothing depends on it but on whether it is
/// empty: two secrets that are both empty, or both not, lead to the same
/// stage, the same text and the same task.
pub proof fn lemma_secret_is_not_shown(
    plan: BootPlanView,
    stage: StageView,
    first: Seq<char>,
    second: Seq<char>,
)
    requires
        first.len() > 0 <==> second.len() > 0,
    ensures
        next(plan, stage, ReportView::SecretRead(Ok(first))) == next(
            plan,
            stage,
            ReportView::SecretRead(Ok(second)),
        ),
        next(plan, stage, ReportView::SecretRead(Ok(first))).1 == Seq::<char>::empty(),
{
}

/// Wallet recovery is asked for only where it is due: the stage says so, and
/// it says what was decided when the secret was read.
pub proof fn lemma_recovery_only_where_due(
    plan: BootPlanView,
    stage: StageView,
    report: ReportView,
)
    ensures
        next(plan, stage, report).2 == Task::RecoverWallet ==> stage
            == (StageView::AwaitingLedger { recover: true }),
        stage is AwaitingSecret && next(plan, stage, report).0 is AwaitingAnchor ==> report
            is SecretRead && report->SecretRead_0 is Ok && next(plan, stage, report).0
            == (StageView::AwaitingAnchor {
            recover: recovery_due_for(report->SecretRead_0->Ok_0, plan.mnemonic_file),
        }),
        stage matches StageView::AwaitingAnchor { recover } ==> (next(plan, stage, report).0
            matches StageView::AwaitingClient { recover: kept } ==> kept == recover),
        stage matches StageView::AwaitingClient { recover } ==> (next(plan, stage, report).0
            matches StageView::AwaitingLedger { recover: kept } ==> kept == recover),
{
}

/// Once wallet recovery was asked for, it is not asked for again.
pub proof fn lemma_no_recovery_after_recovery(
    plan: BootPlanView,
    stage: StageView,
    reports: Seq<ReportView>,
)
    requires
        rank(stage) >= 4,
    ensures
        recoveries_in(plan, stage, reports) == 0,
    decreases reports.len(),
{
    if reports.len() > 0 {
        lemma_stages_in_order(plan, stage, reports[0]);
        lemma_no_recovery_after_recovery(
            plan,
            next(plan, stage, reports[0]).0,
            reports.drop_first(),
        );
    }
}

/// Whatever is reported, and in whatever order, wallet recovery is asked for
/// at most once.
pub proof fn lemma_recovers_at_most_once(
    plan: BootPlanView,
    stage: StageView,
    reports: Seq<ReportView>,
)
    ensures
        recoveries_in(plan, stage, reports) <= 1,
    decreases reports.len(),
{
    if reports.len() > 0 {
        let (after, _, task) = next(plan, stage, reports[0]);
        lemma_stages_in_order(plan, stage, reports[0]);
        if task == Task::RecoverWallet {
            lemma_no_recovery_after_recovery(plan, after, reports.drop_first());
        } else {
            lemma_recovers_at_most_once(plan, after, reports.drop_first());
        }
    }
}

/// The message for an endpoint that did not tell its latest checkpoint names
/// the endpoint and the cause.
pub proof fn lemma_ledger_failure_names_both(url: Seq<char>, cause: Seq<char>)
    ensures
        contains_text(ledger_failure_text(url, cause), url),
        contains_text(ledger_failure_text(url, cause), cause),
{
    lemma_contains_middle("Not able to connect to validator at "@, url, ". Error: "@ + cause);
    assert("Not able to connect to validator at "@ + url + (". Error: "@ + cause)
        =~= ledger_failure_text(url, cause));
    lemma_contains_middle(
        "Not able to connect to validator at "@ + url + ". Error: "@,
        cause,
        Seq::empty(),
    );
    assert("Not able to connect to validator at "@ + url + ". Error: "@ + cause + Seq::<
        char,
    >::empty() =~= ledger_failure_text(url, cause));
}

/// A wallet recovery that fails does not stop the session: the failure is
/// shown, and the session is up with the summary it had.
pub proof fn lemma_failed_recovery_is_not_fatal(
    plan: BootPlanView,
    summary: Seq<char>,
    cause: Seq<char>,
)
    ensures
        next(plan, StageView::AwaitingRecovery { summary }, ReportView::Recovered(Err(cause))) == (
            StageView::Ready { summary },
            error_text(recovery_context(), cause),
            Task::Nothing,
        ),
{
}

/// A start in which everything goes well ends with the summary of the
/// connection, after one wallet recovery where the secret is not empty or a
/// mnemonic file was named, and after none otherwise.
pub proof fn lemma_good_start(
    plan: BootPlanView,
    secret: Seq<char>,
    checkpoint: LedgerCheckpoint,
    recovered: Result<Seq<AccountView>, Seq<char>>,
)
    requires
        summary_for(plan.url, checkpoint) is Some,
    ensures
        ({
            let due = recovery_due_for(secret, plan.mnemonic_file);
            let reports = seq![
                ReportView::SecretRead(Ok(secret)),
                ReportView::AnchorResolved(Ok(())),
                ReportView::ClientBuilt(Ok(())),
                ReportView::LedgerQueried(Ok(checkpoint)),
            ];
            let all = if due {
                reports.push(ReportView::Recovered(recovered))
            } else {
                reports
            };
            &&& stage_after(plan, StageView::AwaitingSecret, all) == (StageView::Ready {
                summary: summary_for(plan.url, checkpoint)->Some_0,
            })
            &&& recoveries_in(plan, StageView::AwaitingSecret, all) == if due {
                1nat
            } else {
                0nat
            }
        }),
{
    let due = recovery_due_for(secret, plan.mnemonic_file);
    let summary = summary_for(plan.url, checkpoint)->Some_0;
    let r0 = ReportView::SecretRead(Ok(secret));
    let r1 = ReportView::AnchorResolved(Ok(()));
    let r2 = ReportView::ClientBuilt(Ok(()));
    let r3 = ReportView::LedgerQueried(Ok(checkpoint));
    let r4 = ReportView::Recovered(recovered);
    let s0 = StageView::AwaitingSecret;
    let s1 = StageView::AwaitingAnchor { recover: due };
    let s2 = StageView::AwaitingClient { recover: due };
    let s3 = StageView::AwaitingLedger { recover: due };
    let done = StageView::Ready { summary };
    let none = Seq::<ReportView>::empty();
    if due {
        let s4 = StageView::AwaitingRecovery { summary };
        let all = seq![r0, r1, r2, r3, r4];
        assert(all == seq![r0, r1, r2, r3].push(r4));
        assert(all.drop_first() =~= seq![r1, r2, r3, r4]);
        assert(seq![r1, r2, r3, r4].drop_first() =~= seq![r2, r3, r4]);
        assert(seq![r2, r3, r4].drop_first() =~= seq![r3, r4]);
        assert(seq![r3, r4].drop_first() =~= seq![r4]);
        assert(seq![r4].drop_first() =~= none);
        assert(next(plan, s4, r4).0 == done);
        assert(stage_after(plan, done, none) == done);
        assert(stage_after(plan, s4, seq![r4]) == done);
        assert(stage_after(plan, s3, seq![r3, r4]) == done);
        assert(stage_after(plan, s2, seq![r2, r3, r4]) == done);
        assert(stage_after(plan, s1, seq![r1, r2, r3, r4]) == done);
        assert(recoveries_in(plan, done, none) == 0);
        assert(recoveries_in(plan, s4, seq![r4]) == 0);
        assert(recoveries_in(plan, s3, seq![r3, r4]) == 1);
        assert(recoveries_in(plan, s2, seq![r2, r3, r4]) == 1);
        assert(recoveries_in(plan, s1, seq![r1, r2, r3, r4]) == 1);
    } else {
        let all = seq![r0, r1, r2, r3];
        assert(all.drop_first() =~= seq![r1, r2, r3]);
        assert(seq![r1, r2, r3].drop_first() =~= seq![r2, r3]);
        assert(seq![r2, r3].drop_first() =~= seq![r3]);
        assert(seq![r3].drop_first() =~= none);
        assert(stage_after(plan, done, none) == done);
        assert(stage_after(plan, s3, seq![r3]) == done);
        assert(stage_after(plan, s2, seq![r2, r3]) == done);
        assert(stage_after(plan, s1, seq![r1, r2, r3]) == done);
        assert(recoveries_in(plan, done, none) == 0);
        assert(recoveries_in(plan, s3, seq![r3]) == 0);
        assert(recoveries_in(plan, s2, seq![r2, r3]) == 0);
        assert(recoveries_in(plan, s1, seq![r1, r2, r3]) == 0);
    }
}

/// Writes the summary of a connection around a time that is already written
/// out.
pub fn summary_with(url: &str, version: u64, stamp: &str) -> (out: String)
    ensures
        out@ == summary_text(url@, version, stamp@),
{
    let mut out = "Connected to validator at: ".to_owned();
    out.append(url);
    out.append(", latest version = ");
    out.append(decimal_text(version).as_str());
    out.append(", timestamp = ");
    out.append(stamp);
    out
}

/// Writes the summary of a connection from what the endpoint told. There is
/// a summary for every time up to the end of the year 9999, and none for a
/// time that cannot be written.
pub fn connection_summary(url: &str, checkpoint: LedgerCheckpoint) -> (out: Option<String>)
    ensures
        match out {
            Some(summary) => summary_for(url@, checkpoint) == Some(summary@),
            None => summary_for(url@, checkpoint) is None,
        },
        checkpoint.timestamp_micros <= 253_402_300_799_999_999 ==> out is Some,
{
    let micros: u64 = checkpoint.timestamp_micros;
    let secs: i64 = (micros / 1_000_000) as i64;
    let nanos: u32 = ((micros % 1_000_000) * 1000) as u32;
    match utc_instant(secs, nanos) {
        Some(stamp) => Some(summary_with(url, checkpoint.version, stamp.as_str())),
        None => None,
    }
}

/// Writes the recovery report.
pub fn recovery_report(accounts: &Vec<DerivedAccount>) -> (out: String)
    ensures
        out@ == recovery_text(account_views(accounts@)),
{
    let ghost views = account_views(accounts@);
    let mut out = "Wallet recovered and the first ".to_owned();
    out.append(decimal_text(accounts.len() as u64).as_str());
    out.append(" child accounts were derived\n");
    let ghost head = out@;
    let mut i: usize = 0;
    assert(head + account_lines(views.take(0)) =~= head);
    while i < accounts.len()
        invariant
            views == account_views(accounts@),
            i <= accounts.len(),
            out@ == head + account_lines(views.take(i as int)),
        decreases accounts.len() - i,
    {
        let account = &accounts[i];
        let address = hex_encode(account.address.as_slice());
        proof {
            let upto = views.take(i + 1);
            assert(upto.drop_last() =~= views.take(i as int));
            assert(upto.last() == account@);
            assert(head + account_lines(upto.drop_last()) + "#"@ + decimal(account.index as nat)
                + " address "@ + address@ + "\n"@ =~= head + account_lines(upto));
        }
        out.append("#");
        out.append(decimal_text(account.index).as_str());
        out.append(" address ");
        out.append(address.as_str());
        out.append("\n");
        i += 1;
    }
    assert(views.take(i as int) =~= views);
    out
}

/// Writes what is shown before the secret is read.
pub fn secret_prompt(mode: SecretMode) -> (out: String)
    ensures
        out@ == secret_prompt_text(mode),
{
    match mode {
        SecretMode::Masked => "Enter your 0L mnemonic:\n\u{1F511}".to_owned(),
        SecretMode::Visible => {
            "Enter your 0L mnemonic:\n(unsafe STDIN input for testing) \u{1F511}\n".to_owned()
        },
    }
}

/// Begins the start of a session from the deployment tag, if one is set.
pub fn begin(tag: Option<&str>) -> (out: (Stage, String, Task))
    ensures
        (out.0@, out.1@, out.2) == begin_for(
            match tag {
                Some(t) => Some(t@),
                None => None,
            },
        ),
{
    let mode = secret_mode(tag);
    (Stage::AwaitingSecret, secret_prompt(mode), Task::ReadSecret(mode))
}

/// Writes a message from what it begins with and the cause it ends with.
fn with_cause(head: &str, cause: &str) -> (out: String)
    ensures
        out@ == head@ + cause@,
{
    let mut out = head.to_owned();
    out.append(cause);
    out
}

/// Writes the message for an endpoint that did not tell its latest
/// checkpoint.
pub fn ledger_failure(url: &str, cause: &str) -> (out: String)
    ensures
        out@ == ledger_failure_text(url@, cause@),
{
    let mut out = "Not able to connect to validator at ".to_owned();
    out.append(url);
    out.append(". Error: ");
    out.append(cause);
    out
}

/// Takes the start of a session one step, from the stage it is at and the
/// report of the caller. The report is only read: the secret in it stays
/// with the caller.
pub fn step(plan: &BootPlan, stage: Stage, report: &Report) -> (out: (Stage, String, Task))
    ensures
        (out.0@, out.1@, out.2) == next(plan@, stage@, report@),
        stage@ is AwaitingLedger && in_written_range(report@) ==> out.0@ is AwaitingRecovery
            || out.0@ is Ready,
{
    match stage {
        Stage::AwaitingSecret => match report {
            Report::SecretRead(Ok(secret)) => (
                Stage::AwaitingAnchor {
                    recover: recovery_due(secret.as_str(), &plan.mnemonic_file),
                },
                String::new(),
                Task::ResolveAnchor,
            ),
            Report::SecretRead(Err(cause)) => (
                Stage::Failed(with_cause("Failed to read the mnemonic: ", cause.as_str())),
                String::new(),
                Task::Nothing,
            ),
            _ => (Stage::AwaitingSecret, String::new(), Task::Nothing),
        },
        Stage::AwaitingAnchor { recover } => match report {
            Report::AnchorResolved(Ok(_)) => (
                Stage::AwaitingClient { recover },
                String::new(),
                Task::BuildClient,
            ),
            Report::AnchorResolved(Err(message)) => (
                Stage::Failed(message.clone()),
                String::new(),
                Task::Nothing,
            ),
            _ => (Stage::AwaitingAnchor { recover }, String::new(), Task::Nothing),
        },
        Stage::AwaitingClient { recover } => match report {
            Report::ClientBuilt(Ok(_)) => (
                Stage::AwaitingLedger { recover },
                String::new(),
                Task::QueryLedger,
            ),
            Report::ClientBuilt(Err(cause)) => (
                Stage::Failed(with_cause("Failed to construct client.: ", cause.as_str())),
                String::new(),
                Task::Nothing,
            ),
            _ => (Stage::AwaitingClient { recover }, String::new(), Task::Nothing),
        },
        Stage::AwaitingLedger { recover } => match report {
            Report::LedgerQueried(Ok(checkpoint)) => {
                match connection_summary(plan.url.as_str(), *checkpoint) {
                    Some(summary) => if recover {
                        (Stage::AwaitingRecovery { summary }, String::new(), Task::RecoverWallet)
                    } else {
                        (Stage::Ready { summary }, String::new(), Task::Nothing)
                    },
                    None => {
                        let cause = with_cause(
                            "timestamp out of range: ",
                            decimal_text(checkpoint.timestamp_micros).as_str(),
                        );
                        (
                            Stage::Failed(ledger_failure(plan.url.as_str(), cause.as_str())),
                            String::new(),
                            Task::Nothing,
                        )
                    },
                }
            },
            Report::LedgerQueried(Err(cause)) => (
                Stage::Failed(ledger_failure(plan.url.as_str(), cause.as_str())),
                String::new(),
                Task::Nothing,
            ),
            _ => (Stage::AwaitingLedger { recover }, String::new(), Task::Nothing),
        },
        Stage::AwaitingRecovery { summary } => match report {
            Report::Recovered(Ok(accounts)) => (
                Stage::Ready { summary },
                recovery_report(accounts),
                Task::Nothing,
            ),
            Report::Recovered(Err(cause)) => (
                Stage::Ready { summary },
                error_report("Error recovering Libra wallet", cause.as_str()),
                Task::Nothing,
            ),
            _ => (Stage::AwaitingRecovery { summary }, String::new(), Task::Nothing),
        },
        Stage::Ready { summary } => (Stage::Ready { summary }, String::new(), Task::Nothing),
        Stage::Failed(message) => (Stage::Failed(message), String::new(), Task::Nothing),
    }
}

} // verus!
