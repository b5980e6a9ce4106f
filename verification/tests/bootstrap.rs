use client_shell::bootstrap::{
    begin, connection_summary, ledger_failure, recovery_report, secret_prompt, step, summary_with,
    BootPlan, DerivedAccount, LedgerCheckpoint, Report, Stage, Task,
};
use client_shell::secret::SecretMode;

const URL: &str = "http://localhost:8080";

fn plan(mnemonic_file: Option<&str>) -> BootPlan {
    BootPlan { url: URL.to_string(), mnemonic_file: mnemonic_file.map(|f| f.to_string()) }
}

fn checkpoint() -> LedgerCheckpoint {
    LedgerCheckpoint { version: 5, timestamp_micros: 1_600_000_000_123_456 }
}

fn summary() -> String {
    "Connected to validator at: http://localhost:8080, latest version = 5, \
     timestamp = 2020-09-13T12:26:40.123456Z"
        .to_string()
}

fn accounts() -> Vec<DerivedAccount> {
    vec![
        DerivedAccount { index: 0, address: vec![0x00, 0x01, 0x0f, 0x10, 0xab, 0xff] },
        DerivedAccount { index: 1, address: vec![0xde, 0xad, 0xbe, 0xef] },
        DerivedAccount { index: 12, address: Vec::new() },
    ]
}

fn nothing() -> String {
    String::new()
}

#[test]
fn the_start_begins_with_the_secret() {
    let expected = "Enter your 0L mnemonic:\n\u{1F511}".to_string();
    assert_eq!(begin(None), (Stage::AwaitingSecret, expected.clone(), Task::ReadSecret(SecretMode::Masked)));
    assert_eq!(begin(Some("prod")), (Stage::AwaitingSecret, expected, Task::ReadSecret(SecretMode::Masked)));
}

#[test]
fn outside_production_the_secret_is_read_in_the_open() {
    let expected = "Enter your 0L mnemonic:\n(unsafe STDIN input for testing) \u{1F511}\n".to_string();
    assert_eq!(
        begin(Some("test")),
        (Stage::AwaitingSecret, expected.clone(), Task::ReadSecret(SecretMode::Visible))
    );
    assert_eq!(secret_prompt(SecretMode::Visible), expected);
}

#[test]
fn the_summary_names_the_endpoint_the_version_and_the_time() {
    assert_eq!(connection_summary(URL, checkpoint()), Some(summary()));
    assert_eq!(
        connection_summary("v", LedgerCheckpoint { version: 0, timestamp_micros: 0 }),
        Some("Connected to validator at: v, latest version = 0, timestamp = 1970-01-01T00:00:00Z".to_string())
    );
    assert_eq!(
        connection_summary("v", LedgerCheckpoint { version: u64::MAX, timestamp_micros: 1_500_000 }),
        Some(
            "Connected to validator at: v, latest version = 18446744073709551615, \
             timestamp = 1970-01-01T00:00:01.500Z"
                .to_string()
        )
    );
    assert_eq!(
        summary_with("v", 3, "now"),
        "Connected to validator at: v, latest version = 3, timestamp = now"
    );
}

#[test]
fn the_summary_reaches_the_end_of_the_year_9999() {
    let last = LedgerCheckpoint { version: 1, timestamp_micros: 253_402_300_799_999_999 };
    assert_eq!(
        connection_summary("v", last),
        Some(
            "Connected to validator at: v, latest version = 1, timestamp = 9999-12-31T23:59:59.999999Z"
                .to_string()
        )
    );
}

#[test]
fn there_is_no_summary_for_a_time_out_of_range() {
    let late = LedgerCheckpoint { version: 1, timestamp_micros: u64::MAX };
    assert_eq!(connection_summary(URL, late), None);
}

#[test]
fn the_recovery_report_lists_the_accounts_in_order() {
    assert_eq!(
        recovery_report(&accounts()),
        "Wallet recovered and the first 3 child accounts were derived\n\
         #0 address 00010f10abff\n\
         #1 address deadbeef\n\
         #12 address \n"
    );
    assert_eq!(
        recovery_report(&Vec::new()),
        "Wallet recovered and the first 0 child accounts were derived\n"
    );
}

#[test]
fn the_recovery_report_writes_every_byte_in_two_digits() {
    let all: Vec<u8> = (0..=255).collect();
    let report = recovery_report(&vec![DerivedAccount { index: 7, address: all.clone() }]);
    let mut expected = "Wallet recovered and the first 1 child accounts were derived\n#7 address ".to_string();
    for byte in all {
        expected.push_str(&format!("{:02x}", byte));
    }
    expected.push('\n');
    assert_eq!(report, expected);
}

#[test]
fn a_start_without_recovery_runs_through_its_stages() {
    let plan = plan(None);
    let (stage, shown, task) = begin(None);
    assert_eq!(task, Task::ReadSecret(SecretMode::Masked));
    assert!(!shown.is_empty());
    let out = step(&plan, stage, &Report::SecretRead(Ok(String::new())));
    assert_eq!(out, (Stage::AwaitingAnchor { recover: false }, nothing(), Task::ResolveAnchor));
    let out = step(&plan, out.0, &Report::AnchorResolved(Ok(())));
    assert_eq!(out, (Stage::AwaitingClient { recover: false }, nothing(), Task::BuildClient));
    let out = step(&plan, out.0, &Report::ClientBuilt(Ok(())));
    assert_eq!(out, (Stage::AwaitingLedger { recover: false }, nothing(), Task::QueryLedger));
    let out = step(&plan, out.0, &Report::LedgerQueried(Ok(checkpoint())));
    assert_eq!(out, (Stage::Ready { summary: summary() }, nothing(), Task::Nothing));
}

#[test]
fn a_secret_brings_wallet_recovery() {
    let plan = plan(None);
    let out = step(&plan, Stage::AwaitingSecret, &Report::SecretRead(Ok("talent sunset".to_string())));
    assert_eq!(out, (Stage::AwaitingAnchor { recover: true }, nothing(), Task::ResolveAnchor));
    let out = step(&plan, out.0, &Report::AnchorResolved(Ok(())));
    assert_eq!(out, (Stage::AwaitingClient { recover: true }, nothing(), Task::BuildClient));
    let out = step(&plan, out.0, &Report::ClientBuilt(Ok(())));
    assert_eq!(out, (Stage::AwaitingLedger { recover: true }, nothing(), Task::QueryLedger));
    let out = step(&plan, out.0, &Report::LedgerQueried(Ok(checkpoint())));
    assert_eq!(out, (Stage::AwaitingRecovery { summary: summary() }, nothing(), Task::RecoverWallet));
    let out = step(&plan, out.0, &Report::Recovered(Ok(accounts())));
    assert_eq!(out, (Stage::Ready { summary: summary() }, recovery_report(&accounts()), Task::Nothing));
}

#[test]
fn a_mnemonic_file_brings_wallet_recovery_too() {
    let plan = plan(Some("client.mnemonic"));
    let out = step(&plan, Stage::AwaitingSecret, &Report::SecretRead(Ok(String::new())));
    assert_eq!(out, (Stage::AwaitingAnchor { recover: true }, nothing(), Task::ResolveAnchor));
}

#[test]
fn a_failed_recovery_is_reported_and_the_session_is_up() {
    let recovering = Stage::AwaitingRecovery { summary: summary() };
    let out = step(&plan(None), recovering, &Report::Recovered(Err("no wallet".to_string())));
    assert_eq!(
        out,
        (
            Stage::Ready { summary: summary() },
            "[ERROR] Error recovering Libra wallet: no wallet\n".to_string(),
            Task::Nothing,
        )
    );
}

#[test]
fn a_secret_that_cannot_be_read_ends_the_start() {
    let out = step(&plan(None), Stage::AwaitingSecret, &Report::SecretRead(Err("no tty".to_string())));
    assert_eq!(
        out,
        (Stage::Failed("Failed to read the mnemonic: no tty".to_string()), nothing(), Task::Nothing)
    );
}

#[test]
fn an_anchor_that_cannot_be_resolved_ends_the_start() {
    let message = "Failure to retrieve a waypoint from http://example/wp: timed out".to_string();
    let out = step(
        &plan(None),
        Stage::AwaitingAnchor { recover: true },
        &Report::AnchorResolved(Err(message.clone())),
    );
    assert_eq!(out, (Stage::Failed(message), nothing(), Task::Nothing));
}

#[test]
fn a_client_that_cannot_be_built_ends_the_start() {
    let out = step(
        &plan(None),
        Stage::AwaitingClient { recover: false },
        &Report::ClientBuilt(Err("bad key file".to_string())),
    );
    assert_eq!(
        out,
        (Stage::Failed("Failed to construct client.: bad key file".to_string()), nothing(), Task::Nothing)
    );
}

#[test]
fn an_endpoint_that_does_not_answer_ends_the_start() {
    let out = step(
        &plan(None),
        Stage::AwaitingLedger { recover: true },
        &Report::LedgerQueried(Err("connection refused".to_string())),
    );
    let message =
        "Not able to connect to validator at http://localhost:8080. Error: connection refused".to_string();
    assert_eq!(ledger_failure(URL, "connection refused"), message);
    assert_eq!(out, (Stage::Failed(message), nothing(), Task::Nothing));
}

#[test]
fn a_time_out_of_range_ends_the_start() {
    let late = LedgerCheckpoint { version: 1, timestamp_micros: u64::MAX };
    let out = step(&plan(None), Stage::AwaitingLedger { recover: true }, &Report::LedgerQueried(Ok(late)));
    assert_eq!(
        out,
        (
            Stage::Failed(
                "Not able to connect to validator at http://localhost:8080. \
                 Error: timestamp out of range: 18446744073709551615"
                    .to_string()
            ),
            nothing(),
            Task::Nothing,
        )
    );
}

#[test]
fn a_report_that_is_not_waited_for_changes_nothing() {
    let plan = plan(Some("client.mnemonic"));
    let stages = vec![
        Stage::AwaitingSecret,
        Stage::AwaitingAnchor { recover: true },
        Stage::AwaitingClient { recover: false },
        Stage::AwaitingLedger { recover: true },
        Stage::AwaitingRecovery { summary: summary() },
    ];
    let reports = vec![
        Report::SecretRead(Ok("s".to_string())),
        Report::AnchorResolved(Ok(())),
        Report::ClientBuilt(Ok(())),
        Report::LedgerQueried(Ok(checkpoint())),
        Report::Recovered(Ok(accounts())),
    ];
    for (i, stage) in stages.iter().enumerate() {
        for (j, report) in reports.iter().enumerate() {
            if i != j {
                assert_eq!(step(&plan, stage.clone(), report), (stage.clone(), nothing(), Task::Nothing));
            }
        }
    }
}

#[test]
fn a_start_that_is_over_stays_as_it_is() {
    let plan = plan(None);
    let reports = vec![
        Report::SecretRead(Ok("s".to_string())),
        Report::AnchorResolved(Ok(())),
        Report::ClientBuilt(Ok(())),
        Report::LedgerQueried(Ok(checkpoint())),
        Report::Recovered(Ok(accounts())),
        Report::Recovered(Err("e".to_string())),
    ];
    for stage in [Stage::Ready { summary: summary() }, Stage::Failed("no".to_string())] {
        for report in &reports {
            assert_eq!(step(&plan, stage.clone(), report), (stage.clone(), nothing(), Task::Nothing));
        }
    }
}

#[test]
fn the_wallet_is_recovered_at_most_once() {
    let plan = plan(None);
    let reports = vec![
        Report::SecretRead(Ok("talent".to_string())),
        Report::AnchorResolved(Ok(())),
        Report::ClientBuilt(Ok(())),
        Report::LedgerQueried(Ok(checkpoint())),
        Report::LedgerQueried(Ok(checkpoint())),
        Report::Recovered(Err("e".to_string())),
        Report::LedgerQueried(Ok(checkpoint())),
        Report::Recovered(Ok(accounts())),
    ];
    let mut stage = begin(Some("test")).0;
    let mut recoveries = 0;
    for report in &reports {
        let (next, _, task) = step(&plan, stage, report);
        stage = next;
        if task == Task::RecoverWallet {
            recoveries += 1;
        }
    }
    assert_eq!(recoveries, 1);
    assert_eq!(stage, Stage::Ready { summary: summary() });
}
