use topic_dump::config::{fetch_config, resolve_args, Args, ArgsError, FetchConfig, StartOffset};
use topic_dump::pipeline::{run_outcome, RunOutcome};
use topic_dump::fetcher::FetchError;
use topic_dump::persister::PersistError;

#[test]
fn missing_arguments_get_their_defaults() {
    assert_eq!(
        resolve_args(None, Some("orders".to_string()), None, false),
        Ok(Args {
            brokers: vec!["localhost:9092".to_string()],
            topic: "orders".to_string(),
            output: "dump.sqlite".to_string(),
            compact: false,
        })
    );
}

#[test]
fn named_arguments_are_kept() {
    assert_eq!(
        resolve_args(
            Some(vec!["a:1".to_string(), "b:2".to_string()]),
            Some("orders".to_string()),
            Some("out.db".to_string()),
            true
        ),
        Ok(Args {
            brokers: vec!["a:1".to_string(), "b:2".to_string()],
            topic: "orders".to_string(),
            output: "out.db".to_string(),
            compact: true,
        })
    );
}

#[test]
fn an_empty_list_of_brokers_gets_the_default_broker() {
    let args = resolve_args(Some(Vec::new()), Some("t".to_string()), None, false).unwrap();
    assert_eq!(args.brokers, vec!["localhost:9092".to_string()]);
}

#[test]
fn a_run_without_a_topic_is_refused() {
    assert_eq!(
        resolve_args(Some(vec!["a:1".to_string()]), None, Some("out.db".to_string()), true),
        Err(ArgsError::MissingTopic)
    );
}

#[test]
fn the_connection_has_its_fixed_settings() {
    assert_eq!(
        fetch_config(vec!["a:1".to_string()], "orders".to_string()),
        FetchConfig {
            brokers: vec!["a:1".to_string()],
            group: "dump-kafka-to-sql".to_string(),
            topic: "orders".to_string(),
            max_wait_ms: 100,
            min_bytes: 1_000,
            max_bytes_per_partition: 100_000,
            retry_max_bytes: 1_000_000,
            fallback: StartOffset::Earliest,
        }
    );
}

#[test]
fn a_run_succeeds_when_the_persister_completed() {
    assert_eq!(run_outcome(Ok(()), Ok(())), RunOutcome::Completed);
    assert!(run_outcome(Ok(()), Ok(())).succeeded());
    assert_eq!(run_outcome(Ok(()), Ok(())).fetcher_failure(), None);
}

#[test]
fn a_failure_of_the_fetcher_is_kept_when_the_persister_completed() {
    let outcome = run_outcome(Err(FetchError::PollFailed), Ok(()));
    assert_eq!(outcome, RunOutcome::Incomplete(FetchError::PollFailed));
    assert!(outcome.succeeded());
    assert_eq!(outcome.fetcher_failure(), Some(FetchError::PollFailed));
}

#[test]
fn a_run_fails_when_the_persister_failed() {
    let outcome = run_outcome(Ok(()), Err(PersistError::CommitFailed));
    assert_eq!(
        outcome,
        RunOutcome::Failed { persister: PersistError::CommitFailed, fetcher: None }
    );
    assert!(!outcome.succeeded());
    assert_eq!(outcome.fetcher_failure(), None);
}

#[test]
fn both_failures_are_kept_when_both_stages_failed() {
    let outcome = run_outcome(Err(FetchError::HandOffFailed), Err(PersistError::WriteFailed));
    assert_eq!(
        outcome,
        RunOutcome::Failed {
            persister: PersistError::WriteFailed,
            fetcher: Some(FetchError::HandOffFailed)
        }
    );
    assert!(!outcome.succeeded());
    assert_eq!(outcome.fetcher_failure(), Some(FetchError::HandOffFailed));
}
