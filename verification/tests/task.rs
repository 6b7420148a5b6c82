use srss::failure::Cause;
use srss::failure::Failure;
use srss::task_context;
use tokio::task::JoinError;

/// The error of a task that was stopped before it could run.
fn cancelled() -> JoinError {
    let runtime = tokio::runtime::Builder::new_current_thread().build().unwrap();
    runtime.block_on(async {
        let handle = tokio::spawn(async {
            std::future::pending::<()>().await;
        });
        handle.abort();
        handle.await.unwrap_err()
    })
}

#[test]
fn a_value_passes_through() {
    let result: Result<u32, Failure> =
        task_context("unable to scrape dashboard".to_string())(Ok(Ok(7)));
    assert_eq!(result.unwrap(), 7);
}

#[test]
fn a_failure_of_the_task_gets_the_note() {
    let inner = Failure::new(Cause::LoginFormNotFound).context("unable to login");
    let result: Result<(), Failure> =
        task_context("unable to scrape dashboard".to_string())(Ok(Err(inner)));
    let failure = result.unwrap_err();
    assert!(matches!(failure.cause, Cause::LoginFormNotFound));
    assert_eq!(
        failure.to_string(),
        "unable to scrape dashboard: unable to login: failed to find login form"
    );
}

#[test]
fn a_task_that_did_not_end_gives_a_failure_with_the_note() {
    let error = cancelled();
    assert!(error.is_cancelled());
    let said = error.to_string();
    assert!(said.contains("cancelled"));
    let result: Result<(), Failure> =
        task_context("unable to write report logs".to_string())(Err(error));
    let failure = result.unwrap_err();
    assert!(matches!(&failure.cause, Cause::Outside(message) if *message == said));
    assert_eq!(failure.context, vec!["unable to write report logs".to_string()]);
    assert_eq!(failure.to_string(), format!("unable to write report logs: {}", said));
}
