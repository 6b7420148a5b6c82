use std::path::PathBuf;

use srss::cli::CliArgs;
use srss::cli::CredentialArgs;
use srss::cli::Credentials;
use srss::cli::DriverArgs;
use srss::cli::ExportArgs;
use srss::cli::ExportFormat;
use srss::cli::Prompt;

#[test]
fn credentials_from_the_command_line_need_no_prompt() {
    let args =
        CredentialArgs { username: Some("me@x.test".to_string()), password: Some("s3cret".to_string()) };
    let credentials = Credentials::form_args_or_prompt(&args).unwrap();
    assert_eq!(credentials.username, "me@x.test");
    assert_eq!(credentials.password, "s3cret");
}

#[test]
fn white_space_at_the_ends_is_dropped() {
    let args = CredentialArgs {
        username: Some("  me@x.test\n".to_string()),
        password: Some("\t pass word \r\n".to_string()),
    };
    let credentials = Credentials::form_args_or_prompt(&args).unwrap();
    assert_eq!(credentials.username, "me@x.test");
    assert_eq!(credentials.password, "pass word");
}

#[test]
fn the_name_is_asked_for_first() {
    let args = CredentialArgs { username: None, password: None };
    assert_eq!(Credentials::form_args_or_prompt(&args).unwrap_err(), Prompt::Username);
    let args = CredentialArgs { username: None, password: Some("x".to_string()) };
    assert_eq!(Credentials::form_args_or_prompt(&args).unwrap_err(), Prompt::Username);
}

#[test]
fn only_what_is_missing_is_asked_for() {
    let args = CredentialArgs { username: Some("me".to_string()), password: None };
    assert_eq!(Credentials::form_args_or_prompt(&args).unwrap_err(), Prompt::Password);
}

#[test]
fn answers_complete_the_credentials() {
    let mut args = CredentialArgs { username: None, password: None };
    let mut asked = Vec::new();
    let credentials = loop {
        match Credentials::form_args_or_prompt(&args) {
            Ok(credentials) => break credentials,
            Err(prompt) => {
                asked.push(prompt);
                let answer = match prompt {
                    Prompt::Username => " typed name ",
                    Prompt::Password => " typed password ",
                };
                args = args.answer(prompt, answer.to_string());
            }
        }
    };
    assert_eq!(asked, vec![Prompt::Username, Prompt::Password]);
    assert_eq!(credentials.username, "typed name");
    assert_eq!(credentials.password, "typed password");
}

#[test]
fn an_answer_leaves_the_other_field_alone() {
    let args = CredentialArgs { username: Some("a".to_string()), password: Some("b".to_string()) };
    let args = args.answer(Prompt::Password, "c".to_string());
    assert_eq!(args.username.as_deref(), Some("a"));
    assert_eq!(args.password.as_deref(), Some("c"));
    let args = args.answer(Prompt::Username, "d".to_string());
    assert_eq!(args.username.as_deref(), Some("d"));
    assert_eq!(args.password.as_deref(), Some("c"));
}

#[test]
fn prompts_have_their_words() {
    assert_eq!(Prompt::Username.label(), "Username/Email");
    assert_eq!(Prompt::Password.label(), "Password");
}

#[test]
fn the_arguments_hold_what_the_command_line_said() {
    let args = CliArgs {
        driver: DriverArgs { executable: PathBuf::from("./chromedriver.exe"), port: 4444 },
        credentials: CredentialArgs { username: None, password: None },
        output: ExportArgs { format: ExportFormat::Log, destination: PathBuf::from("report/") },
        month: Some("2021-04".to_string()),
        log_filter: "srss=info".to_string(),
    };
    assert_eq!(args.driver.port, 4444);
    assert_eq!(args.driver.executable, PathBuf::from("./chromedriver.exe"));
    assert_eq!(args.output.format, ExportFormat::Log);
    assert_eq!(args.output.destination, PathBuf::from("report/"));
    assert_eq!(args.month.as_deref(), Some("2021-04"));
    assert_eq!(args.log_filter, "srss=info");
}
