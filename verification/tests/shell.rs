use viewdeb::utils::shell::{command_result, CommandOutcome};

#[test]
fn a_successful_run_gives_its_output() {
    let outcome = CommandOutcome::Exited {
        success: true,
        code: Some(0),
        stdout: "out\n".to_string(),
        stderr: "warning\n".to_string(),
    };
    assert_eq!(command_result(outcome, 500), Ok("out\n".to_string()));
}

#[test]
fn a_failed_run_gives_its_code_and_what_it_wrote() {
    let outcome = CommandOutcome::Exited {
        success: false,
        code: Some(2),
        stdout: "out".to_string(),
        stderr: "dpkg-deb: error: not an archive\n".to_string(),
    };
    assert_eq!(
        command_result(outcome, 500),
        Err("Command exited with code 2: dpkg-deb: error: not an archive\n".to_string())
    );
}

#[test]
fn a_run_without_a_code_is_reported_with_minus_one() {
    let outcome = CommandOutcome::Exited {
        success: false,
        code: None,
        stdout: String::new(),
        stderr: "killed".to_string(),
    };
    assert_eq!(command_result(outcome, 500), Err("Command exited with code -1: killed".to_string()));
    let outcome = CommandOutcome::Exited {
        success: false,
        code: Some(-11),
        stdout: String::new(),
        stderr: String::new(),
    };
    assert_eq!(command_result(outcome, 500), Err("Command exited with code -11: ".to_string()));
}

#[test]
fn a_run_that_could_not_start_gives_the_cause() {
    let outcome = CommandOutcome::SpawnFailed { cause: "No such file or directory (os error 2)".to_string() };
    assert_eq!(
        command_result(outcome, 500),
        Err("Command failed: No such file or directory (os error 2)".to_string())
    );
}

#[test]
fn a_dead_worker_is_reported() {
    assert_eq!(command_result(CommandOutcome::Panicked, 500), Err("Thread panicked".to_string()));
}

#[test]
fn a_run_that_took_too_long_gives_the_time_allowed() {
    assert_eq!(
        command_result(CommandOutcome::TimedOut, 60000),
        Err("Command timed out after 60000ms".to_string())
    );
    assert_eq!(command_result(CommandOutcome::TimedOut, 0), Err("Command timed out after 0ms".to_string()));
}
