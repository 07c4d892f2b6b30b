use deploy_sc::error::DeployError;
use deploy_sc::process::{CommandSpec, StderrTail, finish_command, path_to_string, require_command};

fn spec(display: Option<&str>) -> CommandSpec {
    CommandSpec {
        stage: "BuildImage",
        program: "docker".to_string(),
        args: vec!["build".to_string(), "-t".to_string(), "img:1".to_string(), ".".to_string()],
        display_override: display.map(|d| d.to_string()),
        workdir: None,
        envs: vec![],
        stdin_text: None,
    }
}

#[test]
fn display_joins_program_and_arguments() {
    assert_eq!(spec(None).display_command(), "docker build -t img:1 .");
    assert_eq!(spec(Some("shown")).display_command(), "shown");
    let mut bare = spec(None);
    bare.args.clear();
    assert_eq!(bare.display_command(), "docker");
}

#[test]
fn tail_keeps_the_last_eight_lines() {
    let mut tail = StderrTail::new();
    assert_eq!(tail.len(), 0);
    assert_eq!(tail.summary(), None);
    for i in 1..=10 {
        tail.push(format!("line {i}"));
    }
    assert_eq!(tail.len(), 8);
    assert_eq!(
        tail.summary().as_deref(),
        Some("line 3 | line 4 | line 5 | line 6 | line 7 | line 8 | line 9 | line 10")
    );
}

#[test]
fn finished_command_outcomes() {
    let mut tail = StderrTail::new();
    assert!(finish_command(&spec(None), true, Some(0), &tail).is_ok());
    match finish_command(&spec(Some("docker build ***")), false, Some(1), &tail) {
        Err(DeployError::CommandFailed { stage, command, exit_code, stderr_tail }) => {
            assert_eq!(stage, "BuildImage");
            assert_eq!(command, "docker build ***");
            assert_eq!(exit_code, Some(1));
            assert_eq!(stderr_tail, None);
        }
        other => panic!("unexpected result {other:?}"),
    }
    tail.push("boom".to_string());
    tail.push("again".to_string());
    match finish_command(&spec(None), false, None, &tail) {
        Err(DeployError::CommandFailed { stderr_tail, exit_code, .. }) => {
            assert_eq!(stderr_tail.as_deref(), Some("boom | again"));
            assert_eq!(exit_code, None);
        }
        other => panic!("unexpected result {other:?}"),
    }
}

#[test]
fn missing_tool_is_named() {
    match require_command("deploy-sc-no-such-tool-xyz") {
        Err(DeployError::MissingTool { program }) => assert_eq!(program, "deploy-sc-no-such-tool-xyz"),
        other => panic!("unexpected result {other:?}"),
    }
}

#[test]
fn present_tool_resolves_to_a_path() {
    let path = require_command("sh").expect("sh on the search path");
    assert_ne!(path, "sh");
    assert!(path.ends_with("sh"));
}

#[test]
fn paths_pass_through() {
    assert_eq!(path_to_string("/a b/c"), "/a b/c");
}
