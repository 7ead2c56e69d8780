use easy_command::structs::{
    select_output, spawn_verdict, Cmd, CommandOutcome, ConfigInstall, Configs, OsTarget, Step,
    StepPlan,
};
use easy_command::EasyCommandBuilder;

#[test]
fn test_build_easy_command() {
    let config = Configs {
        config_install: ConfigInstall {
            steps: vec![Step {
                name: "Hello World".to_string(),
                description: "The global".to_string(),
                commands: vec![Cmd {
                    cmd: "echo".to_string(),
                    args: vec!["\"Hello World!!\"".to_string()],
                }],
                os_target: "Linux".to_string(),
                ..Default::default()
            }],
        },
    };
    let easy = EasyCommandBuilder::new().with_config(config).build();
    assert_eq!(easy.current_step(), 0);
    assert_eq!(easy.get_configs().config_install.steps.len(), 1);
    assert_eq!(
        easy.get_configs().config_install.steps[0].commands[0].cmd,
        "echo".to_string()
    );
    assert_eq!(
        easy.get_configs().config_install.steps[0].os_target,
        "Linux".to_string()
    );
}

#[test]
fn step_defaults_match_the_data_model() {
    let step = Step::default();
    assert_eq!(step.name, "");
    assert_eq!(step.description, "");
    assert_eq!(step.type_step, "Custom");
    assert_eq!(step.os_target, "Any");
    assert!(step.commands.is_empty());
    assert!(!step.show_outputs);
    assert_eq!(step.sentence, "");
}

#[test]
fn next_step_walks_the_list_in_order() {
    let config = Configs {
        config_install: ConfigInstall {
            steps: vec![
                Step {
                    name: "first".to_string(),
                    ..Default::default()
                },
                Step {
                    name: "second".to_string(),
                    ..Default::default()
                },
            ],
        },
    };
    let mut easy = EasyCommandBuilder::new().with_config(config).build();
    assert_eq!(easy.steps_coutn(), 2);
    assert_eq!(easy.next_step().map(|s| s.name), Some("first".to_string()));
    assert_eq!(easy.next_step().map(|s| s.name), Some("second".to_string()));
    assert!(easy.next_step().is_none());
    assert_eq!(easy.current_step(), 2);
}

#[test]
fn false_condition_skips_and_empty_condition_runs() {
    let skipped_step = Step {
        name: "never".to_string(),
        sentence: "1 == 2".to_string(),
        commands: vec![Cmd {
            cmd: "touch".to_string(),
            args: vec!["marker".to_string()],
        }],
        ..Default::default()
    };
    let echo_step = Step {
        name: "greet".to_string(),
        commands: vec![Cmd {
            cmd: "echo".to_string(),
            args: vec!["{options}".to_string()],
        }],
        ..Default::default()
    };
    let os = OsTarget::Linux(("ubuntu".to_string(), "Ubuntu".to_string()));
    let options = vec!["hi".to_string()];

    match skipped_step.plan(&os, &options) {
        Ok(StepPlan::Skipped) => {}
        other => panic!("unexpected plan: {:?}", other),
    }
    match echo_step.plan(&os, &options) {
        Ok(StepPlan::Run(plans)) => {
            assert_eq!(plans.len(), 1);
            assert_eq!(plans[0].program, "echo");
            assert_eq!(plans[0].args, vec!["hi".to_string()]);
        }
        other => panic!("unexpected plan: {:?}", other),
    }
}

#[test]
fn plan_gates_on_the_platform_facts() {
    let step = Step {
        sentence: "os == \"windows\"".to_string(),
        commands: vec![Cmd {
            cmd: "dir".to_string(),
            args: vec![],
        }],
        ..Default::default()
    };
    let options: Vec<String> = vec![];
    match step.plan(&OsTarget::Windows, &options) {
        Ok(StepPlan::Run(plans)) => assert_eq!(plans.len(), 1),
        other => panic!("unexpected plan: {:?}", other),
    }
    match step.plan(&OsTarget::Mac, &options) {
        Ok(StepPlan::Skipped) => {}
        other => panic!("unexpected plan: {:?}", other),
    }
}

#[test]
fn plan_surfaces_invalid_expressions() {
    let step = Step {
        sentence: "os ==".to_string(),
        ..Default::default()
    };
    let options: Vec<String> = vec![];
    match step.plan(&OsTarget::Mac, &options) {
        Err(easy_command::Error::InvalidExpression(text)) => assert_eq!(text, "os =="),
        other => panic!("unexpected plan: {:?}", other),
    }
}

#[test]
fn spawn_verdict_aborts_only_on_launch_failure() {
    let ran = CommandOutcome {
        exit_ok: false,
        exit_code: Some(3),
        stdout: Vec::new(),
        stderr: b"warning".to_vec(),
    };
    match spawn_verdict(Ok(ran)) {
        Ok(outcome) => {
            assert!(!outcome.exit_ok);
            assert_eq!(outcome.exit_code, Some(3));
            assert_eq!(outcome.stderr, b"warning".to_vec());
        }
        other => panic!("unexpected outcome: {:?}", other),
    }
    match spawn_verdict(Err("no such program".to_string())) {
        Err(easy_command::Error::ExecFailed(msg)) => assert_eq!(msg, "no such program"),
        other => panic!("unexpected outcome: {:?}", other),
    }
}

#[test]
fn select_output_echoes_only_when_verbose() {
    let stdout: Vec<u8> = b"out".to_vec();
    let stderr: Vec<u8> = b"err".to_vec();
    assert!(select_output(false, true, &stdout, &stderr).is_none());
    assert!(select_output(false, false, &stdout, &stderr).is_none());
    assert_eq!(select_output(true, true, &stdout, &stderr), Some(&stdout));
    assert_eq!(select_output(true, false, &stdout, &stderr), Some(&stderr));
}
