use bench_harness::command::{
    check_required_commands, missing_tools, probe_invocation, required_tools, Invocation, Probe,
    ProcessOutcome, SpawnError, Tool,
};

fn tool(command: &str, package: &str) -> Tool {
    Tool { command: command.to_string(), package: package.to_string() }
}

#[test]
fn only_exit_code_zero_is_success() {
    assert!(ProcessOutcome::from_exit_code(Some(0)).success);
    assert!(!ProcessOutcome::from_exit_code(Some(1)).success);
    assert!(!ProcessOutcome::from_exit_code(Some(-1)).success);
    assert!(!ProcessOutcome::from_exit_code(Some(255)).success);
    assert!(!ProcessOutcome::from_exit_code(None).success);
}

#[test]
fn the_archive_benchmark_needs_six_tools() {
    assert_eq!(
        required_tools(),
        vec![
            tool("convert", "ImageMagick"),
            tool("zip", "zip"),
            tool("tar", "tar"),
            tool("zstd", "zstandard"),
            tool("xz", "xz-utils"),
            tool("7z", "p7zip-full"),
        ]
    );
}

#[test]
fn a_tool_is_probed_with_its_help_flag() {
    let probe = probe_invocation(&tool("zstd", "zstandard"));
    assert_eq!(
        probe,
        Invocation { program: "zstd".to_string(), args: vec!["--help".to_string()], quiet: true }
    );
}

#[test]
fn all_tools_present_lets_the_run_start() {
    let probes: Vec<Probe> =
        required_tools().into_iter().map(|tool| Probe { tool, launched: true }).collect();
    assert_eq!(check_required_commands(&probes), Ok(()));
    assert!(missing_tools(&probes).is_empty());
    assert_eq!(check_required_commands(&Vec::new()), Ok(()));
}

#[test]
fn missing_tools_are_listed_in_probe_order() {
    let probes: Vec<Probe> = required_tools()
        .into_iter()
        .map(|tool| {
            let launched = tool.command != "zstd" && tool.command != "7z";
            Probe { tool, launched }
        })
        .collect();
    let expected = vec![tool("zstd", "zstandard"), tool("7z", "p7zip-full")];
    assert_eq!(missing_tools(&probes), expected);
    assert_eq!(check_required_commands(&probes), Err(expected));
}

#[test]
fn a_spawn_error_can_be_duplicated() {
    let error = SpawnError { program: "convert".to_string(), cause: "not found".to_string() };
    assert_eq!(error.duplicate(), error);
}
