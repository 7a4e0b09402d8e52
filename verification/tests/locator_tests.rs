use dotnet_debug::locator::{
    DotNetLocator, TaskTemplate, DirEntryInfo, build_invocation, check_working_dir,
    check_build_exit, arrow_candidates, first_existing, fallback_dirs, pick_fallback_artifact,
    resolve_artifact, launch_request_for, extract_project_info,
    find_startup_project_from_solution, first_solution_entry, associated_task_templates,
    DebugRequest,
};
use dotnet_debug::launch::ConfigValue;

fn template(command: &str, args: Vec<&str>) -> TaskTemplate {
    TaskTemplate {
        label: "task: label".to_string(),
        command: command.to_string(),
        args: args.into_iter().map(|s| s.to_string()).collect(),
        env: vec![("K".to_string(), "V".to_string())],
        cwd: Some("/work".to_string()),
    }
}

#[test]
fn locator_name_is_fixed() {
    assert_eq!(DotNetLocator.name(), "dotnet-locator");
}

#[test]
fn non_matching_program_is_rejected() {
    let t = template("cargo", vec!["run"]);
    assert!(DotNetLocator.create_scenario(&t, "label", "vsdbg").is_none());
}

#[test]
fn unknown_action_is_rejected() {
    let t = template("dotnet", vec!["clean"]);
    assert!(DotNetLocator.create_scenario(&t, "label", "vsdbg").is_none());
    let empty = template("dotnet", vec![]);
    assert!(DotNetLocator.create_scenario(&empty, "label", "vsdbg").is_none());
}

#[test]
fn test_action_needs_no_build_flag() {
    let without = template("dotnet", vec!["test"]);
    assert!(DotNetLocator.create_scenario(&without, "label", "vsdbg").is_none());
    let with = template("dotnet", vec!["test", "--no-build"]);
    let s = DotNetLocator.create_scenario(&with, "label", "vsdbg").unwrap();
    let build = s.build.unwrap();
    assert_eq!(build.task_template.args, vec!["test".to_string(), "--no-build".to_string()]);
}

#[test]
fn run_action_rewrites_only_the_action_token() {
    let t = template("dotnet", vec!["run", "--project", "MyApp"]);
    let s = DotNetLocator.create_scenario(&t, "resolved", "vsdbg").unwrap();
    assert_eq!(s.adapter, "vsdbg");
    assert_eq!(s.label, "resolved");
    assert!(s.tcp_connection.is_none());
    let build = s.build.unwrap();
    assert_eq!(build.locator_name.as_deref(), Some("dotnet-locator"));
    assert_eq!(
        build.task_template.args,
        vec!["build".to_string(), "--project".to_string(), "MyApp".to_string()]
    );
    assert_eq!(build.task_template.command, "dotnet");
    assert_eq!(build.task_template.cwd.as_deref(), Some("/work"));
    let config = &s.config;
    assert_eq!(config.get("type"), Some(&ConfigValue::Str("coreclr".to_string())));
    assert_eq!(config.get("request"), Some(&ConfigValue::Str("launch".to_string())));
}

#[test]
fn run_alias_is_accepted() {
    let t = template("dotnet", vec!["r"]);
    let s = DotNetLocator.create_scenario(&t, "label", "vsdbg").unwrap();
    assert_eq!(s.build.unwrap().task_template.args, vec!["build".to_string()]);
}

#[test]
fn build_action_is_accepted_unchanged() {
    let t = template("dotnet", vec!["build", "-c", "Release"]);
    let s = DotNetLocator.create_scenario(&t, "label", "vsdbg").unwrap();
    assert_eq!(
        s.build.unwrap().task_template.args,
        vec!["build".to_string(), "-c".to_string(), "Release".to_string()]
    );
}

#[test]
fn invocation_truncates_at_separator_and_appends_flags() {
    let args: Vec<String> = vec!["build", "--project", "X", "--", "passthrough"]
        .into_iter()
        .map(|s| s.to_string())
        .collect();
    let r = build_invocation(&args);
    assert_eq!(
        r,
        vec![
            "build".to_string(),
            "--project".to_string(),
            "X".to_string(),
            "--no-restore".to_string(),
            "/p:GenerateFullPaths=true".to_string(),
            "-v:q".to_string(),
        ]
    );
}

#[test]
fn working_directory_is_required() {
    assert_eq!(check_working_dir(Some("/w".to_string())).unwrap(), "/w");
    let e = check_working_dir(None).unwrap_err();
    assert_eq!(e.message(), "Working directory required for dotnet build");
}

#[test]
fn non_zero_exit_surfaces_stderr() {
    assert!(check_build_exit(true, Some(0), "").is_ok());
    let e = check_build_exit(false, Some(1), "error CS1002: ; expected").unwrap_err();
    let msg = e.message();
    assert!(msg.contains("error CS1002: ; expected"));
}

#[test]
fn arrow_marker_yields_absolute_path_verbatim() {
    let stdout = "  Determining projects to restore...\n  MyApp -> /abs/path/bin/Debug/net8.0/MyApp.dll\n";
    let cands = arrow_candidates(stdout, "/work");
    assert_eq!(cands, vec!["/abs/path/bin/Debug/net8.0/MyApp.dll".to_string()]);
    let chosen = first_existing(&cands, &vec![true]).unwrap();
    let request = launch_request_for(chosen, "/work".to_string());
    match request {
        DebugRequest::Launch(l) => {
            assert_eq!(l.program, "/abs/path/bin/Debug/net8.0/MyApp.dll");
            assert_eq!(l.cwd.as_deref(), Some("/work"));
            assert!(l.args.is_empty());
            assert!(l.env.is_empty());
        },
        DebugRequest::Attach { .. } => panic!("expected a launch request"),
    }
}

#[test]
fn arrow_marker_resolves_relative_paths() {
    let stdout = "MyApp -> bin/Debug/net8.0/MyApp.dll";
    let cands = arrow_candidates(stdout, "/work");
    assert_eq!(cands, vec!["/work/bin/Debug/net8.0/MyApp.dll".to_string()]);
}

#[test]
fn arrow_marker_ignores_other_extensions() {
    let stdout = "MyApp -> notes.txt\nMyApp -> out/App.exe\n";
    let cands = arrow_candidates(stdout, "/work");
    assert_eq!(cands, vec!["/work/out/App.exe".to_string()]);
}

#[test]
fn fallback_probes_conventional_directories() {
    let dirs = fallback_dirs("/work");
    assert_eq!(dirs.len(), 8);
    assert_eq!(dirs[0], "/work/bin/Debug");
    assert_eq!(dirs[1], "/work/bin/Release");
    assert_eq!(dirs[4], "/work/bin/Debug/net8.0");
}

#[test]
fn fallback_picks_library_from_first_directory_with_one() {
    let dirs = fallback_dirs("/work");
    let mut listings: Vec<Vec<DirEntryInfo>> = vec![Vec::new(); 8];
    listings[0].push(DirEntryInfo { name: "readme.md".to_string(), modified_at: 99 });
    listings[0].push(DirEntryInfo { name: "Foo.dll".to_string(), modified_at: 10 });
    listings[2].push(DirEntryInfo { name: "Later.dll".to_string(), modified_at: 50 });
    let pick = pick_fallback_artifact(&dirs, &listings).unwrap();
    assert_eq!(pick, "/work/bin/Debug/Foo.dll");
}

#[test]
fn fallback_prefers_most_recently_modified_library() {
    let dirs = vec!["/work/bin/Debug".to_string()];
    let listings = vec![vec![
        DirEntryInfo { name: "Old.dll".to_string(), modified_at: 5 },
        DirEntryInfo { name: "New.dll".to_string(), modified_at: 9 },
        DirEntryInfo { name: "Tie.dll".to_string(), modified_at: 9 },
    ]];
    let pick = pick_fallback_artifact(&dirs, &listings).unwrap();
    assert_eq!(pick, "/work/bin/Debug/New.dll");
}

#[test]
fn artifact_failure_carries_captured_output() {
    let e = resolve_artifact(None, None, "full build output").unwrap_err();
    let msg = e.message();
    assert!(msg.contains("full build output"));
    assert!(msg.contains("Could not find compiled assembly"));
    let ok = resolve_artifact(None, Some("/f.dll".to_string()), "out").unwrap();
    assert_eq!(ok, "/f.dll");
    let primary = resolve_artifact(Some("/p.dll".to_string()), None, "out").unwrap();
    assert_eq!(primary, "/p.dll");
}

#[test]
fn project_info_pairs_path_with_name() {
    let line = "Project(\"{G}\") = \"MyApp\", \"src/MyApp.csproj\", \"{1}\"";
    let (path, name) = extract_project_info(line).unwrap();
    assert_eq!(path, "src/MyApp.csproj");
    assert_eq!(name, "MyApp");
    assert!(extract_project_info("nothing here").is_none());
}

#[test]
fn startup_project_skips_test_projects() {
    let mut content = String::new();
    content.push_str(
        "Project(\"{T}\") = \"App.Tests\", \"tests/App.Tests.csproj\", \"{1}\"\n",
    );
    content.push_str("Project(\"{T}\") = \"App\", \"src/App.csproj\", \"{2}\"\n");
    let dir = find_startup_project_from_solution(&content, "/sln").unwrap();
    assert_eq!(dir, "/sln/src/App.csproj");
    assert!(find_startup_project_from_solution("", "/sln").is_none());
}

#[test]
fn first_solution_entry_finds_solution_files() {
    let names = vec!["readme.md".to_string(), "App.sln".to_string(), "Other.sln".to_string()];
    assert_eq!(first_solution_entry(&names).as_deref(), Some("App.sln"));
    let none = vec!["readme.md".to_string()];
    assert!(first_solution_entry(&none).is_none());
}

#[test]
fn associated_templates_cover_common_operations() {
    let ts = associated_task_templates();
    assert_eq!(ts.len(), 4);
    assert_eq!(ts[0].label, "dotnet: build");
    assert_eq!(ts[0].command, "dotnet");
    assert_eq!(ts[0].args, vec!["build".to_string()]);
    assert_eq!(ts[3].label, "dotnet: run");
    assert_eq!(ts[3].args, vec!["run".to_string()]);
}
