use dotnet_debug::launch::{
    ConfigMap, ConfigValue, RequestKind, assemble_request_args, effective_binary, get_binary,
};

fn launch_config_with_program() -> ConfigMap {
    let mut c = ConfigMap::new();
    c.set("type", ConfigValue::Str("coreclr".to_string()));
    c.set("request", ConfigValue::Str("launch".to_string()));
    c.set("program", ConfigValue::Str("/bin/Debug/App.dll".to_string()));
    c.set("cwd", ConfigValue::Str("/work".to_string()));
    c
}

#[test]
fn config_map_get_and_set() {
    let mut c = ConfigMap::new();
    assert!(c.get("request").is_none());
    c.set("request", ConfigValue::Str("launch".to_string()));
    c.set("stopAtEntry", ConfigValue::Bool(false));
    assert_eq!(c.get("request"), Some(&ConfigValue::Str("launch".to_string())));
    c.set("request", ConfigValue::Str("attach".to_string()));
    assert_eq!(c.get("request"), Some(&ConfigValue::Str("attach".to_string())));
    assert_eq!(c.entries.len(), 2);
    assert_eq!(c.entries[0].0, "request");
}

#[test]
fn launch_without_program_fails() {
    let mut c = ConfigMap::new();
    c.set("request", ConfigValue::Str("launch".to_string()));
    let e = assemble_request_args(&c).unwrap_err();
    assert_eq!(e.message(), "'program' is required for launch requests");
}

#[test]
fn implicit_launch_without_program_fails() {
    let c = ConfigMap::new();
    assert!(assemble_request_args(&c).is_err());
}

#[test]
fn attach_without_program_succeeds() {
    let mut c = ConfigMap::new();
    c.set("request", ConfigValue::Str("attach".to_string()));
    c.set("processId", ConfigValue::Int(4242));
    let (config, kind) = assemble_request_args(&c).unwrap();
    assert_eq!(kind, RequestKind::Attach);
    assert_eq!(config.get("processId"), Some(&ConfigValue::Int(4242)));
}

#[test]
fn console_defaults_to_integrated_terminal() {
    let c = launch_config_with_program();
    let (config, kind) = assemble_request_args(&c).unwrap();
    assert_eq!(kind, RequestKind::Launch);
    assert_eq!(
        config.get("console"),
        Some(&ConfigValue::Str("integratedTerminal".to_string()))
    );
}

#[test]
fn explicit_console_is_kept() {
    let mut c = launch_config_with_program();
    c.set("console", ConfigValue::Str("externalTerminal".to_string()));
    let (config, _) = assemble_request_args(&c).unwrap();
    assert_eq!(
        config.get("console"),
        Some(&ConfigValue::Str("externalTerminal".to_string()))
    );
}

#[test]
fn explicit_path_bypasses_resolution() {
    assert_eq!(
        effective_binary(Some("/opt/vsdbg".to_string()), "/usr/bin/vsdbg".to_string()),
        "/opt/vsdbg"
    );
    assert_eq!(effective_binary(None, "/usr/bin/vsdbg".to_string()), "/usr/bin/vsdbg");
}

#[test]
fn payload_merges_binary_config_and_user_values() {
    let c = launch_config_with_program();
    let b = get_binary(
        "/usr/bin/vsdbg".to_string(),
        &c,
        Some(vec!["--interpreter=vscode".to_string()]),
        Some(vec![("DOTNET_ROOT".to_string(), "/usr/share/dotnet".to_string())]),
    )
    .unwrap();
    assert_eq!(b.command.as_deref(), Some("/usr/bin/vsdbg"));
    assert_eq!(b.arguments, vec!["--interpreter=vscode".to_string()]);
    assert_eq!(
        b.envs,
        vec![("DOTNET_ROOT".to_string(), "/usr/share/dotnet".to_string())]
    );
    assert_eq!(b.cwd.as_deref(), Some("/work"));
    assert!(b.connection.is_none());
    assert_eq!(b.request_args.request, RequestKind::Launch);
    assert_eq!(
        b.request_args.configuration.get("program"),
        Some(&ConfigValue::Str("/bin/Debug/App.dll".to_string()))
    );
}

#[test]
fn payload_defaults_arguments_and_environment() {
    let c = launch_config_with_program();
    let b = get_binary("/usr/bin/vsdbg".to_string(), &c, None, None).unwrap();
    assert!(b.arguments.is_empty());
    assert!(b.envs.is_empty());
}

#[test]
fn payload_fails_like_request_assembly() {
    let mut c = ConfigMap::new();
    c.set("request", ConfigValue::Str("launch".to_string()));
    let e = get_binary("/usr/bin/vsdbg".to_string(), &c, None, None).unwrap_err();
    assert_eq!(e.message(), "'program' is required for launch requests");
}
