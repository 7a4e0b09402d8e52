use dotnet_debug::solution::SolutionFile;
use dotnet_debug::solution::parse_project_line;
use dotnet_debug::solution::extract_guid;

const TYPE_GUID: &str = "FAE04EC0-301F-11D3-BA7A-00C04FC2CCAE";

fn two_project_sln() -> String {
    let mut s = String::new();
    s.push_str("Microsoft Visual Studio Solution File, Format Version 12.00\n");
    s.push_str(
        "Project(\"{FAE04EC0-301F-11D3-BA7A-00C04FC2CCAE}\") = \"MyApp\", \"MyApp\\MyApp.csproj\", \"{11111111-2222-3333-4444-555555555555}\"\n",
    );
    s.push_str("EndProject\n");
    s.push_str(
        "Project(\"{FAE04EC0-301F-11D3-BA7A-00C04FC2CCAE}\") = \"MyApp.Tests\", \"Tests\\MyApp.Tests.csproj\", \"{AAAAAAAA-BBBB-CCCC-DDDD-EEEEEEEEEEEE}\"\n",
    );
    s.push_str("EndProject\n");
    s
}

#[test]
fn legacy_projects_in_declaration_order() {
    let content = two_project_sln();
    let f = SolutionFile::parse(&content, "/base").unwrap();
    assert_eq!(f.projects.len(), 2);
    assert_eq!(f.projects[0].name, "MyApp");
    assert_eq!(f.projects[0].path, "MyApp\\MyApp.csproj");
    assert_eq!(f.projects[0].guid, "11111111-2222-3333-4444-555555555555");
    assert_eq!(f.projects[0].type_guid, TYPE_GUID);
    assert_eq!(f.projects[1].name, "MyApp.Tests");
    assert_eq!(f.projects[1].guid, "AAAAAAAA-BBBB-CCCC-DDDD-EEEEEEEEEEEE");
    assert_eq!(f.path, "/base/solution.sln");
}

#[test]
fn legacy_parse_is_deterministic() {
    let content = two_project_sln();
    let f1 = SolutionFile::parse(&content, "/base").unwrap();
    let f2 = SolutionFile::parse(&content, "/base").unwrap();
    assert_eq!(f1, f2);
}

#[test]
fn no_configuration_lines_yield_defaults() {
    let content = two_project_sln();
    let f = SolutionFile::parse(&content, "/base").unwrap();
    assert_eq!(f.configurations, vec!["Debug".to_string(), "Release".to_string()]);
}

#[test]
fn configuration_lines_collect_distinct_names() {
    let mut content = two_project_sln();
    content.push_str("\t\tDebug|Any CPU = Debug|Any CPU\n");
    content.push_str("\t\tDebug|x64 = Debug|x64\n");
    let f = SolutionFile::parse(&content, "/base").unwrap();
    assert_eq!(f.configurations, vec!["Debug".to_string()]);
}

#[test]
fn no_startup_marker_defaults_to_first_project() {
    let content = two_project_sln();
    let f = SolutionFile::parse(&content, "/base").unwrap();
    assert_eq!(
        f.startup_project.as_deref(),
        Some("11111111-2222-3333-4444-555555555555")
    );
}

#[test]
fn startup_marker_sets_identifier() {
    let mut content = two_project_sln();
    content.push_str("\tStartupProject = {AAAAAAAA-BBBB-CCCC-DDDD-EEEEEEEEEEEE}\n");
    let f = SolutionFile::parse(&content, "/base").unwrap();
    assert_eq!(
        f.startup_project.as_deref(),
        Some("AAAAAAAA-BBBB-CCCC-DDDD-EEEEEEEEEEEE")
    );
    let startup = f.get_startup_project().unwrap();
    assert_eq!(startup.name, "MyApp.Tests");
}

#[test]
fn lookup_by_name_and_guid() {
    let content = two_project_sln();
    let f = SolutionFile::parse(&content, "/base").unwrap();
    assert_eq!(f.get_project("MyApp").unwrap().name, "MyApp");
    assert!(f.get_project("Nothing").is_none());
    assert_eq!(
        f.get_project_by_guid("AAAAAAAA-BBBB-CCCC-DDDD-EEEEEEEEEEEE")
            .unwrap()
            .name,
        "MyApp.Tests"
    );
    assert!(f.get_project_by_guid("no-such-guid").is_none());
}

#[test]
fn executable_projects_exclude_test_names() {
    let content = two_project_sln();
    let f = SolutionFile::parse(&content, "/base").unwrap();
    let exes = f.get_executable_projects();
    assert_eq!(exes.len(), 1);
    assert_eq!(exes[0].name, "MyApp");
}

#[test]
fn markup_dialect_parses_projects_from_paths() {
    let content = "<Solution>\n  <Projects>\n    <Project Path=\"src/MyApp.csproj\" />\n    <Project Path=\"src/Tools.csproj\" />\n  </Projects>\n</Solution>\n";
    let f = SolutionFile::parse(content, "/base").unwrap();
    assert_eq!(f.projects.len(), 2);
    assert_eq!(f.projects[0].name, "MyApp");
    assert_eq!(f.projects[0].path, "src/MyApp.csproj");
    assert_eq!(f.projects[0].type_guid, TYPE_GUID);
    assert_eq!(f.projects[1].name, "Tools");
    assert_eq!(f.path, "/base/solution.slnx");
    assert_eq!(f.configurations, vec!["Debug".to_string(), "Release".to_string()]);
    assert_eq!(f.startup_project.as_deref(), Some(f.projects[0].guid.as_str()));
}

#[test]
fn markup_identifiers_are_stable_and_shaped() {
    let content = "<Solution><Project Path=\"src/MyApp.csproj\" /></Solution>";
    let f1 = SolutionFile::parse(content, "/base").unwrap();
    let f2 = SolutionFile::parse(content, "/other").unwrap();
    let g1 = &f1.projects[0].guid;
    let g2 = &f2.projects[0].guid;
    assert_eq!(g1, g2);
    let groups: Vec<&str> = g1.split('-').collect();
    assert_eq!(groups.len(), 5);
    assert_eq!(groups[0].len(), 8);
    assert_eq!(groups[1].len(), 4);
    assert_eq!(groups[2].len(), 4);
    assert_eq!(groups[3].len(), 4);
    assert_eq!(groups[4].len(), 12);
    for group in groups {
        assert!(group.chars().all(|c| c.is_ascii_hexdigit()));
    }
}

#[test]
fn markup_distinct_paths_get_distinct_identifiers() {
    let content =
        "<Solution><Project Path=\"src/A.csproj\" /><Project Path=\"src/B.csproj\" /></Solution>";
    let f = SolutionFile::parse(content, "/base").unwrap();
    assert_ne!(f.projects[0].guid, f.projects[1].guid);
}

#[test]
fn markup_unterminated_tag_fails() {
    let content = "<Solution><Project Path=\"src/MyApp.csproj\" ";
    let e = SolutionFile::parse(content, "/base").unwrap_err();
    assert_eq!(e.message(), "Invalid XML: unclosed Project tag");
}

#[test]
fn markup_prolog_is_sniffed() {
    let content = "  <?xml version=\"1.0\"?>\n<Solution><Project Path=\"a/App.csproj\" /></Solution>";
    let f = SolutionFile::parse(content, "/base").unwrap();
    assert_eq!(f.projects.len(), 1);
    assert_eq!(f.projects[0].name, "App");
}

#[test]
fn project_line_parses_fields() {
    let line = "Project(\"{9A19103F-16F7-4668-BE54-9A1E7A4F7556}\") = \"Svc\", \"Svc/Svc.csproj\", \"{0BAD0BAD-0000-1111-2222-333333333333}\"";
    let p = parse_project_line(line).unwrap();
    assert_eq!(p.type_guid, "9A19103F-16F7-4668-BE54-9A1E7A4F7556");
    assert_eq!(p.name, "Svc");
    assert_eq!(p.path, "Svc/Svc.csproj");
    assert_eq!(p.guid, "0BAD0BAD-0000-1111-2222-333333333333");
    assert!(p.packages.is_empty());
}

#[test]
fn project_line_rejects_short_lines() {
    assert!(parse_project_line("Project(\"{G}\") = \"OnlyName\"").is_none());
    assert!(parse_project_line("no equals sign here").is_none());
}

#[test]
fn guid_extraction_reads_first_brace_pair() {
    assert_eq!(
        extract_guid("StartupProject = {ABC-123} trailing {other}").as_deref(),
        Some("ABC-123")
    );
    assert!(extract_guid("no braces").is_none());
    assert!(extract_guid("only { open").is_none());
}

#[test]
fn empty_legacy_input_yields_empty_solution() {
    let f = SolutionFile::parse("", "/base").unwrap();
    assert!(f.projects.is_empty());
    assert_eq!(f.configurations, vec!["Debug".to_string(), "Release".to_string()]);
    assert!(f.startup_project.is_none());
    assert_eq!(f.path, "/base/solution.sln");
}

#[test]
fn markup_path_without_stem_gets_placeholder_name() {
    let content = "<Solution><Project Path=\"src/\" /></Solution>";
    let f = SolutionFile::parse(content, "/base").unwrap();
    assert_eq!(f.projects.len(), 1);
    assert_eq!(f.projects[0].name, "Unknown");
}

#[test]
fn unrecognized_lines_are_tolerated() {
    let content = "Global\n\tGlobalSection(SolutionProperties) = preSolution\n\t\tHideSolutionNode = FALSE\n\tEndGlobalSection\nEndGlobal\n";
    let f = SolutionFile::parse(content, "/base").unwrap();
    assert!(f.projects.is_empty());
}
