use dotnet_debug::providers::{CsprojManifestProvider, SolutionManifestProvider};
use dotnet_debug::pathtext::parent_dir;

#[test]
fn provider_names() {
    assert_eq!(CsprojManifestProvider.name(), ".csproj");
    assert_eq!(SolutionManifestProvider.name(), ".sln");
}

#[test]
fn csproj_candidates_walk_ancestors() {
    let cands = CsprojManifestProvider.candidate_files("src/app", 2);
    let files: Vec<&str> = cands.iter().map(|c| c.file.as_str()).collect();
    assert_eq!(
        files,
        vec![
            "src/app/app.csproj",
            "src/app/project.csproj",
            "src/app/app.csproj",
            "src/app/web.csproj",
            "src/src.csproj",
            "src/project.csproj",
            "src/app.csproj",
            "src/web.csproj",
        ]
    );
    assert_eq!(cands[0].root, "src/app");
    assert_eq!(cands[4].root, "src");
}

#[test]
fn sln_candidates_include_conventional_name() {
    let cands = SolutionManifestProvider.candidate_files("repo", 1);
    let files: Vec<&str> = cands.iter().map(|c| c.file.as_str()).collect();
    assert_eq!(files, vec!["repo/repo.sln", "repo/solution.sln"]);
}

#[test]
fn depth_zero_probes_nothing() {
    assert!(CsprojManifestProvider.candidate_files("src/app", 0).is_empty());
}

#[test]
fn search_returns_first_existing_candidates_root() {
    let cands = CsprojManifestProvider.candidate_files("src/app", 2);
    let mut found = vec![false; cands.len()];
    found[4] = true;
    found[5] = true;
    let root = CsprojManifestProvider.search(&cands, &found).unwrap();
    assert_eq!(root, "src");
    let none = vec![false; cands.len()];
    assert!(CsprojManifestProvider.search(&cands, &none).is_none());
}

#[test]
fn solution_search_walks_up() {
    let cands = SolutionManifestProvider.candidate_files("a/b", 3);
    let files: Vec<&str> = cands.iter().map(|c| c.file.as_str()).collect();
    assert_eq!(
        files,
        vec!["a/b/b.sln", "a/b/solution.sln", "a/a.sln", "a/solution.sln", "solution.sln"]
    );
    let mut found = vec![false; cands.len()];
    found[2] = true;
    let root = SolutionManifestProvider.search(&cands, &found).unwrap();
    assert_eq!(root, "a");
}

#[test]
fn parent_walk_terminates_at_empty() {
    assert_eq!(parent_dir("a/b/c").as_deref(), Some("a/b"));
    assert_eq!(parent_dir("a").as_deref(), Some(""));
    assert!(parent_dir("").is_none());
}
