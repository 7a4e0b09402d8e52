use dotnet_debug::resolver::{
    BinaryCacheEntry, adapter_name, binary_name, which_candidate, cached_binary_path,
    resolve_binary,
};
use dotnet_debug::errors::PipelineError;

#[test]
fn adapter_and_binary_names() {
    assert_eq!(adapter_name(), "vsdbg");
    assert_eq!(binary_name(false), "vsdbg");
    assert_eq!(binary_name(true), "vsdbg.exe");
}

#[test]
fn path_lookup_output_is_trimmed() {
    assert_eq!(
        which_candidate(true, "/usr/local/bin/vsdbg\n").as_deref(),
        Some("/usr/local/bin/vsdbg")
    );
    assert!(which_candidate(true, "  \n").is_none());
    assert!(which_candidate(false, "/usr/local/bin/vsdbg\n").is_none());
}

#[test]
fn cached_path_lives_under_adapter_directory() {
    assert_eq!(cached_binary_path("/cache/adapters", false), "/cache/adapters/vsdbg/vsdbg");
    assert_eq!(
        cached_binary_path("/cache/adapters", true),
        "/cache/adapters/vsdbg/vsdbg.exe"
    );
}

#[test]
fn resolution_prefers_path_lookup_then_cache() {
    let hit = resolve_binary(
        Some("/usr/bin/vsdbg".to_string()),
        "/cache/vsdbg".to_string(),
        true,
    )
    .unwrap();
    assert_eq!(hit, "/usr/bin/vsdbg");
    let cached = resolve_binary(None, "/cache/vsdbg".to_string(), true).unwrap();
    assert_eq!(cached, "/cache/vsdbg");
    let miss = resolve_binary(None, "/cache/vsdbg".to_string(), false).unwrap_err();
    assert_eq!(miss, PipelineError::Lookup);
    assert!(miss.message().contains("vsdbg not found"));
}

#[test]
fn cache_entry_is_write_once_until_invalidated() {
    let mut cache = BinaryCacheEntry::new();
    assert!(cache.get().is_none());
    cache.store("/first".to_string());
    assert_eq!(cache.get().as_deref(), Some("/first"));
    cache.store("/second".to_string());
    assert_eq!(cache.get().as_deref(), Some("/first"));
    cache.invalidate();
    assert!(cache.get().is_none());
    cache.store("/second".to_string());
    assert_eq!(cache.get().as_deref(), Some("/second"));
}
