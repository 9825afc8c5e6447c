use spiceai::tools::{ExtensionToolCatalog, ExtensionToolError};

#[test]
fn tool_ids() {
    assert_eq!(ExtensionToolCatalog::tool_id("extensions:terminal"), Some("terminal".to_string()));
    assert_eq!(ExtensionToolCatalog::tool_id("extensions:a:b"), Some("a:b".to_string()));
    assert_eq!(ExtensionToolCatalog::tool_id("builtin:terminal"), None);
    assert_eq!(ExtensionToolCatalog::tool_id("extensions"), None);
}

#[test]
fn construct_reports_why() {
    let catalog = ExtensionToolCatalog;
    assert_eq!(catalog.name(), "extensions");
    assert!(catalog.all().is_empty());
    assert_eq!(catalog.get("terminal"), None);
    let err = catalog.construct("extensions:terminal", "term", None).unwrap_err();
    assert_eq!(err, ExtensionToolError::NotFound { id: "terminal".to_string() });
    assert_eq!(err.to_string(), "Tool with id `terminal` not found in extensions tool catalog");
    let err = catalog.construct("terminal", "term", Some("d")).unwrap_err();
    assert_eq!(
        err.to_string(),
        "Invalid component `from` field. Expected: `extensions:<tool_id>`. Error: terminal"
    );
}
