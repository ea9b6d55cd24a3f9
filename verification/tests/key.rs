use rspack_cache::resolve::{
    cache_key, key_of_parts, DependencyType, ErrorCause, ModuleIdentifier, ResolveArgs,
    ResolveError, ResolveResult, Resource,
};
use rspack_cache::cache::fingerprint::IoFailure;

#[test]
fn key_joins_the_four_fields_with_bars() {
    let importer = ModuleIdentifier::from("/proj/index.js");
    let args = ResolveArgs {
        importer: Some(&importer),
        context: Some("/proj".to_string()),
        specifier: "./a.js",
        dependency_type: &DependencyType::EsmImport,
    };
    assert_eq!(cache_key(&args).0, "1|+/proj|/proj/index.js|./a.js|EsmImport");
}

#[test]
fn key_without_importer_has_an_empty_field() {
    let args = ResolveArgs {
        importer: None,
        context: Some("/proj".to_string()),
        specifier: "./a.js",
        dependency_type: &DependencyType::CjsRequire,
    };
    assert_eq!(cache_key(&args).0, "1|+/proj||./a.js|CjsRequire");
}

#[test]
fn key_without_context_has_a_minus() {
    let args = ResolveArgs {
        importer: None,
        context: None,
        specifier: "react",
        dependency_type: &DependencyType::Entry,
    };
    assert_eq!(cache_key(&args).0, "1|-||react|Entry");
}

#[test]
fn key_marks_bars_and_backslashes_in_a_field() {
    let importer = ModuleIdentifier::from("css|/proj/a.css");
    let args = ResolveArgs {
        importer: Some(&importer),
        context: Some("C:\\proj\\my|app".to_string()),
        specifier: "./a|b\\c",
        dependency_type: &DependencyType::Unknown,
    };
    assert_eq!(
        cache_key(&args).0,
        "1|+C:\\\\proj\\\\my\\|app|css\\|/proj/a.css|./a\\|b\\\\c|Unknown"
    );
}

#[test]
fn key_leaves_other_characters_as_they_are() {
    let args = ResolveArgs {
        importer: None,
        context: Some("/proj/\u{e9}t\u{e9} \"x\"\n".to_string()),
        specifier: "\u{1f600}/+-",
        dependency_type: &DependencyType::NewUrl,
    };
    assert_eq!(cache_key(&args).0, "1|+/proj/\u{e9}t\u{e9} \"x\"\n||\u{1f600}/+-|NewUrl");
}

#[test]
fn key_tells_no_context_from_an_empty_one() {
    let none = key_of_parts(None, None, "a", &DependencyType::Entry);
    let empty = key_of_parts(Some(""), None, "a", &DependencyType::Entry);
    assert_eq!(none.0, "1|-||a|Entry");
    assert_eq!(empty.0, "1|+||a|Entry");
    assert_ne!(none, empty);
}

#[test]
fn key_counts_no_importer_as_the_empty_one() {
    let empty = ModuleIdentifier::from("");
    let none = key_of_parts(Some("/proj"), None, "a", &DependencyType::Entry);
    let some = key_of_parts(Some("/proj"), Some(&empty), "a", &DependencyType::Entry);
    assert_eq!(none, some);
}

#[test]
fn key_of_fields_that_hold_a_bar_is_their_own() {
    let long = ModuleIdentifier::from("a|b");
    let short = ModuleIdentifier::from("a");
    let first = key_of_parts(Some("/proj"), Some(&long), "c", &DependencyType::EsmImport);
    let second = key_of_parts(Some("/proj"), Some(&short), "b|c", &DependencyType::EsmImport);
    assert_eq!(first.0, "1|+/proj|a\\|b|c|EsmImport");
    assert_eq!(second.0, "1|+/proj|a|b\\|c|EsmImport");
    assert_ne!(first, second);
    let ends = key_of_parts(Some("a\\"), None, "b", &DependencyType::Entry);
    let starts = key_of_parts(Some("a"), None, "|b", &DependencyType::Entry);
    assert_eq!(ends.0, "1|+a\\\\||b|Entry");
    assert_eq!(starts.0, "1|+a||\\|b|Entry");
    assert_ne!(ends, starts);
}

#[test]
fn key_of_parts_is_the_key_of_the_request() {
    let importer = ModuleIdentifier::from("/proj/index.js");
    let args = ResolveArgs {
        importer: Some(&importer),
        context: Some("/proj".to_string()),
        specifier: "./a.js",
        dependency_type: &DependencyType::CssImport,
    };
    let key = key_of_parts(Some("/proj"), Some(&importer), "./a.js", &DependencyType::CssImport);
    assert_eq!(key.0, "1|+/proj|/proj/index.js|./a.js|CssImport");
    assert_eq!(key, cache_key(&args));
}

#[test]
fn key_is_the_same_for_the_same_request() {
    let importer = ModuleIdentifier::from("/proj/index.js");
    let again = ModuleIdentifier::from("/proj/index.js");
    let first = ResolveArgs {
        importer: Some(&importer),
        context: Some("/proj".to_string()),
        specifier: "./a.js",
        dependency_type: &DependencyType::DynamicImport,
    };
    let second = ResolveArgs {
        importer: Some(&again),
        context: Some("/proj".to_string()),
        specifier: "./a.js",
        dependency_type: &DependencyType::DynamicImport,
    };
    assert_eq!(cache_key(&first), cache_key(&first));
    assert_eq!(cache_key(&first), cache_key(&second));
}

#[test]
fn key_differs_with_each_field() {
    let importer = ModuleIdentifier::from("/proj/index.js");
    let base = ResolveArgs {
        importer: Some(&importer),
        context: Some("/proj".to_string()),
        specifier: "./a.js",
        dependency_type: &DependencyType::EsmImport,
    };
    let other_context = ResolveArgs { context: Some("/other".to_string()), importer: base.importer, specifier: base.specifier, dependency_type: base.dependency_type };
    let other_importer = ResolveArgs { context: Some("/proj".to_string()), importer: None, specifier: base.specifier, dependency_type: base.dependency_type };
    let other_specifier = ResolveArgs { context: Some("/proj".to_string()), importer: base.importer, specifier: "./b.js", dependency_type: base.dependency_type };
    let other_type = ResolveArgs { context: Some("/proj".to_string()), importer: base.importer, specifier: base.specifier, dependency_type: &DependencyType::EsmExport };
    let key = cache_key(&base);
    assert_ne!(key, cache_key(&other_context));
    assert_ne!(key, cache_key(&other_importer));
    assert_ne!(key, cache_key(&other_specifier));
    assert_ne!(key, cache_key(&other_type));
}

#[test]
fn every_dependency_type_has_its_name() {
    let all = [
        (DependencyType::Unknown, "Unknown"),
        (DependencyType::Entry, "Entry"),
        (DependencyType::EsmImport, "EsmImport"),
        (DependencyType::EsmExport, "EsmExport"),
        (DependencyType::DynamicImport, "DynamicImport"),
        (DependencyType::CjsRequire, "CjsRequire"),
        (DependencyType::NewUrl, "NewUrl"),
        (DependencyType::CssUrl, "CssUrl"),
        (DependencyType::CssImport, "CssImport"),
        (DependencyType::WasmImport, "WasmImport"),
    ];
    for (dependency_type, name) in all {
        assert_eq!(dependency_type.tag(), name);
        assert_eq!(dependency_type.tag(), format!("{:?}", dependency_type));
    }
}

#[test]
fn identifier_holds_its_text() {
    let id = ModuleIdentifier::from("/proj/a.js");
    assert_eq!(id.0, "/proj/a.js");
    assert_eq!(id.clone(), id);
    assert_eq!(ModuleIdentifier::from("").0, "");
}

#[test]
fn only_a_resource_depends_on_a_path() {
    let resource = ResolveResult::Resource(Resource {
        path: "/proj/a.js".to_string(),
        query: Some("?raw".to_string()),
        fragment: None,
    });
    assert_eq!(resource.dependency_paths(), vec!["/proj/a.js".to_string()]);
    assert!(ResolveResult::Ignored.dependency_paths().is_empty());
    assert_eq!(resource.clone(), resource);
    assert_eq!(ResolveResult::Ignored.clone(), ResolveResult::Ignored);
}

#[test]
fn snapshot_failure_is_wrapped_with_its_cause() {
    let failure = IoFailure { reason: "permission denied".to_string() };
    let error = ResolveError::from_snapshot(failure.clone());
    assert_eq!(error.0, "permission denied");
    assert_eq!(error.1, ErrorCause::Snapshot(failure));
}
