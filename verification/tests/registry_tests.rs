use verse_lsp::diagnostics::{DiagnosticAccumulator, RS_AddDiagnostic, SDiagnostic};
use verse_lsp::ffi::clone_names;
use verse_lsp::protocol::WorkspaceFolder;
use verse_lsp::span::SSourceSpan;
use verse_lsp::verse::{CProjectContainer, CSourcePackage, ProjectContainer, SourcePackage};
use verse_lsp::vproject::{
    PackageDesc, PackageRole, PackageSettings, VProjectFile, VProjectPackage, VerseScope,
};

fn settings() -> PackageSettings {
    PackageSettings {
        verse_path: "/game.com/Main".to_string(),
        verse_scope: VerseScope::PublicUser,
        role: PackageRole::source(),
        verse_version: None,
        treat_modules_as_implicit: false,
        dependency_packages: vec!["Core".to_string(), "Engine".to_string()],
        vni_dest_dir: None,
        allow_experimental: true,
    }
}

fn package(name: &str, dir: &str, handle: usize) -> SourcePackage {
    SourcePackage {
        name: name.to_string(),
        verse_path: "/game.com/Main".to_string(),
        dir_path: dir.to_string(),
        c_package: CSourcePackage(handle),
    }
}

fn container(packages: Vec<SourcePackage>) -> ProjectContainer {
    ProjectContainer::new(
        WorkspaceFolder { uri: "file:///proj".to_string(), name: "proj".to_string() },
        "file:///proj/game.vproject".to_string(),
        VProjectFile { packages: vec![] },
        CProjectContainer(1),
        packages,
    )
}

fn error(path: &str, message: &str) -> SDiagnostic {
    SDiagnostic {
        path: path.to_string(),
        message: message.to_string(),
        reference_code: 0,
        severity: 1,
        span: SSourceSpan { begin_row: 0, begin_col: 0, end_row: 0, end_col: 1 },
    }
}

fn report(entries: &[(&str, &str)]) -> DiagnosticAccumulator {
    let mut acc = DiagnosticAccumulator::new();
    for (path, message) in entries {
        RS_AddDiagnostic(&mut acc, error(path, message));
    }
    acc
}

#[test]
fn role_defaults_to_source() {
    assert_eq!(PackageRole::source(), PackageRole::Source);
}

#[test]
fn scope_and_role_codes_follow_the_declaration() {
    assert_eq!(VerseScope::PublicAPI.code(), 0);
    assert_eq!(VerseScope::InternalAPI.code(), 1);
    assert_eq!(VerseScope::PublicUser.code(), 2);
    assert_eq!(VerseScope::InternalUser.code(), 3);
    assert_eq!(PackageRole::Source.code(), 0);
    assert_eq!(PackageRole::External.code(), 1);
    assert_eq!(PackageRole::GenerateCompatConstraint.code(), 2);
    assert_eq!(PackageRole::PersistenceCompatConstraint.code(), 3);
    assert_eq!(PackageRole::PersistenceSoftCompatConstraint.code(), 4);
}

#[test]
fn settings_without_a_version_lower_to_version_zero() {
    let lowered = settings().lower(3811);
    assert_eq!(lowered.fortnite_version, 3811);
    assert_eq!(lowered.verse_path, "/game.com/Main");
    assert_eq!(lowered.verse_scope, 2);
    assert_eq!(lowered.role, 0);
    assert!(!lowered.explicit_verse_version);
    assert_eq!(lowered.verse_version, 0);
    assert!(!lowered.treat_modules_as_implicit);
    assert_eq!(lowered.dependency_packages, vec!["Core".to_string(), "Engine".to_string()]);
    assert_eq!(lowered.vni_dest_dir, None);
    assert!(lowered.allow_experimental);
}

#[test]
fn settings_with_a_version_lower_to_that_version() {
    let mut with_version = settings();
    with_version.verse_version = Some(1);
    with_version.role = PackageRole::External;
    with_version.vni_dest_dir = Some("/out".to_string());
    with_version.treat_modules_as_implicit = true;
    let lowered = with_version.lower(0);
    assert_eq!(lowered.fortnite_version, 0);
    assert!(lowered.explicit_verse_version);
    assert_eq!(lowered.verse_version, 1);
    assert_eq!(lowered.role, 1);
    assert_eq!(lowered.vni_dest_dir, Some("/out".to_string()));
    assert!(lowered.treat_modules_as_implicit);
}

#[test]
fn names_are_copied_in_order() {
    let names = vec!["a".to_string(), "b".to_string(), "c".to_string()];
    assert_eq!(clone_names(&names), names);
    assert_eq!(clone_names(&vec![]), Vec::<String>::new());
}

#[test]
fn package_takes_name_and_path_from_the_descriptor() {
    let declared = VProjectPackage {
        desc: PackageDesc {
            name: "Main".to_string(),
            dir_path: "./Content".to_string(),
            settings: settings(),
        },
        read_only: false,
    };
    let made = SourcePackage::from_descriptor(
        &declared,
        "/proj/Content".to_string(),
        CSourcePackage(9),
    );
    assert_eq!(made.name, "Main");
    assert_eq!(made.verse_path, "/game.com/Main");
    assert_eq!(made.dir_path, "/proj/Content");
    assert_eq!(made.c_package.0, 9);
}

#[test]
fn new_container_is_empty() {
    let made = container(vec![package("Main", "/proj/pkg", 2)]);
    assert_eq!(made.diagnostics.len(), 0);
    assert!(made.stale_diagnostic_uris.is_empty());
    assert_eq!(made.file_cache.len(), 0);
    assert!(!made.needs_build);
    assert_eq!(made.vproject_uri, "file:///proj/game.vproject");
    assert_eq!(made.packages.len(), 1);
}

#[test]
fn update_source_stores_line_breaks_and_names_the_module() {
    let mut made = container(vec![package("Main", "/proj/pkg", 2)]);
    let upsert = made.update_source(0, "/proj/pkg/sub/a.verse", "x\ny\n").unwrap();
    assert_eq!(upsert.package, 0);
    assert_eq!(upsert.path, "/proj/pkg/sub/a.verse");
    assert_eq!(upsert.module_path_to_root, "sub");
    assert_eq!(upsert.contents, "x\ny\n");
    assert_eq!(made.file_cache.len(), 1);
    assert_eq!(made.file_cache.key_at(0), "file:///proj/pkg/sub/a.verse");
    let state = made.file_cache.value_at(0);
    assert_eq!(state.span_source.line_break_count(), 2);
    assert_eq!(state.span_source.line_col_to_byte_offset(1, 0), Some(2));
    assert!(!made.needs_build);
}

#[test]
fn update_source_of_a_file_in_the_package_root() {
    let mut made = container(vec![package("Main", "/proj/pkg", 2)]);
    let upsert = made.update_source(0, "/proj/pkg/a.verse", "").unwrap();
    assert_eq!(upsert.module_path_to_root, "");
}

#[test]
fn update_source_twice_keeps_the_latest_line_breaks_only() {
    let mut made = container(vec![package("Main", "/proj/pkg", 2)]);
    made.update_source(0, "/proj/pkg/a.verse", "1\n2\n3\n4\n");
    made.update_source(0, "/proj/pkg/b.verse", "b\n");
    made.update_source(0, "/proj/pkg/a.verse", "long first line\n");
    assert_eq!(made.file_cache.len(), 2);
    let state = made.file_cache.get(&"file:///proj/pkg/a.verse".to_string()).unwrap();
    assert_eq!(state.span_source.line_break_count(), 1);
    assert_eq!(state.span_source.line_col_to_byte_offset(1, 0), Some(16));
    assert_eq!(state.span_source.line_col_to_byte_offset(2, 0), None);
    let other = made.file_cache.get(&"file:///proj/pkg/b.verse".to_string()).unwrap();
    assert_eq!(other.span_source.line_break_count(), 1);
}

#[test]
fn update_source_of_a_path_without_uri_changes_nothing() {
    let mut made = container(vec![package("Main", "/proj/pkg", 2)]);
    assert!(made.update_source(0, "pkg/a.verse", "x\n").is_none());
    assert_eq!(made.file_cache.len(), 0);
}

#[test]
fn cache_file_state_takes_the_uri_as_given() {
    let mut made = container(vec![]);
    made.cache_file_state("untitled:1".to_string(), "a\nb");
    made.cache_file_state("untitled:1".to_string(), "a\nb\nc\n");
    assert_eq!(made.file_cache.len(), 1);
    assert_eq!(made.file_cache.value_at(0).span_source.line_break_count(), 3);
}

#[test]
fn update_sources_reaches_every_package_that_holds_the_file() {
    let mut made = container(vec![
        package("Outer", "/proj", 2),
        package("Other", "/proj/other", 3),
        package("Inner", "/proj/pkg", 4),
    ]);
    let upserts = made.update_sources("/proj/pkg/sub/a.verse", "x\n");
    assert_eq!(upserts.len(), 2);
    assert_eq!(upserts[0].package, 0);
    assert_eq!(upserts[0].module_path_to_root, "pkg/sub");
    assert_eq!(upserts[1].package, 2);
    assert_eq!(upserts[1].module_path_to_root, "sub");
    assert!(made.needs_build);
    assert_eq!(made.file_cache.len(), 1);
}

#[test]
fn update_sources_compares_whole_path_components() {
    let mut made = container(vec![package("Main", "/proj/pkg", 2)]);
    let upserts = made.update_sources("/proj/pkg2/a.verse", "x\n");
    assert!(upserts.is_empty());
    assert_eq!(made.file_cache.len(), 0);
    assert!(made.needs_build);
}

#[test]
fn build_takes_the_reported_diagnostics() {
    let mut made = container(vec![]);
    made.needs_build = true;
    made.build(report(&[("/proj/a.verse", "one"), ("/proj/b.verse", "two"), ("/proj/a.verse", "three")]));
    assert!(!made.needs_build);
    assert_eq!(made.diagnostics.len(), 2);
    assert_eq!(made.diagnostics.get(&"file:///proj/a.verse".to_string()).unwrap().len(), 2);
    assert_eq!(made.diagnostics.get(&"file:///proj/b.verse".to_string()).unwrap().len(), 1);
    assert!(made.stale_diagnostic_uris.is_empty());
}

#[test]
fn build_puts_project_diagnostics_under_the_descriptor() {
    let mut made = container(vec![]);
    made.build(report(&[("", "bad settings"), ("/proj/game.vproject", "in file"), ("", "again")]));
    assert_eq!(made.diagnostics.len(), 1);
    let listed = made.diagnostics.get(&"file:///proj/game.vproject".to_string()).unwrap();
    assert_eq!(listed.len(), 3);
    assert_eq!(listed[0].message, "in file");
    assert_eq!(listed[1].message, "bad settings");
    assert_eq!(listed[2].message, "again");
}

#[test]
fn build_marks_documents_without_diagnostics_as_stale() {
    let mut made = container(vec![]);
    made.build(report(&[("/proj/a.verse", "one"), ("/proj/b.verse", "two")]));
    made.build(report(&[("/proj/b.verse", "still")]));
    assert_eq!(made.diagnostics.len(), 1);
    assert_eq!(made.stale_diagnostic_uris.len(), 1);
    assert!(made.stale_diagnostic_uris.has(&"file:///proj/a.verse".to_string()));
    made.build(report(&[]));
    assert_eq!(made.diagnostics.len(), 0);
    assert_eq!(made.stale_diagnostic_uris.len(), 2);
    assert!(made.stale_diagnostic_uris.has(&"file:///proj/b.verse".to_string()));
    made.build(report(&[("/proj/a.verse", "back")]));
    assert_eq!(made.stale_diagnostic_uris.len(), 2);
    assert_eq!(made.diagnostics.len(), 1);
}

#[test]
fn build_keeps_the_descriptor_fresh_while_the_project_has_diagnostics() {
    let mut made = container(vec![]);
    made.build(report(&[("", "bad settings")]));
    made.build(report(&[("", "bad settings")]));
    assert!(made.stale_diagnostic_uris.is_empty());
    made.build(report(&[]));
    assert!(made.stale_diagnostic_uris.has(&"file:///proj/game.vproject".to_string()));
}
