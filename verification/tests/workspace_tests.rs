use verse_lsp::diagnostics::{DiagnosticAccumulator, RS_AddDiagnostic, SDiagnostic};
use verse_lsp::features::workspace::{
    capabilities_workspace_folders, clone_folders, folder_is_named, folder_uri_is_named,
};
use verse_lsp::protocol::{
    DidChangeTextDocumentParams, DidChangeWorkspaceFoldersParams, PublishDiagnosticsParams,
    TextDocumentContentChangeEvent, VersionedTextDocumentIdentifier, WorkspaceFolder,
    WorkspaceFoldersChangeEvent,
};
use verse_lsp::diagnostics::{Position, Range};
use verse_lsp::server::{
    LanguageServer, ServerError, VerseLspCESettings, LATEST_FORTNITE_VERSION,
};
use verse_lsp::span::SSourceSpan;
use verse_lsp::verse::{CProjectContainer, CSourcePackage, SourcePackage};
use verse_lsp::vproject::VProjectFile;

fn folder(name: &str) -> WorkspaceFolder {
    WorkspaceFolder { uri: format!("file:///{}", name), name: name.to_string() }
}

fn package(dir: &str, handle: usize) -> SourcePackage {
    SourcePackage {
        name: "P".to_string(),
        verse_path: "/P".to_string(),
        dir_path: dir.to_string(),
        c_package: CSourcePackage(handle),
    }
}

fn register(server: &mut LanguageServer, under: &str, descriptor: &str, dirs: &[&str]) -> usize {
    let packages = dirs.iter().enumerate().map(|(i, dir)| package(dir, i)).collect();
    server
        .register_project_container(
            format!("file:///{}/{}", under, descriptor),
            folder(under),
            VProjectFile { packages: vec![] },
            CProjectContainer(7),
            packages,
        )
        .ok()
        .unwrap()
}

fn diagnostic(path: &str, message: &str, row: u32, col: u32) -> SDiagnostic {
    SDiagnostic {
        path: path.to_string(),
        message: message.to_string(),
        reference_code: 0,
        severity: 1,
        span: SSourceSpan { begin_row: row, begin_col: col, end_row: row, end_col: col + 1 },
    }
}

fn report(entries: &[(&str, &str)]) -> DiagnosticAccumulator {
    let mut acc = DiagnosticAccumulator::new();
    for (path, message) in entries {
        RS_AddDiagnostic(&mut acc, diagnostic(path, message, 0, 0));
    }
    acc
}

fn event_for<'a>(
    events: &'a [PublishDiagnosticsParams],
    uri: &str,
) -> Vec<&'a PublishDiagnosticsParams> {
    events.iter().filter(|event| event.uri == uri).collect()
}

fn change(uri: &str, texts: &[(bool, &str)]) -> DidChangeTextDocumentParams {
    DidChangeTextDocumentParams {
        text_document: VersionedTextDocumentIdentifier { uri: uri.to_string(), version: 1 },
        content_changes: texts
            .iter()
            .map(|(ranged, text)| TextDocumentContentChangeEvent {
                range: if *ranged {
                    Some(Range {
                        start: Position { line: 0, character: 0 },
                        end: Position { line: 0, character: 1 },
                    })
                } else {
                    None
                },
                text: text.to_string(),
            })
            .collect(),
    }
}

#[test]
fn new_server_is_empty() {
    let server = LanguageServer::new();
    assert!(server.workspace_folders.is_empty());
    assert!(server.project_containers.is_empty());
    assert!(server.settings.fortnite_version.is_none());
}

#[test]
fn game_version_defaults_to_the_latest() {
    assert_eq!(LATEST_FORTNITE_VERSION, 3811);
    assert!(VerseLspCESettings::default().fortnite_version.is_none());
    assert_eq!(VerseLspCESettings::default().fortnite_version_or_latest(), 3811);
    let set = VerseLspCESettings { fortnite_version: Some(3000) };
    assert_eq!(set.fortnite_version_or_latest(), 3000);
    let zero = VerseLspCESettings { fortnite_version: Some(0) };
    assert_eq!(zero.fortnite_version_or_latest(), 0);
}

#[test]
fn workspace_folder_capabilities() {
    let capabilities = capabilities_workspace_folders();
    assert!(capabilities.supported);
    assert!(capabilities.change_notifications);
}

#[test]
fn folders_compare_by_uri_and_name() {
    let folders = vec![folder("a"), folder("b")];
    assert!(folder_is_named(&folders, &folder("b")));
    assert!(!folder_is_named(&folders, &folder("c")));
    let renamed = WorkspaceFolder { uri: "file:///a".to_string(), name: "other".to_string() };
    assert!(!folder_is_named(&folders, &renamed));
    assert!(folder_uri_is_named(&folders, &renamed));
    assert!(!folder_uri_is_named(&folders, &folder("c")));
    assert!(folder("a").is_same(&folder("a")));
    assert!(!folder("a").is_same(&renamed));
    let copy = clone_folders(&folders);
    assert_eq!(copy.len(), 2);
    assert!(copy[0].is_same(&folders[0]));
    assert!(copy[1].is_same(&folders[1]));
}

#[test]
fn registration_appends_an_empty_container() {
    let mut server = LanguageServer::new();
    assert_eq!(register(&mut server, "ws", "a.vproject", &["/ws/a"]), 0);
    assert_eq!(register(&mut server, "ws", "b.vproject", &["/ws/b"]), 1);
    assert_eq!(server.project_containers.len(), 2);
    assert_eq!(server.project_containers[1].vproject_uri, "file:///ws/b.vproject");
    assert_eq!(server.project_containers[1].diagnostics.len(), 0);
    assert!(server.project_containers[1].stale_diagnostic_uris.is_empty());
    assert_eq!(server.project_containers[1].file_cache.len(), 0);
    assert!(!server.project_containers[1].needs_build);
    assert_eq!(server.find_container(&"file:///ws/b.vproject".to_string()), Some(1));
    assert_eq!(server.find_container(&"file:///ws/c.vproject".to_string()), None);
}

#[test]
fn one_container_for_each_descriptor() {
    let mut server = LanguageServer::new();
    register(&mut server, "ws", "a.vproject", &["/ws/a"]);
    let again = server.register_project_container(
        "file:///ws/a.vproject".to_string(),
        folder("elsewhere"),
        VProjectFile { packages: vec![] },
        CProjectContainer(99),
        vec![],
    );
    match again {
        Err(container) => {
            assert_eq!(container.c_container.0, 99);
            assert_eq!(container.vproject_uri, "file:///ws/a.vproject");
        }
        Ok(_) => panic!("a second container for one descriptor"),
    }
    assert_eq!(server.project_containers.len(), 1);
    assert_eq!(server.project_containers[0].c_container.0, 7);
}

#[test]
fn removed_folder_takes_its_containers_along() {
    let mut server = LanguageServer::new();
    server.workspace_folders = vec![folder("one"), folder("two"), folder("three")];
    register(&mut server, "one", "a.vproject", &[]);
    register(&mut server, "two", "b.vproject", &[]);
    register(&mut server, "one", "c.vproject", &[]);
    register(&mut server, "three", "d.vproject", &[]);
    let change = server.handle_notif_workspace_folders_change(DidChangeWorkspaceFoldersParams {
        event: WorkspaceFoldersChangeEvent {
            added: vec![folder("four")],
            removed: vec![folder("one"), folder("unknown")],
        },
    });
    let left: Vec<&str> =
        server.project_containers.iter().map(|c| c.vproject_uri.as_str()).collect();
    assert_eq!(left, vec!["file:///two/b.vproject", "file:///three/d.vproject"]);
    let gone: Vec<&str> =
        change.removed_containers.iter().map(|c| c.vproject_uri.as_str()).collect();
    assert_eq!(gone, vec!["file:///one/a.vproject", "file:///one/c.vproject"]);
    let folders: Vec<&str> = server.workspace_folders.iter().map(|f| f.name.as_str()).collect();
    assert_eq!(folders, vec!["two", "three", "four"]);
    assert_eq!(change.added_folders.len(), 1);
    assert_eq!(change.added_folders[0].uri, "file:///four");
}

#[test]
fn registration_after_removal_starts_without_state() {
    let mut server = LanguageServer::new();
    server.workspace_folders = vec![folder("ws")];
    let index = register(&mut server, "ws", "a.vproject", &["/ws/pkg"]);
    server.project_containers[index].update_source(0, "/ws/pkg/a.verse", "x\n");
    server.project_containers[index].build(report(&[("/ws/pkg/a.verse", "bad")]));
    server.project_containers[index].build(report(&[]));
    assert_eq!(server.project_containers[index].stale_diagnostic_uris.len(), 1);
    let change = server.handle_notif_workspace_folders_change(DidChangeWorkspaceFoldersParams {
        event: WorkspaceFoldersChangeEvent { added: vec![], removed: vec![folder("ws")] },
    });
    assert_eq!(change.removed_containers.len(), 1);
    assert!(server.project_containers.is_empty());
    assert!(server.publish_diagnostics().is_empty());
    let index = register(&mut server, "ws", "a.vproject", &["/ws/pkg"]);
    let container = &server.project_containers[index];
    assert_eq!(container.diagnostics.len(), 0);
    assert!(container.stale_diagnostic_uris.is_empty());
    assert_eq!(container.file_cache.len(), 0);
    assert!(server.publish_diagnostics().is_empty());
}

#[test]
fn partial_text_change_is_rejected() {
    let mut server = LanguageServer::new();
    register(&mut server, "ws", "a.vproject", &["/ws/pkg"]);
    let outcome = server.handle_notif_document_change(
        change("file:///ws/pkg/a.verse", &[(true, "x")]),
        "/ws/pkg/a.verse",
    );
    match outcome {
        Err(error) => {
            assert!(matches!(error, ServerError::FullSyncExpected));
            assert_eq!(error.message(), "full document sync expected");
        }
        Ok(_) => panic!("a partial change was taken"),
    }
    assert!(!server.project_containers[0].needs_build);
    assert_eq!(server.project_containers[0].file_cache.len(), 0);
    let outcome =
        server.handle_notif_document_change(change("file:///ws/pkg/a.verse", &[]), "/ws/pkg/a.verse");
    assert!(matches!(outcome, Err(ServerError::FullSyncExpected)));
}

#[test]
fn text_change_takes_the_first_change_only() {
    let mut server = LanguageServer::new();
    register(&mut server, "ws", "a.vproject", &["/ws/pkg"]);
    let updates = server
        .handle_notif_document_change(
            change("file:///ws/pkg/a.verse", &[(false, "one\ntwo\n"), (true, "ignored\n\n\n")]),
            "/ws/pkg/a.verse",
        )
        .unwrap();
    assert_eq!(updates.len(), 1);
    assert_eq!(updates[0].len(), 1);
    assert_eq!(updates[0][0].contents, "one\ntwo\n");
    let state = server.project_containers[0].file_cache.value_at(0);
    assert_eq!(state.span_source.line_break_count(), 2);
}

#[test]
fn text_change_flags_every_container_and_builds_none() {
    let mut server = LanguageServer::new();
    register(&mut server, "ws", "a.vproject", &["/ws/a", "/ws/shared"]);
    register(&mut server, "ws", "b.vproject", &["/ws/b"]);
    register(&mut server, "ws", "c.vproject", &["/ws/shared", "/ws"]);
    let updates = server
        .handle_notif_document_change(
            change("file:///ws/shared/m/x.verse", &[(false, "a\n")]),
            "/ws/shared/m/x.verse",
        )
        .unwrap();
    assert_eq!(updates.len(), 3);
    assert_eq!(updates[0].len(), 1);
    assert_eq!(updates[0][0].package, 1);
    assert_eq!(updates[0][0].module_path_to_root, "m");
    assert!(updates[1].is_empty());
    assert_eq!(updates[2].len(), 2);
    assert_eq!(updates[2][0].package, 0);
    assert_eq!(updates[2][1].package, 1);
    assert_eq!(updates[2][1].module_path_to_root, "shared/m");
    for container in server.project_containers.iter() {
        assert!(container.needs_build);
        assert_eq!(container.diagnostics.len(), 0);
    }
    assert_eq!(server.project_containers[0].file_cache.len(), 1);
    assert_eq!(server.project_containers[1].file_cache.len(), 0);
    assert_eq!(server.project_containers[2].file_cache.len(), 1);
    assert_eq!(
        server.project_containers[2].file_cache.key_at(0),
        "file:///ws/shared/m/x.verse"
    );
}

#[test]
fn publish_merges_containers_in_order() {
    let mut server = LanguageServer::new();
    register(&mut server, "ws", "a.vproject", &[]);
    register(&mut server, "ws", "b.vproject", &[]);
    server.project_containers[0].build(report(&[("/ws/x.verse", "a1"), ("/ws/y.verse", "a2")]));
    server.project_containers[1].build(report(&[("/ws/x.verse", "b1"), ("/ws/x.verse", "b2")]));
    let events = server.publish_diagnostics();
    assert_eq!(events.len(), 2);
    let of_x = event_for(&events, "file:///ws/x.verse");
    assert_eq!(of_x.len(), 1);
    let messages: Vec<&str> = of_x[0].diagnostics.iter().map(|d| d.message.as_str()).collect();
    assert_eq!(messages, vec!["a1", "b1", "b2"]);
    let of_y = event_for(&events, "file:///ws/y.verse");
    assert_eq!(of_y.len(), 1);
    assert_eq!(of_y[0].diagnostics.len(), 1);
    // the diagnostics stay with their containers
    assert_eq!(server.project_containers[0].diagnostics.len(), 2);
    assert_eq!(server.project_containers[1].diagnostics.len(), 1);
}

#[test]
fn publish_repeats_what_still_has_diagnostics() {
    let mut server = LanguageServer::new();
    register(&mut server, "ws", "a.vproject", &[]);
    server.project_containers[0].build(report(&[("/ws/x.verse", "a1")]));
    assert_eq!(server.publish_diagnostics().len(), 1);
    let again = server.publish_diagnostics();
    assert_eq!(again.len(), 1);
    assert_eq!(again[0].uri, "file:///ws/x.verse");
    assert_eq!(again[0].diagnostics.len(), 1);
}

#[test]
fn cleared_document_gets_one_empty_publish() {
    let mut server = LanguageServer::new();
    register(&mut server, "ws", "a.vproject", &[]);
    server.project_containers[0].build(report(&[("/ws/x.verse", "e1"), ("/ws/x.verse", "e2")]));
    let first = server.publish_diagnostics();
    assert_eq!(event_for(&first, "file:///ws/x.verse")[0].diagnostics.len(), 2);
    server.project_containers[0].build(report(&[]));
    let second = server.publish_diagnostics();
    let of_x = event_for(&second, "file:///ws/x.verse");
    assert_eq!(of_x.len(), 1);
    assert!(of_x[0].diagnostics.is_empty());
    assert!(server.project_containers[0].stale_diagnostic_uris.is_empty());
    server.project_containers[0].build(report(&[]));
    let third = server.publish_diagnostics();
    assert!(event_for(&third, "file:///ws/x.verse").is_empty());
    let empties = first
        .iter()
        .chain(second.iter())
        .chain(third.iter())
        .filter(|event| event.uri == "file:///ws/x.verse" && event.diagnostics.is_empty())
        .count();
    assert_eq!(empties, 1);
}

#[test]
fn stale_in_one_container_and_reported_in_another_is_not_empty() {
    let mut server = LanguageServer::new();
    register(&mut server, "ws", "a.vproject", &[]);
    register(&mut server, "ws", "b.vproject", &[]);
    server.project_containers[0].build(report(&[("/ws/x.verse", "a1")]));
    server.project_containers[0].build(report(&[]));
    server.project_containers[1].build(report(&[("/ws/x.verse", "b1")]));
    let events = server.publish_diagnostics();
    assert_eq!(events.len(), 1);
    assert_eq!(events[0].uri, "file:///ws/x.verse");
    assert_eq!(events[0].diagnostics.len(), 1);
    assert_eq!(events[0].diagnostics[0].message, "b1");
}

#[test]
fn initial_load_and_build_publishes_the_syntax_error() {
    let mut server = LanguageServer::new();
    let index = register(&mut server, "D", "game.vproject", &["/D"]);
    let upsert = server.project_containers[index]
        .update_source(0, "/D/a.verse", "line0\nline1\nabc )\n")
        .unwrap();
    assert_eq!(upsert.module_path_to_root, "");
    let mut acc = DiagnosticAccumulator::new();
    RS_AddDiagnostic(&mut acc, diagnostic("/D/a.verse", "unexpected token", 2, 4));
    server.project_containers[index].build(acc);
    let events = server.publish_diagnostics();
    let of_a = event_for(&events, "file:///D/a.verse");
    assert_eq!(events.len(), 1);
    assert_eq!(of_a.len(), 1);
    assert_eq!(of_a[0].diagnostics.len(), 1);
    assert_eq!(of_a[0].diagnostics[0].range.start, Position { line: 2, character: 4 });
    assert_eq!(of_a[0].diagnostics[0].message, "unexpected token");
}
