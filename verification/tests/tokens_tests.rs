use verse_lsp::features::semantic_tokens::{
    capabilities_semantic_tokens, encode_entries, encode_sorted, find_owning_package,
    RS_AddSemanticToken, SemanticToken, SemanticTokenEntry, SemanticTokenKind,
    SemanticTokensAccumulator, TokenQuery, TOKEN_KIND_COUNT,
};
use verse_lsp::protocol::{SemanticTokensParams, TextDocumentIdentifier, WorkspaceFolder};
use verse_lsp::server::LanguageServer;
use verse_lsp::span::{FileState, SSourceSpan, SpanSource};
use verse_lsp::verse::{CProjectContainer, CSourcePackage, SourcePackage};
use verse_lsp::vproject::VProjectFile;

const ALL_KINDS: [SemanticTokenKind; 21] = [
    SemanticTokenKind::Namespace,
    SemanticTokenKind::Type,
    SemanticTokenKind::Enum,
    SemanticTokenKind::EnumMember,
    SemanticTokenKind::Struct,
    SemanticTokenKind::Class,
    SemanticTokenKind::Interface,
    SemanticTokenKind::Parameter,
    SemanticTokenKind::TypeParameter,
    SemanticTokenKind::Property,
    SemanticTokenKind::Variable,
    SemanticTokenKind::Function,
    SemanticTokenKind::Method,
    SemanticTokenKind::Macro,
    SemanticTokenKind::Keyword,
    SemanticTokenKind::Comment,
    SemanticTokenKind::String,
    SemanticTokenKind::Number,
    SemanticTokenKind::Operator,
    SemanticTokenKind::Attribute,
    SemanticTokenKind::Specifier,
];

fn entry(kind: SemanticTokenKind, row: u32, col: u32, end_row: u32, end_col: u32) -> SemanticTokenEntry {
    SemanticTokenEntry {
        token_kind: kind,
        span: SSourceSpan { begin_row: row, begin_col: col, end_row, end_col },
    }
}

fn token(delta_line: u32, delta_start: u32, length: u32, token_type: u32) -> SemanticToken {
    SemanticToken { delta_line, delta_start, length, token_type, token_modifiers_bitset: 0 }
}

fn package(dir: &str) -> SourcePackage {
    SourcePackage {
        name: "P".to_string(),
        verse_path: "/P".to_string(),
        dir_path: dir.to_string(),
        c_package: CSourcePackage(0),
    }
}

fn server(projects: &[&[&str]]) -> LanguageServer {
    let mut server = LanguageServer::new();
    for (i, dirs) in projects.iter().enumerate() {
        server
            .register_project_container(
                format!("file:///ws/{}.vproject", i),
                WorkspaceFolder { uri: "file:///ws".to_string(), name: "ws".to_string() },
                VProjectFile { packages: vec![] },
                CProjectContainer(i),
                dirs.iter().map(|dir| package(dir)).collect(),
            )
            .ok()
            .unwrap();
    }
    server
}

fn params(uri: &str) -> SemanticTokensParams {
    SemanticTokensParams { text_document: TextDocumentIdentifier { uri: uri.to_string() } }
}

#[test]
fn kinds_are_numbered_in_declaration_order() {
    assert_eq!(TOKEN_KIND_COUNT, 21);
    for (place, kind) in ALL_KINDS.iter().enumerate() {
        assert_eq!(kind.to_lsp_type_id(), place as u32);
        assert_eq!(SemanticTokenKind::from_lsp_type_id(place as u32), Some(*kind));
    }
    assert_eq!(SemanticTokenKind::from_lsp_type_id(21), None);
    assert_eq!(SemanticTokenKind::from_lsp_type_id(u32::MAX), None);
}

#[test]
fn kind_names_are_those_of_the_protocol() {
    let expected = [
        lsp_types::SemanticTokenType::NAMESPACE,
        lsp_types::SemanticTokenType::TYPE,
        lsp_types::SemanticTokenType::ENUM,
        lsp_types::SemanticTokenType::ENUM_MEMBER,
        lsp_types::SemanticTokenType::STRUCT,
        lsp_types::SemanticTokenType::CLASS,
        lsp_types::SemanticTokenType::INTERFACE,
        lsp_types::SemanticTokenType::PARAMETER,
        lsp_types::SemanticTokenType::TYPE_PARAMETER,
        lsp_types::SemanticTokenType::PROPERTY,
        lsp_types::SemanticTokenType::VARIABLE,
        lsp_types::SemanticTokenType::FUNCTION,
        lsp_types::SemanticTokenType::METHOD,
        lsp_types::SemanticTokenType::MACRO,
        lsp_types::SemanticTokenType::KEYWORD,
        lsp_types::SemanticTokenType::COMMENT,
        lsp_types::SemanticTokenType::STRING,
        lsp_types::SemanticTokenType::NUMBER,
        lsp_types::SemanticTokenType::OPERATOR,
        lsp_types::SemanticTokenType::new("attribute"),
        lsp_types::SemanticTokenType::new("specifier"),
    ];
    for (kind, name) in ALL_KINDS.iter().zip(expected.iter()) {
        assert_eq!(kind.to_lsp_type_def(), name.as_str());
    }
}

#[test]
fn legend_holds_each_kind_at_its_place() {
    let options = capabilities_semantic_tokens();
    assert!(!options.work_done_progress);
    assert!(!options.range);
    assert!(options.full);
    assert!(options.legend.token_modifiers.is_empty());
    assert_eq!(options.legend.token_types.len(), 21);
    for kind in ALL_KINDS.iter() {
        assert_eq!(
            options.legend.token_types[kind.to_lsp_type_id() as usize],
            kind.to_lsp_type_def()
        );
    }
    assert_eq!(options.legend.token_types[3], "enumMember");
    assert_eq!(options.legend.token_types[20], "specifier");
}

#[test]
fn accumulator_takes_tokens_in_order() {
    let mut acc = SemanticTokensAccumulator { token_entries: vec![] };
    RS_AddSemanticToken(&mut acc, entry(SemanticTokenKind::Keyword, 1, 0, 1, 2));
    RS_AddSemanticToken(&mut acc, entry(SemanticTokenKind::Number, 0, 0, 0, 1));
    assert_eq!(acc.token_entries.len(), 2);
    assert_eq!(acc.token_entries[0].token_kind, SemanticTokenKind::Keyword);
    assert_eq!(acc.token_entries[1].span.begin_row, 0);
}

#[test]
fn tokens_are_delta_encoded() {
    // line breaks at 11 and 18
    let source = SpanSource::new("using Verse\nx := 1\n  y := x");
    let entries = vec![
        entry(SemanticTokenKind::Keyword, 0, 0, 0, 5),
        entry(SemanticTokenKind::Namespace, 0, 6, 0, 11),
        entry(SemanticTokenKind::Variable, 1, 0, 1, 1),
        entry(SemanticTokenKind::Operator, 1, 2, 1, 4),
        entry(SemanticTokenKind::Number, 1, 5, 1, 6),
        entry(SemanticTokenKind::Variable, 2, 2, 2, 3),
        entry(SemanticTokenKind::Variable, 2, 7, 2, 8),
    ];
    assert_eq!(
        encode_sorted(&source, &entries),
        vec![
            token(0, 0, 5, 14),
            token(0, 6, 5, 0),
            token(1, 0, 1, 10),
            token(0, 2, 2, 18),
            token(0, 3, 1, 17),
            token(1, 2, 1, 10),
            token(0, 5, 1, 10),
        ]
    );
}

#[test]
fn token_over_several_lines_has_its_byte_length() {
    let source = SpanSource::new("a\n<# one\ntwo #>\nb");
    let entries = vec![entry(SemanticTokenKind::Comment, 1, 0, 2, 6)];
    assert_eq!(encode_sorted(&source, &entries), vec![token(1, 0, 13, 15)]);
}

#[test]
fn token_out_of_range_is_dropped_and_the_rest_encoded() {
    let source = SpanSource::new("ab\ncd");
    let entries = vec![
        entry(SemanticTokenKind::Keyword, 0, 0, 0, 2),
        entry(SemanticTokenKind::Type, 1, 0, 5, 0),
        entry(SemanticTokenKind::Number, 1, 1, 1, 2),
        entry(SemanticTokenKind::String, 7, 0, 7, 1),
    ];
    assert_eq!(encode_sorted(&source, &entries), vec![token(0, 0, 2, 14), token(1, 1, 1, 17)]);
}

#[test]
fn token_that_ends_before_it_starts_is_dropped() {
    let source = SpanSource::new("ab\ncd");
    let entries = vec![
        entry(SemanticTokenKind::Keyword, 0, 1, 0, 0),
        entry(SemanticTokenKind::Number, 1, 0, 1, 0),
    ];
    assert_eq!(encode_sorted(&source, &entries), vec![token(1, 0, 0, 17)]);
}

#[test]
fn no_entries_no_tokens() {
    let source = SpanSource::new("ab\ncd");
    assert_eq!(encode_sorted(&source, &vec![]), vec![]);
}

#[test]
fn entries_are_sorted_by_their_start_before_encoding() {
    let state = FileState { span_source: SpanSource::new("abc def\nghi\n") };
    let acc = SemanticTokensAccumulator {
        token_entries: vec![
            entry(SemanticTokenKind::Function, 1, 0, 1, 3),
            entry(SemanticTokenKind::Type, 0, 4, 0, 7),
            entry(SemanticTokenKind::Keyword, 0, 0, 0, 3),
        ],
    };
    assert_eq!(
        encode_entries(&state, acc),
        vec![token(0, 0, 3, 14), token(0, 4, 3, 1), token(1, 0, 3, 11)]
    );
}

#[test]
fn first_package_that_holds_the_file_answers() {
    let packages = vec![package("/ws/other"), package("/ws/pkg"), package("/ws")];
    assert_eq!(find_owning_package(&packages, "/ws/pkg/a.verse"), Some(1));
    assert_eq!(find_owning_package(&packages, "/ws/a.verse"), Some(2));
    assert_eq!(find_owning_package(&packages, "/elsewhere/a.verse"), None);
    assert_eq!(find_owning_package(&vec![], "/ws/a.verse"), None);
}

#[test]
fn last_container_that_holds_the_file_answers() {
    let made = server(&[&["/ws/pkg"], &["/ws/none"], &["/ws/x", "/ws"], &["/other"]]);
    assert_eq!(made.find_owner("/ws/pkg/a.verse"), Some((2, 1)));
    assert_eq!(made.find_owner("/ws/x/a.verse"), Some((2, 0)));
    assert_eq!(made.find_owner("/other/a.verse"), Some((3, 0)));
    assert_eq!(made.find_owner("/nowhere/a.verse"), None);
}

#[test]
fn token_request_for_a_document_without_file_state_is_empty() {
    let mut made = server(&[&["/ws/pkg"]]);
    let query = made.handle_req_semantic_tokens_full(
        &params("file:///ws/pkg/never_loaded.verse"),
        Some("/ws/pkg/never_loaded.verse"),
    );
    assert_eq!(query, TokenQuery::Empty);
    let acc = SemanticTokensAccumulator {
        token_entries: vec![entry(SemanticTokenKind::Keyword, 0, 0, 0, 1)],
    };
    let tokens =
        made.get_semantic_tokens(0, &"file:///ws/pkg/never_loaded.verse".to_string(), acc);
    assert!(tokens.is_empty());
    made.project_containers[0].update_source(0, "/ws/pkg/a.verse", "x\n");
    let query = made.handle_req_semantic_tokens_full(
        &params("file:///ws/pkg/b.verse"),
        Some("/ws/pkg/b.verse"),
    );
    assert_eq!(query, TokenQuery::Empty);
}

#[test]
fn token_request_outside_every_package_is_empty() {
    let made = server(&[&["/ws/pkg"]]);
    let query = made
        .handle_req_semantic_tokens_full(&params("file:///tmp/a.verse"), Some("/tmp/a.verse"));
    assert_eq!(query, TokenQuery::Empty);
}

#[test]
fn token_request_for_a_loaded_document_asks_the_engine() {
    let mut made = server(&[&["/ws/other", "/ws/pkg"]]);
    made.project_containers[0].update_source(1, "/ws/pkg/a.verse", "if x\n  y\n");
    let query = made.handle_req_semantic_tokens_full(
        &params("file:///ws/pkg/a.verse"),
        Some("/ws/pkg/a.verse"),
    );
    assert_eq!(query, TokenQuery::Ask { container: 0, package: 1 });
    let query = made.handle_req_semantic_tokens_full(&params("file:///ws/pkg/a.verse"), None);
    assert_eq!(query, TokenQuery::Empty);
    let acc = SemanticTokensAccumulator {
        token_entries: vec![
            entry(SemanticTokenKind::Variable, 1, 2, 1, 3),
            entry(SemanticTokenKind::Keyword, 0, 0, 0, 2),
        ],
    };
    let tokens = made.get_semantic_tokens(0, &"file:///ws/pkg/a.verse".to_string(), acc);
    assert_eq!(tokens, vec![token(0, 0, 2, 14), token(1, 2, 1, 10)]);
}
