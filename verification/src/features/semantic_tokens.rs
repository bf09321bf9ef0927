//! Semantic tokens: their kinds, and their encoding for the client.

use crate::paths::{path_has_prefix, path_starts_with};
use crate::protocol::SemanticTokensParams;
use crate::server::LanguageServer;
use crate::span::{offset_of, strictly_increasing, FileState, SSourceSpan, SpanSource};
use crate::verse::{lemma_owning_packages, owning_packages, ProjectContainer, SourcePackage};
use vstd::prelude::*;

verus! {

/// The lexical category of a token. The order of the variants is the order of
/// the legend that the client is given.
#[derive(Clone, Copy, Debug, PartialEq, Eq, Structural)]
pub enum SemanticTokenKind {
    Namespace,
    Type,
    Enum,
    EnumMember,
    Struct,
    Class,
    Interface,
    Parameter,
    TypeParameter,
    Property,
    Variable,
    Function,
    Method,
    Macro,
    Keyword,
    Comment,
    String,
    Number,
    Operator,
    Attribute,
    Specifier,
}

/// The number of token kinds.
pub const TOKEN_KIND_COUNT: u32 = 21;

impl SemanticTokenKind {
    /// The place of the kind in the legend.
    pub open spec fn type_id(self) -> u32 {
        match self {
            SemanticTokenKind::Namespace => 0,
            SemanticTokenKind::Type => 1,
            SemanticTokenKind::Enum => 2,
            SemanticTokenKind::EnumMember => 3,
            SemanticTokenKind::Struct => 4,
            SemanticTokenKind::Class => 5,
            SemanticTokenKind::Interface => 6,
            SemanticTokenKind::Parameter => 7,
            SemanticTokenKind::TypeParameter => 8,
            SemanticTokenKind::Property => 9,
            SemanticTokenKind::Variable => 10,
            SemanticTokenKind::Function => 11,
            SemanticTokenKind::Method => 12,
            SemanticTokenKind::Macro => 13,
            SemanticTokenKind::Keyword => 14,
            SemanticTokenKind::Comment => 15,
            SemanticTokenKind::String => 16,
            SemanticTokenKind::Number => 17,
            SemanticTokenKind::Operator => 18,
            SemanticTokenKind::Attribute => 19,
            SemanticTokenKind::Specifier => 20,
        }
    }

    /// The name by which the protocol knows the kind.
    pub open spec fn legend_name(self) -> Seq<char> {
        match self {
            SemanticTokenKind::Namespace => "namespace"@,
            SemanticTokenKind::Type => "type"@,
            SemanticTokenKind::Enum => "enum"@,
            SemanticTokenKind::EnumMember => "enumMember"@,
            SemanticTokenKind::Struct => "struct"@,
            SemanticTokenKind::Class => "class"@,
            SemanticTokenKind::Interface => "interface"@,
            SemanticTokenKind::Parameter => "parameter"@,
            SemanticTokenKind::TypeParameter => "typeParameter"@,
            SemanticTokenKind::Property => "property"@,
            SemanticTokenKind::Variable => "variable"@,
            SemanticTokenKind::Function => "function"@,
            SemanticTokenKind::Method => "method"@,
            SemanticTokenKind::Macro => "macro"@,
            SemanticTokenKind::Keyword => "keyword"@,
            SemanticTokenKind::Comment => "comment"@,
            SemanticTokenKind::String => "string"@,
            SemanticTokenKind::Number => "number"@,
            SemanticTokenKind::Operator => "operator"@,
            SemanticTokenKind::Attribute => "attribute"@,
            SemanticTokenKind::Specifier => "specifier"@,
        }
    }

    /// The kind at place `id` of the legend.
    pub open spec fn of_type_id(id: u32) -> Option<SemanticTokenKind> {
        if id == 0 {
            Some(SemanticTokenKind::Namespace)
        } else if id == 1 {
            Some(SemanticTokenKind::Type)
        } else if id == 2 {
            Some(SemanticTokenKind::Enum)
        } else if id == 3 {
            Some(SemanticTokenKind::EnumMember)
        } else if id == 4 {
            Some(SemanticTokenKind::Struct)
        } else if id == 5 {
            Some(SemanticTokenKind::Class)
        } else if id == 6 {
            Some(SemanticTokenKind::Interface)
        } else if id == 7 {
            Some(SemanticTokenKind::Parameter)
        } else if id == 8 {
            Some(SemanticTokenKind::TypeParameter)
        } else if id == 9 {
            Some(SemanticTokenKind::Property)
        } else if id == 10 {
            Some(SemanticTokenKind::Variable)
        } else if id == 11 {
            Some(SemanticTokenKind::Function)
        } else if id == 12 {
            Some(SemanticTokenKind::Method)
        } else if id == 13 {
            Some(SemanticTokenKind::Macro)
        } else if id == 14 {
            Some(SemanticTokenKind::Keyword)
        } else if id == 15 {
            Some(SemanticTokenKind::Comment)
        } else if id == 16 {
            Some(SemanticTokenKind::String)
        } else if id == 17 {
            Some(SemanticTokenKind::Number)
        } else if id == 18 {
            Some(SemanticTokenKind::Operator)
        } else if id == 19 {
            Some(SemanticTokenKind::Attribute)
        } else if id == 20 {
            Some(SemanticTokenKind::Specifier)
        } else {
            None
        }
    }

    /// Every kind has a place in the legend, and is the kind at that place.
    pub proof fn lemma_type_id_round_trip(self)
        ensures
            self.type_id() < TOKEN_KIND_COUNT,
            Self::of_type_id(self.type_id()) == Some(self),
    {
    }

    /// Every place below the number of kinds holds a kind, whose place it is.
    pub proof fn lemma_of_type_id_round_trip(id: u32)
        ensures
            id < TOKEN_KIND_COUNT <==> Self::of_type_id(id) is Some,
            Self::of_type_id(id) is Some ==> Self::of_type_id(id).unwrap().type_id() == id,
    {
    }

    /// The place of the kind in the legend.
    pub fn to_lsp_type_id(self) -> (id: u32)
        ensures
            id == self.type_id(),
    {
        match self {
            SemanticTokenKind::Namespace => 0,
            SemanticTokenKind::Type => 1,
            SemanticTokenKind::Enum => 2,
            SemanticTokenKind::EnumMember => 3,
            SemanticTokenKind::Struct => 4,
            SemanticTokenKind::Class => 5,
            SemanticTokenKind::Interface => 6,
            SemanticTokenKind::Parameter => 7,
            SemanticTokenKind::TypeParameter => 8,
            SemanticTokenKind::Property => 9,
            SemanticTokenKind::Variable => 10,
            SemanticTokenKind::Function => 11,
            SemanticTokenKind::Method => 12,
            SemanticTokenKind::Macro => 13,
            SemanticTokenKind::Keyword => 14,
            SemanticTokenKind::Comment => 15,
            SemanticTokenKind::String => 16,
            SemanticTokenKind::Number => 17,
            SemanticTokenKind::Operator => 18,
            SemanticTokenKind::Attribute => 19,
            SemanticTokenKind::Specifier => 20,
        }
    }

    /// The kind at place `id` of the legend.
    pub fn from_lsp_type_id(id: u32) -> (kind: Option<SemanticTokenKind>)
        ensures
            kind == Self::of_type_id(id),
    {
        match id {
            0 => Some(SemanticTokenKind::Namespace),
            1 => Some(SemanticTokenKind::Type),
            2 => Some(SemanticTokenKind::Enum),
            3 => Some(SemanticTokenKind::EnumMember),
            4 => Some(SemanticTokenKind::Struct),
            5 => Some(SemanticTokenKind::Class),
            6 => Some(SemanticTokenKind::Interface),
            7 => Some(SemanticTokenKind::Parameter),
            8 => Some(SemanticTokenKind::TypeParameter),
            9 => Some(SemanticTokenKind::Property),
            10 => Some(SemanticTokenKind::Variable),
            11 => Some(SemanticTokenKind::Function),
            12 => Some(SemanticTokenKind::Method),
            13 => Some(SemanticTokenKind::Macro),
            14 => Some(SemanticTokenKind::Keyword),
            15 => Some(SemanticTokenKind::Comment),
            16 => Some(SemanticTokenKind::String),
            17 => Some(SemanticTokenKind::Number),
            18 => Some(SemanticTokenKind::Operator),
            19 => Some(SemanticTokenKind::Attribute),
            20 => Some(SemanticTokenKind::Specifier),
            _ => None,
        }
    }

    /// The name by which the protocol knows the kind.
    pub fn to_lsp_type_def(self) -> (name: &'static str)
        ensures
            name@ == self.legend_name(),
    {
        match self {
            SemanticTokenKind::Namespace => "namespace",
            SemanticTokenKind::Type => "type",
            SemanticTokenKind::Enum => "enum",
            SemanticTokenKind::EnumMember => "enumMember",
            SemanticTokenKind::Struct => "struct",
            SemanticTokenKind::Class => "class",
            SemanticTokenKind::Interface => "interface",
            SemanticTokenKind::Parameter => "parameter",
            SemanticTokenKind::TypeParameter => "typeParameter",
            SemanticTokenKind::Property => "property",
            SemanticTokenKind::Variable => "variable",
            SemanticTokenKind::Function => "function",
            SemanticTokenKind::Method => "method",
            SemanticTokenKind::Macro => "macro",
            SemanticTokenKind::Keyword => "keyword",
            SemanticTokenKind::Comment => "comment",
            SemanticTokenKind::String => "string",
            SemanticTokenKind::Number => "number",
            SemanticTokenKind::Operator => "operator",
            SemanticTokenKind::Attribute => "attribute",
            SemanticTokenKind::Specifier => "specifier",
        }
    }
}

/// The names that the numbers of an encoded token stream stand for.
#[derive(Debug)]
pub struct SemanticTokensLegend {
    pub token_types: Vec<String>,
    pub token_modifiers: Vec<String>,
}

/// What the server tells its client of its semantic tokens.
#[derive(Debug)]
pub struct SemanticTokensOptions {
    pub work_done_progress: bool,
    pub legend: SemanticTokensLegend,
    /// Whether tokens of a range can be asked for.
    pub range: bool,
    /// Whether tokens of a whole document can be asked for.
    pub full: bool,
}

/// What the server tells its client of its semantic tokens: tokens of whole
/// documents only, no modifiers, and a legend that holds the name of each
/// kind at the kind's place.
pub fn capabilities_semantic_tokens() -> (options: SemanticTokensOptions)
    ensures
        !options.work_done_progress,
        !options.range,
        options.full,
        options.legend.token_modifiers@.len() == 0,
        options.legend.token_types@.len() == TOKEN_KIND_COUNT,
        forall|kind: SemanticTokenKind| #[trigger]
            options.legend.token_types@[kind.type_id() as int]@ == kind.legend_name(),
{
    let mut token_types: Vec<String> = Vec::new();
    let mut id: u32 = 0;
    while id < TOKEN_KIND_COUNT
        invariant
            id <= TOKEN_KIND_COUNT,
            token_types@.len() == id,
            forall|kind: SemanticTokenKind|
                kind.type_id() < id ==> #[trigger] token_types@[kind.type_id() as int]@
                    == kind.legend_name(),
        decreases TOKEN_KIND_COUNT - id,
    {
        match SemanticTokenKind::from_lsp_type_id(id) {
            Some(kind) => {
                token_types.push(kind.to_lsp_type_def().to_owned());
            },
            None => {
                proof {
                    SemanticTokenKind::lemma_of_type_id_round_trip(id);
                }
            },
        }
        id += 1;
    }
    SemanticTokensOptions {
        work_done_progress: false,
        legend: SemanticTokensLegend { token_types, token_modifiers: Vec::new() },
        range: false,
        full: true,
    }
}

/// One token as the analysis engine reports it.
#[derive(Debug, Clone, Copy)]
pub struct SemanticTokenEntry {
    pub token_kind: SemanticTokenKind,
    pub span: SSourceSpan,
}

/// What the analysis engine reports of one document's tokens.
#[derive(Debug)]
pub struct SemanticTokensAccumulator {
    pub token_entries: Vec<SemanticTokenEntry>,
}

/// Takes one token from the analysis engine.
#[allow(non_snake_case)]
pub fn RS_AddSemanticToken(acc: &mut SemanticTokensAccumulator, token_entry: SemanticTokenEntry)
    ensures
        final(acc).token_entries@ == old(acc).token_entries@.push(token_entry),
{
    acc.token_entries.push(token_entry);
}

/// One token of an encoded stream: its place relative to the token before
/// it, its length, and the place of its kind in the legend.
#[derive(Debug, Clone, Copy, PartialEq, Eq, Structural)]
pub struct SemanticToken {
    /// The line of the token, counted from the line of the token before it.
    pub delta_line: u32,
    /// The column of the token, counted from the column of the token before
    /// it where both lie on one line.
    pub delta_start: u32,
    pub length: u32,
    pub token_type: u32,
    pub token_modifiers_bitset: u32,
}

/// Whether `a` starts before `b`, or where `b` starts.
pub open spec fn starts_no_later(a: SemanticTokenEntry, b: SemanticTokenEntry) -> bool {
    a.span.begin_row < b.span.begin_row || (a.span.begin_row == b.span.begin_row
        && a.span.begin_col <= b.span.begin_col)
}

/// Whether the entries stand in the order of their starts.
pub open spec fn sorted_by_start(entries: Seq<SemanticTokenEntry>) -> bool {
    forall|i: int, j: int|
        0 <= i < j < entries.len() ==> starts_no_later(#[trigger] entries[i], #[trigger] entries[j])
}

/// The length in bytes of the text that `span` covers: none where an end of
/// the span has no byte offset, or where the span ends before it starts.
pub open spec fn span_length(breaks: Seq<int>, span: SSourceSpan) -> Option<int> {
    match (
        offset_of(breaks, span.begin_row as int, span.begin_col as int),
        offset_of(breaks, span.end_row as int, span.end_col as int),
    ) {
        (Some(start), Some(end)) => if start <= end {
            Some(end - start)
        } else {
            None
        },
        _ => None,
    }
}

/// The token that stands for `entry` behind a token that starts at
/// (`last_line`, `last_col`).
pub open spec fn token_after(
    entry: SemanticTokenEntry,
    length: int,
    last_line: int,
    last_col: int,
) -> SemanticToken {
    SemanticToken {
        delta_line: (entry.span.begin_row - last_line) as u32,
        delta_start: if entry.span.begin_row == last_line {
            (entry.span.begin_col - last_col) as u32
        } else {
            entry.span.begin_col
        },
        length: length as u32,
        token_type: entry.token_kind.type_id(),
        token_modifiers_bitset: 0,
    }
}

/// The encoded stream of `entries` behind a token that starts at
/// (`last_line`, `last_col`). An entry whose span has no length is left out,
/// and the entries around it are encoded as if it were not there.
pub open spec fn encode_from(
    breaks: Seq<int>,
    entries: Seq<SemanticTokenEntry>,
    last_line: int,
    last_col: int,
) -> Seq<SemanticToken>
    decreases entries.len(),
{
    if entries.len() == 0 {
        Seq::empty()
    } else {
        let entry = entries.first();
        match span_length(breaks, entry.span) {
            Some(length) => seq![token_after(entry, length, last_line, last_col)] + encode_from(
                breaks,
                entries.drop_first(),
                entry.span.begin_row as int,
                entry.span.begin_col as int,
            ),
            None => encode_from(breaks, entries.drop_first(), last_line, last_col),
        }
    }
}

/// The encoded stream of `entries`, the first token counted from the start
/// of the document.
pub open spec fn encode(breaks: Seq<int>, entries: Seq<SemanticTokenEntry>) -> Seq<SemanticToken> {
    encode_from(breaks, entries, 0, 0)
}

/// Where each token of `tokens` starts, for a stream that follows a token
/// that starts at (`last_line`, `last_col`): a token on the line of the one
/// before it counts its column from that token's column, any other token
/// from the start of its line.
pub open spec fn token_starts(tokens: Seq<SemanticToken>, last_line: int, last_col: int) -> Seq<
    (int, int),
>
    decreases tokens.len(),
{
    if tokens.len() == 0 {
        Seq::empty()
    } else {
        let token = tokens.first();
        let line = last_line + token.delta_line;
        let col = if token.delta_line == 0 {
            last_col + token.delta_start
        } else {
            token.delta_start as int
        };
        seq![(line, col)] + token_starts(tokens.drop_first(), line, col)
    }
}

/// Where the entries of `entries` that have a length start, in their order.
pub open spec fn encoded_starts(breaks: Seq<int>, entries: Seq<SemanticTokenEntry>) -> Seq<
    (int, int),
>
    decreases entries.len(),
{
    if entries.len() == 0 {
        Seq::empty()
    } else {
        let entry = entries.first();
        let rest = encoded_starts(breaks, entries.drop_first());
        if span_length(breaks, entry.span) is Some {
            seq![(entry.span.begin_row as int, entry.span.begin_col as int)] + rest
        } else {
            rest
        }
    }
}

/// Reading an encoded stream back gives the start of every entry that was
/// encoded: the differences of the stream add up to the rows and columns
/// that the analysis engine reported.
pub proof fn lemma_stream_gives_starts(
    breaks: Seq<int>,
    entries: Seq<SemanticTokenEntry>,
    last_line: int,
    last_col: int,
)
    requires
        sorted_by_start(entries),
        0 <= last_line,
        0 <= last_col,
        forall|i: int|
            0 <= i < entries.len() ==> last_line < (#[trigger] entries[i]).span.begin_row || (
            last_line == entries[i].span.begin_row && last_col <= entries[i].span.begin_col),
    ensures
        token_starts(encode_from(breaks, entries, last_line, last_col), last_line, last_col)
            == encoded_starts(breaks, entries),
    decreases entries.len(),
{
    if entries.len() > 0 {
        let entry = entries.first();
        let rest = entries.drop_first();
        assert(entries[0] == entry);
        assert forall|i: int, j: int| 0 <= i < j < rest.len() implies starts_no_later(
            #[trigger] rest[i],
            #[trigger] rest[j],
        ) by {
            assert(rest[i] == entries[i + 1]);
            assert(rest[j] == entries[j + 1]);
        }
        match span_length(breaks, entry.span) {
            Some(length) => {
                let row = entry.span.begin_row as int;
                let col = entry.span.begin_col as int;
                assert forall|i: int| 0 <= i < rest.len() implies row < (
                #[trigger] rest[i]).span.begin_row || (row == rest[i].span.begin_row && col
                    <= rest[i].span.begin_col) by {
                    assert(rest[i] == entries[i + 1]);
                    assert(starts_no_later(entries[0], entries[i + 1]));
                }
                lemma_stream_gives_starts(breaks, rest, row, col);
                let token = token_after(entry, length, last_line, last_col);
                let tail = encode_from(breaks, rest, row, col);
                let stream = seq![token] + tail;
                assert(stream.first() == token);
                assert(stream.drop_first() == tail);
            },
            None => {
                assert forall|i: int| 0 <= i < rest.len() implies last_line < (
                #[trigger] rest[i]).span.begin_row || (last_line == rest[i].span.begin_row
                    && last_col <= rest[i].span.begin_col) by {
                    assert(rest[i] == entries[i + 1]);
                }
                lemma_stream_gives_starts(breaks, rest, last_line, last_col);
            },
        }
    }
}

/// Calls `sort_unstable_by_key` of the slice, with the row and the column at
/// which an entry starts as its key. Trusted: the entries are the same, and
/// stand in the order of their keys afterwards; which of two entries with one
/// key comes first is left open.
#[verifier::external_body]
pub(crate) fn sort_by_start(entries: &mut Vec<SemanticTokenEntry>)
    ensures
        final(entries)@.to_multiset() == old(entries)@.to_multiset(),
        sorted_by_start(final(entries)@),
{
    entries.sort_unstable_by_key(|entry| (entry.span.begin_row, entry.span.begin_col));
}

/// Encodes entries that stand in the order of their starts.
pub fn encode_sorted(span_source: &SpanSource, entries: &Vec<SemanticTokenEntry>) -> (tokens: Vec<
    SemanticToken,
>)
    requires
        sorted_by_start(entries@),
    ensures
        tokens@ == encode(span_source@, entries@),
{
    let mut tokens: Vec<SemanticToken> = Vec::new();
    let mut last_line: u32 = 0;
    let mut last_col: u32 = 0;
    let mut i: usize = 0;
    proof {
        use_type_invariant(span_source);
        span_source.lemma_increasing();
        assert(entries@.skip(0) == entries@);
    }
    while i < entries.len()
        invariant
            i <= entries.len(),
            sorted_by_start(entries@),
            strictly_increasing(span_source@),
            forall|j: int|
                i <= j < entries.len() ==> last_line < (#[trigger] entries@[j]).span.begin_row || (
                last_line == entries@[j].span.begin_row && last_col
                    <= entries@[j].span.begin_col),
            tokens@ + encode_from(span_source@, entries@.skip(i as int), last_line as int, last_col as int)
                == encode(span_source@, entries@),
        decreases entries.len() - i,
    {
        let entry = entries[i];
        let ghost rest = entries@.skip(i as int);
        proof {
            assert(rest.first() == entry);
            assert(rest.drop_first() == entries@.skip(i + 1));
            assert(span_length(span_source@, entry.span) is None ==> encode_from(
                span_source@,
                rest,
                last_line as int,
                last_col as int,
            ) == encode_from(
                span_source@,
                entries@.skip(i + 1),
                last_line as int,
                last_col as int,
            ));
        }
        match span_source.span_to_byte_offsets(&entry.span) {
            Some((start, end)) => {
                if start <= end {
                    let line = entry.span.begin_row;
                    let col = entry.span.begin_col;
                    let delta_line = line - last_line;
                    let delta_start = if delta_line == 0 {
                        col - last_col
                    } else {
                        col
                    };
                    let token = SemanticToken {
                        delta_line,
                        delta_start,
                        length: end - start,
                        token_type: entry.token_kind.to_lsp_type_id(),
                        token_modifiers_bitset: 0,
                    };
                    proof {
                        assert(span_length(span_source@, entry.span) == Some(end - start));
                        assert(token == token_after(
                            entry,
                            end - start,
                            last_line as int,
                            last_col as int,
                        ));
                        let tail = encode_from(
                            span_source@,
                            entries@.skip(i + 1),
                            line as int,
                            col as int,
                        );
                        assert(tokens@.push(token) + tail == tokens@ + (seq![token] + tail));
                    }
                    tokens.push(token);
                    last_line = line;
                    last_col = col;
                }
            },
            None => {},
        }
        i += 1;
    }
    tokens
}

/// Whether `tokens` is an encoded stream of `entries`: the stream of the
/// entries in an order of their starts.
pub open spec fn encodes(
    tokens: Seq<SemanticToken>,
    breaks: Seq<int>,
    entries: Seq<SemanticTokenEntry>,
) -> bool {
    exists|sorted: Seq<SemanticTokenEntry>|
        sorted.to_multiset() == entries.to_multiset() && sorted_by_start(sorted) && tokens
            == encode(breaks, sorted)
}

/// The encoded tokens of a document: the entries that the analysis engine
/// reported, put in the order of their starts and then encoded.
pub fn encode_entries(file_state: &FileState, acc: SemanticTokensAccumulator) -> (tokens: Vec<
    SemanticToken,
>)
    ensures
        encodes(tokens@, file_state.span_source@, acc.token_entries@),
{
    let mut entries = acc.token_entries;
    sort_by_start(&mut entries);
    encode_sorted(&file_state.span_source, &entries)
}

/// The first package whose directory is a prefix of `path`.
pub open spec fn first_owning_package(packages: Seq<SourcePackage>, path: Seq<char>) -> Option<
    int,
> {
    if owning_packages(packages, path).len() > 0 {
        Some(owning_packages(packages, path)[0])
    } else {
        None
    }
}

/// The package that answers for the file at `path`: of the containers that
/// have a package whose directory is a prefix of the path, the last; of its
/// packages, the first such.
pub open spec fn owner_of(containers: Seq<ProjectContainer>, path: Seq<char>) -> Option<(int, int)>
    decreases containers.len(),
{
    if containers.len() == 0 {
        None
    } else {
        match first_owning_package(containers.last().packages@, path) {
            Some(package) => Some((containers.len() - 1, package)),
            None => owner_of(containers.drop_last(), path),
        }
    }
}

/// The first index of `owning_packages` is the least index of a package
/// whose directory is a prefix of `path`.
pub proof fn lemma_first_owning_package(packages: Seq<SourcePackage>, path: Seq<char>, first: int)
    requires
        0 <= first < packages.len(),
        path_has_prefix(path, packages[first].dir_path@),
        forall|p: int| 0 <= p < first ==> !path_has_prefix(path, (#[trigger] packages[p]).dir_path@),
    ensures
        first_owning_package(packages, path) == Some(first),
    decreases packages.len(),
{
    let front = packages.drop_last();
    if first == packages.len() - 1 {
        lemma_owning_packages(front, path);
        assert forall|p: int| 0 <= p < front.len() implies !path_has_prefix(
            path,
            (#[trigger] front[p]).dir_path@,
        ) by {
            assert(front[p] == packages[p]);
        }
    } else {
        assert(front[first] == packages[first]);
        assert forall|p: int| 0 <= p < first implies !path_has_prefix(
            path,
            (#[trigger] front[p]).dir_path@,
        ) by {
            assert(front[p] == packages[p]);
        }
        lemma_first_owning_package(front, path, first);
    }
}

/// What is to be asked of the analysis engine to answer a token request.
#[derive(Debug, Clone, Copy, PartialEq, Eq, Structural)]
pub enum TokenQuery {
    /// Nothing: the answer is the empty list.
    Empty,
    /// The tokens of the file, as this package of this container sees it.
    Ask { container: usize, package: usize },
}

/// The first package whose directory is a prefix of `path`.
pub fn find_owning_package(packages: &Vec<SourcePackage>, path: &str) -> (package: Option<usize>)
    ensures
        match package {
            Some(p) => first_owning_package(packages@, path@) == Some(p as int) && p
                < packages@.len(),
            None => first_owning_package(packages@, path@) is None,
        },
{
    let mut p: usize = 0;
    while p < packages.len()
        invariant
            p <= packages@.len(),
            forall|q: int|
                0 <= q < p ==> !path_has_prefix(path@, (#[trigger] packages@[q]).dir_path@),
        decreases packages@.len() - p,
    {
        if path_starts_with(path, packages[p].dir_path.as_str()) {
            proof {
                lemma_first_owning_package(packages@, path@, p as int);
            }
            return Some(p);
        }
        p += 1;
    }
    proof {
        lemma_owning_packages(packages@, path@);
    }
    None
}

impl LanguageServer {
    /// The package that answers for the file at `path`.
    pub fn find_owner(&self, path: &str) -> (owner: Option<(usize, usize)>)
        ensures
            match owner {
                Some((container, package)) => owner_of(self.project_containers@, path@) == Some(
                    (container as int, package as int),
                ) && container < self.project_containers@.len() && package
                    < self.project_containers@[container as int].packages@.len(),
                None => owner_of(self.project_containers@, path@) is None,
            },
    {
        let ghost containers = self.project_containers@;
        let mut c: usize = self.project_containers.len();
        assert(containers.take(c as int) == containers);
        while c > 0
            invariant
                c <= containers.len(),
                containers == self.project_containers@,
                owner_of(containers, path@) == owner_of(containers.take(c as int), path@),
            decreases c,
        {
            proof {
                assert(containers.take(c as int).drop_last() == containers.take(c - 1));
                assert(containers.take(c as int).last() == containers[c - 1]);
            }
            c -= 1;
            match find_owning_package(&self.project_containers[c].packages, path) {
                Some(package) => {
                    return Some((c, package));
                },
                None => {},
            }
        }
        None
    }

    /// What is to be asked of the analysis engine for the tokens of the
    /// document `uri`, whose file lies at `path`: nothing where the document
    /// has no file, where no package answers for the file, and where the
    /// container of the package that does has no state of the document.
    pub open spec fn token_query(&self, uri: Seq<char>, path: Option<Seq<char>>) -> TokenQuery {
        match path {
            None => TokenQuery::Empty,
            Some(path) => match owner_of(self.project_containers@, path) {
                None => TokenQuery::Empty,
                Some((container, package)) => if self.project_containers@[container].file_cache.contains_key(
                uri) {
                    TokenQuery::Ask { container: container as usize, package: package as usize }
                } else {
                    TokenQuery::Empty
                },
            },
        }
    }

    /// Decides how to answer a request for the tokens of a document whose
    /// file lies at `path`; `path` is none for a document that has no file
    /// on disk. The answer is the empty list where the document has no file,
    /// where no package answers for the file, and where the container of the
    /// package that does has no state of the document; else the analysis
    /// engine is to be asked.
    pub fn handle_req_semantic_tokens_full(
        &self,
        params: &SemanticTokensParams,
        path: Option<&str>,
    ) -> (query: TokenQuery)
        ensures
            query == self.token_query(
                params.text_document.uri@,
                match path {
                    Some(path) => Some(path@),
                    None => None,
                },
            ),
            query matches TokenQuery::Ask { container, package } ==> container
                < self.project_containers@.len() && package
                < self.project_containers@[container as int].packages@.len(),
    {
        let path = match path {
            Some(path) => path,
            None => {
                return TokenQuery::Empty;
            },
        };
        match self.find_owner(path) {
            Some((container, package)) => {
                let cache = &self.project_containers[container].file_cache;
                match cache.find(&params.text_document.uri) {
                    Some(_) => TokenQuery::Ask { container, package },
                    None => TokenQuery::Empty,
                }
            },
            None => TokenQuery::Empty,
        }
    }

    /// The encoded tokens of the document `uri`, of which the analysis engine
    /// reported `acc` for the container at index `container`. They are
    /// encoded against the line breaks that the container has of the
    /// document; where it has none, the list is empty.
    pub fn get_semantic_tokens(
        &self,
        container: usize,
        uri: &String,
        acc: SemanticTokensAccumulator,
    ) -> (tokens: Vec<SemanticToken>)
        requires
            container < self.project_containers@.len(),
        ensures
            if self.project_containers@[container as int].file_cache.contains_key(uri@) {
                encodes(
                    tokens@,
                    self.project_containers@[container as int].file_cache.value_of(
                        uri@,
                    ).span_source@,
                    acc.token_entries@,
                )
            } else {
                tokens@.len() == 0
            },
    {
        match self.project_containers[container].file_cache.get(uri) {
            Some(file_state) => encode_entries(file_state, acc),
            None => Vec::new(),
        }
    }
}

} // verus!
