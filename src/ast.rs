use crate::classify::{extension, extension_of};
use crate::extract::{is_fresh_chunk, new_chunk, store_chunk, ExtractError};
use crate::store::{chunk_growth, holds_linked, store_wf, upsert_chunk_spec, ChunkStore};
use crate::text::{decimal, eq_str, push_decimal, push_str, string_of};
use crate::types::{Chunk, ChunkType};
use tree_sitter::{Language, Node, Parser, Tree};
use vstd::prelude::*;

verus! {

/// A tree-sitter grammar, carried through opaquely.
#[verifier::external_type_specification]
#[verifier::external_body]
pub struct ExLanguage(Language);

/// A tree-sitter parse tree, carried through opaquely.
#[verifier::external_type_specification]
#[verifier::external_body]
pub struct ExTree(Tree);

/// A node of a tree-sitter parse tree, read only through the accessors
/// below.
#[verifier::external_type_specification]
#[verifier::external_body]
pub struct ExNode<'a>(Node<'a>);

/// The deepest level of the syntax tree that is serialized; children of
/// nodes at this depth are left out.
pub const MAX_AST_DEPTH: usize = 50;

/// The grammars the syntax-tree extractor knows.
#[derive(Debug, Clone, Copy, PartialEq, Eq, Structural)]
pub enum Grammar {
    Rust,
    JavaScript,
    TypeScript,
    Python,
}

/// The canonical name of a grammar.
pub open spec fn grammar_name(g: Grammar) -> Seq<char> {
    match g {
        Grammar::Rust => "rust"@,
        Grammar::JavaScript => "javascript"@,
        Grammar::TypeScript => "typescript"@,
        Grammar::Python => "python"@,
    }
}

impl Grammar {
    /// The canonical name of the grammar.
    pub fn name(&self) -> (r: String)
        ensures
            r@ == grammar_name(*self),
    {
        match self {
            Grammar::Rust => String::from_str("rust"),
            Grammar::JavaScript => String::from_str("javascript"),
            Grammar::TypeScript => String::from_str("typescript"),
            Grammar::Python => String::from_str("python"),
        }
    }
}

/// The grammar for a file extension.
pub open spec fn grammar_for(ext: Seq<char>) -> Option<Grammar> {
    if ext == "rs"@ {
        Some(Grammar::Rust)
    } else if ext == "js"@ || ext == "jsx"@ || ext == "mjs"@ || ext == "cjs"@ {
        Some(Grammar::JavaScript)
    } else if ext == "ts"@ || ext == "tsx"@ || ext == "mts"@ || ext == "cts"@ {
        Some(Grammar::TypeScript)
    } else if ext == "py"@ {
        Some(Grammar::Python)
    } else {
        None
    }
}

/// The grammar of a path, by its extension.
pub open spec fn grammar_of_path(path: Seq<char>) -> Option<Grammar> {
    match extension(path) {
        Some(e) => grammar_for(e),
        None => None,
    }
}

/// Selects the grammar of a file by its extension.
pub fn detect_language(file_path: &str) -> (r: Result<Grammar, ExtractError>)
    ensures
        match grammar_of_path(file_path@) {
            Some(g) => r == Ok::<Grammar, ExtractError>(g),
            None => r == Err::<Grammar, ExtractError>(ExtractError::UnsupportedLanguage),
        },
{
    let p = crate::text::chars_of(file_path);
    let e = match extension_of(&p) {
        Some(e) => e,
        None => {
            return Err(ExtractError::UnsupportedLanguage);
        },
    };
    if eq_str(&e, "rs") {
        Ok(Grammar::Rust)
    } else if eq_str(&e, "js") || eq_str(&e, "jsx") || eq_str(&e, "mjs") || eq_str(&e, "cjs") {
        Ok(Grammar::JavaScript)
    } else if eq_str(&e, "ts") || eq_str(&e, "tsx") || eq_str(&e, "mts") || eq_str(&e, "cts") {
        Ok(Grammar::TypeScript)
    } else if eq_str(&e, "py") {
        Ok(Grammar::Python)
    } else {
        Err(ExtractError::UnsupportedLanguage)
    }
}

/// Parses `source` with the grammar of `g`.
///
/// Relies on `tree_sitter::Parser::new`, `Parser::set_language` with the
/// grammar crates' `language` functions (TypeScript proper for the
/// TypeScript family), and `Parser::parse` without an earlier tree. All four
/// grammars carry ABI version 14, inside the range `set_language` accepts;
/// `parse` gives up only without a language, after a timeout or on a
/// cancellation flag, and a fresh parser has neither of the last two.
#[verifier::external_body]
fn parse_tree(g: Grammar, source: &str) -> (r: Option<Tree>)
    ensures
        r is Some,
{
    let mut parser = Parser::new();
    let language = match g {
        Grammar::Rust => tree_sitter_rust::language(),
        Grammar::JavaScript => tree_sitter_javascript::language(),
        Grammar::TypeScript => tree_sitter_typescript::language_typescript(),
        Grammar::Python => tree_sitter_python::language(),
    };
    parser.set_language(&language).ok()?;
    parser.parse(source, None)
}

/// Relies on `tree_sitter::Tree::root_node`.
#[verifier::external_body]
fn root_of<'a>(tree: &'a Tree) -> Node<'a> {
    tree.root_node()
}

/// Relies on `tree_sitter::Node::kind`.
#[verifier::external_body]
fn node_kind(node: &Node) -> String {
    node.kind().to_string()
}

/// Relies on `tree_sitter::Node::start_position`.
#[verifier::external_body]
fn node_start_row(node: &Node) -> usize {
    node.start_position().row
}

/// Relies on `tree_sitter::Node::end_position`.
#[verifier::external_body]
fn node_end_row(node: &Node) -> usize {
    node.end_position().row
}

/// Relies on `tree_sitter::Node::byte_range`.
#[verifier::external_body]
fn node_byte_len(node: &Node) -> usize {
    node.byte_range().len()
}

/// Relies on `tree_sitter::Node::child_count`.
#[verifier::external_body]
fn node_child_count(node: &Node) -> usize {
    node.child_count()
}

/// Relies on `tree_sitter::Node::child`.
#[verifier::external_body]
fn node_child<'a>(node: &Node<'a>, i: usize) -> Option<Node<'a>> {
    node.child(i)
}

/// Relies on `tree_sitter::Node::has_error`.
#[verifier::external_body]
fn node_has_error(node: &Node) -> bool {
    node.has_error()
}

/// A syntax-tree node as the serializer reads it. `children` holds the
/// node's children down to the depth cap; `child_count` is the parser's own
/// count. At the cap, `below_count` is the number of descendants left out
/// of the serialization (saturating) and `below_depth` the deepest level
/// among them (0 when there are none); above it both are 0.
#[derive(Debug)]
pub struct SyntaxNode {
    pub kind: String,
    pub start_row: usize,
    pub end_row: usize,
    pub byte_len: usize,
    pub child_count: usize,
    pub children: Vec<SyntaxNode>,
    pub below_count: usize,
    pub below_depth: usize,
}

/// Counts the descendants of a parser node (saturating) and finds the
/// deepest level among them (0 when there are none).
fn descendant_stats(node: &Node, depth: usize) -> (r: (usize, usize))
    decreases usize::MAX - depth,
{
    let count = node_child_count(node);
    let mut total: usize = 0;
    let mut deepest: usize = 0;
    if depth < usize::MAX {
        let mut i: usize = 0;
        while i < count
            invariant
                depth < usize::MAX,
            decreases count - i,
        {
            match node_child(node, i) {
                Some(child) => {
                    let (c, d) = descendant_stats(&child, depth + 1);
                    let below = if c == usize::MAX {
                        usize::MAX
                    } else {
                        c + 1
                    };
                    total = if total > usize::MAX - below {
                        usize::MAX
                    } else {
                        total + below
                    };
                    let level = if d > depth + 1 {
                        d
                    } else {
                        depth + 1
                    };
                    if level > deepest {
                        deepest = level;
                    }
                },
                None => {},
            }
            i = i + 1;
        }
    }
    (total, deepest)
}

/// Reads a parser node and its descendants down to the depth cap.
fn lower_node(node: &Node, depth: usize) -> (r: SyntaxNode)
    requires
        depth <= MAX_AST_DEPTH,
    ensures
        depth == MAX_AST_DEPTH ==> r.children@.len() == 0,
    decreases MAX_AST_DEPTH - depth,
{
    let count = node_child_count(node);
    let mut children: Vec<SyntaxNode> = Vec::new();
    let (below_count, below_depth) = if depth == MAX_AST_DEPTH {
        descendant_stats(node, depth)
    } else {
        (0, 0)
    };
    if depth < MAX_AST_DEPTH {
        let mut i: usize = 0;
        while i < count
            invariant
                depth < MAX_AST_DEPTH,
            decreases count - i,
        {
            match node_child(node, i) {
                Some(child) => {
                    children.push(lower_node(&child, depth + 1));
                },
                None => {},
            }
            i = i + 1;
        }
    }
    SyntaxNode {
        kind: node_kind(node),
        start_row: node_start_row(node),
        end_row: node_end_row(node),
        byte_len: node_byte_len(node),
        child_count: count,
        children,
        below_count,
        below_depth,
    }
}

/// `n` copies of two spaces.
pub open spec fn indent(n: nat) -> Seq<char>
    decreases n,
{
    if n == 0 {
        Seq::empty()
    } else {
        indent((n - 1) as nat) + "  "@
    }
}

/// The line of one node: `<indent><kind>:<start>-<end>`, with ` [<kind>]`
/// for a leaf shorter than 100 bytes.
pub open spec fn node_line(n: SyntaxNode, depth: nat) -> Seq<char> {
    indent(depth) + n.kind@ + ":"@ + decimal(n.start_row as nat) + "-"@ + decimal(n.end_row as nat)
        + if n.child_count == 0 && n.byte_len < 100 {
        " ["@ + n.kind@ + "]"@
    } else {
        Seq::empty()
    } + "\n"@
}

/// The serialization of a node at `depth` and of its descendants down to
/// the depth cap.
pub open spec fn ast_text(n: SyntaxNode, depth: nat) -> Seq<char>
    decreases MAX_AST_DEPTH - depth, 1nat, 0nat,
{
    if depth < MAX_AST_DEPTH {
        node_line(n, depth) + children_text(n.children@, depth + 1)
    } else {
        node_line(n, depth)
    }
}

/// The serializations of sibling nodes at `depth`, in order.
pub open spec fn children_text(cs: Seq<SyntaxNode>, depth: nat) -> Seq<char>
    decreases MAX_AST_DEPTH + 1 - depth, 0nat, cs.len(),
{
    if cs.len() == 0 || depth > MAX_AST_DEPTH {
        Seq::empty()
    } else {
        children_text(cs.drop_last(), depth) + ast_text(cs.last(), depth)
    }
}

/// The number of nodes in the tree, those below the depth cap included
/// (saturating at `usize::MAX`).
pub open spec fn ast_node_count(n: SyntaxNode, depth: nat) -> nat
    decreases MAX_AST_DEPTH - depth, 1nat, 0nat,
{
    if depth < MAX_AST_DEPTH {
        sat_add(1, children_count(n.children@, depth + 1))
    } else {
        sat_add(1, n.below_count as nat)
    }
}

/// The number of nodes among siblings and their descendants (saturating).
pub open spec fn children_count(cs: Seq<SyntaxNode>, depth: nat) -> nat
    decreases MAX_AST_DEPTH + 1 - depth, 0nat, cs.len(),
{
    if cs.len() == 0 || depth > MAX_AST_DEPTH {
        0
    } else {
        sat_add(children_count(cs.drop_last(), depth), ast_node_count(cs.last(), depth))
    }
}

/// Addition that stops at `usize::MAX`.
pub open spec fn sat_add(a: nat, b: nat) -> nat {
    if a + b > usize::MAX {
        usize::MAX as nat
    } else {
        (a + b) as nat
    }
}

/// The deepest level of the tree, below the depth cap included.
pub open spec fn ast_max_depth(n: SyntaxNode, depth: nat) -> nat
    decreases MAX_AST_DEPTH - depth, 1nat, 0nat,
{
    if depth < MAX_AST_DEPTH {
        let c = children_max_depth(n.children@, depth + 1);
        if c > depth {
            c
        } else {
            depth
        }
    } else if n.below_depth > depth {
        n.below_depth as nat
    } else {
        depth
    }
}

/// The deepest level reached among siblings (0 for none).
pub open spec fn children_max_depth(cs: Seq<SyntaxNode>, depth: nat) -> nat
    decreases MAX_AST_DEPTH + 1 - depth, 0nat, cs.len(),
{
    if cs.len() == 0 || depth > MAX_AST_DEPTH {
        0
    } else {
        let a = children_max_depth(cs.drop_last(), depth);
        let b = ast_max_depth(cs.last(), depth);
        if a > b {
            a
        } else {
            b
        }
    }
}

/// The serialization of a tree and its statistics.
pub struct AstSummary {
    pub text: String,
    pub node_count: usize,
    pub max_depth: usize,
}

fn push_node_line(out: &mut Vec<char>, n: &SyntaxNode, depth: usize)
    ensures
        final(out)@ == old(out)@ + node_line(*n, depth as nat),
{
    let mut k: usize = 0;
    while k < depth
        invariant
            0 <= k <= depth,
            out@ == old(out)@ + indent(k as nat),
        decreases depth - k,
    {
        push_str(out, "  ");
        k = k + 1;
        assert(out@ =~= old(out)@ + indent(k as nat));
    }
    push_str(out, n.kind.as_str());
    push_str(out, ":");
    push_decimal(out, n.start_row as u64);
    push_str(out, "-");
    push_decimal(out, n.end_row as u64);
    if n.child_count == 0 && n.byte_len < 100 {
        push_str(out, " [");
        push_str(out, n.kind.as_str());
        push_str(out, "]");
    }
    push_str(out, "\n");
    assert(out@ =~= old(out)@ + node_line(*n, depth as nat));
}

/// Appends the serialization of `n` at `depth`; returns its node count and
/// deepest level.
fn serialize_node(out: &mut Vec<char>, n: &SyntaxNode, depth: usize) -> (r: (usize, usize))
    requires
        depth <= MAX_AST_DEPTH,
    ensures
        final(out)@ == old(out)@ + ast_text(*n, depth as nat),
        r.0 == ast_node_count(*n, depth as nat),
        r.1 == ast_max_depth(*n, depth as nat),
    decreases MAX_AST_DEPTH - depth, 1usize, 0usize,
{
    push_node_line(out, n, depth);
    if depth < MAX_AST_DEPTH {
        let (c, d) = serialize_children(out, &n.children, depth + 1);
        let count: usize = if c == usize::MAX {
            usize::MAX
        } else {
            1 + c
        };
        let deepest = if d > depth {
            d
        } else {
            depth
        };
        assert(final(out)@ =~= old(out)@ + ast_text(*n, depth as nat));
        (count, deepest)
    } else {
        let count: usize = if n.below_count == usize::MAX {
            usize::MAX
        } else {
            1 + n.below_count
        };
        let deepest = if n.below_depth > depth {
            n.below_depth
        } else {
            depth
        };
        (count, deepest)
    }
}

/// Appends the serializations of sibling nodes at `depth`.
fn serialize_children(out: &mut Vec<char>, cs: &Vec<SyntaxNode>, depth: usize) -> (r: (usize, usize))
    requires
        1 <= depth <= MAX_AST_DEPTH,
    ensures
        final(out)@ == old(out)@ + children_text(cs@, depth as nat),
        r.0 == children_count(cs@, depth as nat),
        r.1 == children_max_depth(cs@, depth as nat),
    decreases MAX_AST_DEPTH + 1 - depth, 0usize, cs@.len(),
{
    let mut count: usize = 0;
    let mut deepest: usize = 0;
    let mut i: usize = 0;
    while i < cs.len()
        invariant
            1 <= depth <= MAX_AST_DEPTH,
            0 <= i <= cs@.len(),
            out@ == old(out)@ + children_text(cs@.take(i as int), depth as nat),
            count == children_count(cs@.take(i as int), depth as nat),
            deepest == children_max_depth(cs@.take(i as int), depth as nat),
        decreases cs@.len() - i,
    {
        let ghost before = out@;
        let (c, d) = serialize_node(out, &cs[i], depth);
        proof {
            let t = cs@.take(i + 1);
            assert(t.drop_last() =~= cs@.take(i as int));
            assert(t.last() == cs@[i as int]);
            assert(out@ =~= old(out)@ + children_text(t, depth as nat));
        }
        count = if c > usize::MAX - count {
            usize::MAX
        } else {
            count + c
        };
        deepest = if deepest > d {
            deepest
        } else {
            d
        };
        i = i + 1;
    }
    assert(cs@.take(i as int) =~= cs@);
    (count, deepest)
}

/// Serializes a syntax tree from its root (depth 0).
pub fn serialize_ast(root: &SyntaxNode) -> (r: AstSummary)
    ensures
        r.text@ == ast_text(*root, 0),
        r.node_count == ast_node_count(*root, 0),
        r.max_depth == ast_max_depth(*root, 0),
{
    let mut out: Vec<char> = Vec::new();
    let (node_count, max_depth) = serialize_node(&mut out, root, 0);
    assert(out@ =~= ast_text(*root, 0));
    AstSummary { text: string_of(&out), node_count, max_depth }
}

/// The syntax-tree metadata object.
pub open spec fn ast_metadata_text(language: Seq<char>, node_count: nat, max_depth: nat, has_errors: bool) -> Seq<char> {
    "{\"language\":\""@ + language + "\",\"node_count\":"@ + decimal(node_count) + ",\"max_depth\":"@
        + decimal(max_depth) + ",\"has_syntax_errors\":"@ + if has_errors {
        "true"@
    } else {
        "false"@
    } + "}"@
}

/// Renders the syntax-tree metadata.
pub fn render_ast_metadata(g: Grammar, node_count: usize, max_depth: usize, has_errors: bool) -> (r: String)
    ensures
        r@ == ast_metadata_text(grammar_name(g), node_count as nat, max_depth as nat, has_errors),
{
    let mut out: Vec<char> = Vec::new();
    let name = g.name();
    push_str(&mut out, "{\"language\":\"");
    push_str(&mut out, name.as_str());
    push_str(&mut out, "\",\"node_count\":");
    push_decimal(&mut out, node_count as u64);
    push_str(&mut out, ",\"max_depth\":");
    push_decimal(&mut out, max_depth as u64);
    push_str(&mut out, ",\"has_syntax_errors\":");
    if has_errors {
        push_str(&mut out, "true");
    } else {
        push_str(&mut out, "false");
    }
    push_str(&mut out, "}");
    assert(out@ =~= ast_metadata_text(grammar_name(g), node_count as nat, max_depth as nat, has_errors));
    string_of(&out)
}

/// A parsed source file: its tree as the serializer reads it, and whether
/// the parser reported an error anywhere in it.
pub struct ParsedSource {
    pub root: SyntaxNode,
    pub has_errors: bool,
}

/// Parses `source` with the grammar of `g`.
pub fn parse_source(g: Grammar, source: &str) -> (r: ParsedSource) {
    let tree = parse_tree(g, source).unwrap();
    let root = root_of(&tree);
    let has_errors = node_has_error(&root);
    ParsedSource { root: lower_node(&root, 0), has_errors }
}


/// `c` is the fresh `ast` chunk of the file at `path` for some parse tree
/// of it.
pub open spec fn is_ast_chunk(c: Chunk, project: Seq<char>, path: Seq<char>) -> bool {
    &&& grammar_of_path(path) is Some
    &&& exists|p: ParsedSource|
        is_fresh_chunk(
            c,
            project,
            ChunkType::Ast,
            Some(path),
            None,
            ast_text(p.root, 0),
            Some(
                ast_metadata_text(
                    grammar_name(grammar_of_path(path).unwrap()),
                    ast_node_count(p.root, 0),
                    ast_max_depth(p.root, 0),
                    p.has_errors,
                ),
            ),
        )
}

/// Builds the `ast` chunk of a parsed file.
pub fn ast_chunk_of(project_path: &str, file_path: &str, g: Grammar, parsed: &ParsedSource, now: i64) -> (c: Chunk)
    ensures
        is_fresh_chunk(
            c,
            project_path@,
            ChunkType::Ast,
            Some(file_path@),
            None,
            ast_text(parsed.root, 0),
            Some(
                ast_metadata_text(
                    grammar_name(g),
                    ast_node_count(parsed.root, 0),
                    ast_max_depth(parsed.root, 0),
                    parsed.has_errors,
                ),
            ),
        ),
{
    let summary = serialize_ast(&parsed.root);
    let metadata = render_ast_metadata(g, summary.node_count, summary.max_depth, parsed.has_errors);
    new_chunk(
        project_path,
        ChunkType::Ast,
        Some(String::from_str(file_path)),
        None,
        summary.text,
        Some(metadata),
        now,
    )
}

/// Emits the `ast` chunk of a parsed file: the serialization of its tree,
/// with language, node count, deepest level and error flag as metadata.
pub fn ast_chunk_from_tree(
    store: &mut ChunkStore,
    project_path: &str,
    file_path: &str,
    g: Grammar,
    parsed: &ParsedSource,
    snapshot_id: Option<i64>,
    now: i64,
) -> (r: Result<usize, ExtractError>)
    requires
        store_wf(old(store)@),
    ensures
        store_wf(final(store)@),
        chunk_growth(old(store)@, final(store)@, snapshot_id, 1),
        r is Err ==> final(store)@ == old(store)@,
        old(store).next_chunk_id < i64::MAX ==> r is Ok,
        old(store)@.chunks.len() <= final(store)@.chunks.len() <= old(store)@.chunks.len() + 1,
        exists|c: Chunk|
            is_fresh_chunk(
                c,
                project_path@,
                ChunkType::Ast,
                Some(file_path@),
                None,
                ast_text(parsed.root, 0),
                Some(
                    ast_metadata_text(
                        grammar_name(g),
                        ast_node_count(parsed.root, 0),
                        ast_max_depth(parsed.root, 0),
                        parsed.has_errors,
                    ),
                ),
            ) && final(store)@ == upsert_chunk_spec(old(store)@, c, snapshot_id, now).0 && (r is Ok ==> holds_linked(final(store)@.chunks, c.content_hash@, snapshot_id)) && match upsert_chunk_spec(
                old(store)@,
                c,
                snapshot_id,
                now,
            ).1 {
                Ok(_) => r == Ok::<usize, ExtractError>(1),
                Err(e) => r == Err::<usize, ExtractError>(ExtractError::Store(e)),
            },
{
    let summary = serialize_ast(&parsed.root);
    let metadata = render_ast_metadata(g, summary.node_count, summary.max_depth, parsed.has_errors);
    let chunk = new_chunk(
        project_path,
        ChunkType::Ast,
        Some(String::from_str(file_path)),
        None,
        summary.text,
        Some(metadata),
        now,
    );
    assert(is_fresh_chunk(
        chunk,
        project_path@,
        ChunkType::Ast,
        Some(file_path@),
        None,
        ast_text(parsed.root, 0),
        Some(
            ast_metadata_text(
                grammar_name(g),
                ast_node_count(parsed.root, 0),
                ast_max_depth(parsed.root, 0),
                parsed.has_errors,
            ),
        ),
    ));
    match store_chunk(store, &chunk, snapshot_id, now) {
        Ok(_) => Ok(1),
        Err(e) => Err(e),
    }
}

/// Emits the `ast` chunk of a source file in a known language.
pub fn generate_ast_chunks(
    store: &mut ChunkStore,
    project_path: &str,
    file_path: &str,
    content: &str,
    snapshot_id: Option<i64>,
    now: i64,
) -> (r: Result<usize, ExtractError>)
    requires
        store_wf(old(store)@),
    ensures
        store_wf(final(store)@),
        chunk_growth(old(store)@, final(store)@, snapshot_id, 1),
        r is Err ==> final(store)@ == old(store)@,
        old(store).next_chunk_id < i64::MAX && grammar_of_path(file_path@) is Some ==> r is Ok,
        old(store)@.chunks.len() <= final(store)@.chunks.len() <= old(store)@.chunks.len() + 1,
        grammar_of_path(file_path@) is None ==> r == Err::<usize, ExtractError>(
            ExtractError::UnsupportedLanguage,
        ) && final(store)@ == old(store)@,
        grammar_of_path(file_path@) is Some
            ==> exists|parsed: ParsedSource, c: Chunk|
            is_fresh_chunk(
                c,
                project_path@,
                ChunkType::Ast,
                Some(file_path@),
                None,
                ast_text(parsed.root, 0),
                Some(
                    ast_metadata_text(
                        grammar_name(grammar_of_path(file_path@).unwrap()),
                        ast_node_count(parsed.root, 0),
                        ast_max_depth(parsed.root, 0),
                        parsed.has_errors,
                    ),
                ),
            ) && final(store)@ == upsert_chunk_spec(old(store)@, c, snapshot_id, now).0 && (r is Ok ==> holds_linked(final(store)@.chunks, c.content_hash@, snapshot_id)) && match upsert_chunk_spec(
                old(store)@,
                c,
                snapshot_id,
                now,
            ).1 {
                Ok(_) => r == Ok::<usize, ExtractError>(1),
                Err(e) => r == Err::<usize, ExtractError>(ExtractError::Store(e)),
            },
{
    let g = match detect_language(file_path) {
        Ok(g) => g,
        Err(e) => {
            return Err(e);
        },
    };
    let parsed = parse_source(g, content);
    ast_chunk_from_tree(store, project_path, file_path, g, &parsed, snapshot_id, now)
}

} // verus!
