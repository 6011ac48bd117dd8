use crate::classify::{detect_language_by_extension, is_keyword, keyword, language_by_suffix};
use crate::extract::{is_fresh_chunk, new_chunk, store_chunk, ExtractError};
use crate::json::{json_array, push_json_array, texts};
use crate::order::{lemma_filter_step, ordered, sort_rows, RowOrder};
use crate::rules::{text_less, text_less_exec};
use crate::store::{chunk_growth, holds_linked, store_wf, upsert_chunk_spec, ChunkStore};
use crate::text::{decimal, push_decimal, push_str, string_of};
use crate::types::{Chunk, ChunkType};
use regex::Regex;
use vstd::prelude::*;

verus! {

/// What the `regex` crate reports for `pattern` on `text`: the first
/// capture group of each successive non-overlapping match (matches where
/// the group took no part are skipped); nothing when the pattern does not
/// compile.
pub uninterp spec fn regex_captures(pattern: Seq<char>, text: Seq<char>) -> Seq<Seq<char>>;

/// Relies on `regex::Regex::new` and `Regex::captures_iter`, reading group 1
/// of each match; an invalid pattern gives no captures.
#[verifier::external_body]
pub(crate) fn capture_group(pattern: &str, text: &str) -> (r: Vec<String>)
    ensures
        texts(r@) == regex_captures(pattern@, text@),
{
    match Regex::new(pattern) {
        Ok(re) => re.captures_iter(text).filter_map(|c| c.get(1)).map(|m| m.as_str().to_string()).collect(),
        Err(_) => Vec::new(),
    }
}

/// `use` paths in Rust.
pub const RUST_USE: &'static str = "use\\s+([a-zA-Z0-9_:]+)";

/// `import ... from '...'` in JavaScript and TypeScript.
pub const JS_IMPORT: &'static str = "import\\s+.*?from\\s+['\"]([^'\"]+)['\"]";

/// `require('...')` in JavaScript and TypeScript.
pub const JS_REQUIRE: &'static str = "require\\(['\"]([^'\"]+)['\"]\\)";

/// `import X` in Python.
pub const PY_IMPORT: &'static str = "import\\s+([a-zA-Z0-9_.]+)";

/// `from X import` in Python.
pub const PY_FROM: &'static str = "from\\s+([a-zA-Z0-9_.]+)\\s+import";

/// An identifier followed by an opening parenthesis.
pub const CALL_SITE: &'static str = "([a-zA-Z_][a-zA-Z0-9_]*)\\s*\\(";

/// Texts in code-point order.
pub struct ByText;

impl RowOrder<String> for ByText {
    open spec fn before(a: String, b: String) -> bool {
        text_less(a@, b@)
    }

    fn before_exec(a: &String, b: &String) -> (r: bool) {
        text_less_exec(a.as_str(), b.as_str())
    }

    proof fn lemma_asymmetric(a: String, b: String) {
        crate::rules::lemma_text_less_asymmetric(a@, b@);
    }

    proof fn lemma_negatively_transitive(a: String, b: String, c: String) {
        crate::rules::lemma_text_less_negatively_transitive(a@, b@, c@);
    }
}

/// The first occurrence of each text, in order.
pub open spec fn unique_texts(s: Seq<String>) -> Seq<String>
    decreases s.len(),
{
    if s.len() == 0 {
        s
    } else {
        let d = unique_texts(s.drop_last());
        if texts(d).contains(s.last()@) {
            d
        } else {
            d.push(s.last())
        }
    }
}

/// The texts of `s`, sorted, each once.
pub open spec fn sorted_unique_spec(s: Seq<String>) -> Seq<String> {
    unique_texts(ordered::<String, ByText>(s))
}

fn contains_text(v: &Vec<String>, x: &String) -> (r: bool)
    ensures
        r == texts(v@).contains(x@),
{
    let mut i: usize = 0;
    while i < v.len()
        invariant
            0 <= i <= v@.len(),
            forall|j: int| 0 <= j < i ==> v@[j]@ != x@,
        decreases v@.len() - i,
    {
        if v[i] == *x {
            assert(texts(v@)[i as int] == x@);
            return true;
        }
        i = i + 1;
    }
    assert(!texts(v@).contains(x@)) by {
        if texts(v@).contains(x@) {
            let j = choose|j: int| 0 <= j < texts(v@).len() && texts(v@)[j] == x@;
            assert(v@[j]@ == x@);
        }
    }
    false
}

/// Sorts texts and drops repeats.
pub fn sorted_unique(items: Vec<String>) -> (r: Vec<String>)
    ensures
        r@ == sorted_unique_spec(items@),
{
    let sorted = sort_rows::<String, ByText>(items);
    let mut out: Vec<String> = Vec::new();
    let n = sorted.len();
    let mut i: usize = 0;
    while i < n
        invariant
            n == sorted@.len(),
            0 <= i <= n,
            out@ == unique_texts(sorted@.take(i as int)),
        decreases n - i,
    {
        proof {
            assert(sorted@.take(i + 1).drop_last() =~= sorted@.take(i as int));
            assert(sorted@.take(i + 1).last() == sorted@[i as int]);
        }
        let item = sorted[i].clone();
        if !contains_text(&out, &item) {
            out.push(item);
        }
        i = i + 1;
    }
    assert(sorted@.take(n as int) =~= sorted@);
    out
}

fn joined(a: Vec<String>, b: Vec<String>) -> (r: Vec<String>)
    ensures
        r@ == a@ + b@,
        texts(r@) == texts(a@) + texts(b@),
{
    let mut a = a;
    let mut b = b;
    let ghost a0 = a@;
    let ghost b0 = b@;
    a.append(&mut b);
    assert(texts(a@) =~= texts(a0) + texts(b0));
    a
}

/// The raw import captures for a language.
pub open spec fn dependency_captures(content: Seq<char>, language: Seq<char>) -> Seq<Seq<char>> {
    if language == "rust"@ {
        regex_captures(RUST_USE@, content)
    } else if language == "javascript"@ || language == "typescript"@ {
        regex_captures(JS_IMPORT@, content) + regex_captures(JS_REQUIRE@, content)
    } else if language == "python"@ {
        regex_captures(PY_IMPORT@, content) + regex_captures(PY_FROM@, content)
    } else {
        Seq::empty()
    }
}

/// The imports of `content`: the sorted set of its import captures.
pub fn extract_dependencies(content: &str, language: &str) -> (r: Vec<String>)
    ensures
        exists|caps: Seq<String>|
            texts(caps) == dependency_captures(content@, language@) && r@ == sorted_unique_spec(caps),
{
    let lang = crate::text::chars_of(language);
    let mut caps: Vec<String> = Vec::new();
    if crate::text::eq_str(&lang, "rust") {
        caps = capture_group(RUST_USE, content);
    } else if crate::text::eq_str(&lang, "javascript") || crate::text::eq_str(&lang, "typescript") {
        caps = joined(capture_group(JS_IMPORT, content), capture_group(JS_REQUIRE, content));
    } else if crate::text::eq_str(&lang, "python") {
        caps = joined(capture_group(PY_IMPORT, content), capture_group(PY_FROM, content));
    } else {
        assert(texts(caps@) =~= Seq::<Seq<char>>::empty());
    }
    sorted_unique(caps)
}

/// The words of `language` that are not keywords.
pub open spec fn not_keyword(language: Seq<char>) -> spec_fn(String) -> bool {
    |w: String| !keyword(w@, language)
}

/// `r` is the import list of `content`.
pub open spec fn is_dependency_list(r: Seq<String>, content: Seq<char>, language: Seq<char>) -> bool {
    exists|caps: Seq<String>|
        texts(caps) == dependency_captures(content, language) && r == sorted_unique_spec(caps)
}

/// `r` is the call list of `content`.
pub open spec fn is_call_list(r: Seq<String>, content: Seq<char>, language: Seq<char>) -> bool {
    exists|caps: Seq<String>|
        texts(caps) == regex_captures(CALL_SITE@, content) && r == sorted_unique_spec(
            caps.filter(not_keyword(language)),
        )
}

/// The called identifiers of `content`, keywords of `language` left out,
/// sorted, each once.
pub fn extract_function_calls(content: &str, language: &str) -> (r: Vec<String>)
    ensures
        is_call_list(r@, content@, language@),
{
    let caps = capture_group(CALL_SITE, content);
    let ghost pred = not_keyword(language@);
    let mut kept: Vec<String> = Vec::new();
    let n = caps.len();
    let mut i: usize = 0;
    while i < n
        invariant
            n == caps@.len(),
            0 <= i <= n,
            pred == not_keyword(language@),
            kept@ == caps@.take(i as int).filter(pred),
        decreases n - i,
    {
        proof {
            lemma_filter_step(caps@, i as int, pred);
        }
        if !is_keyword(caps[i].as_str(), language) {
            kept.push(caps[i].clone());
        }
        i = i + 1;
    }
    assert(caps@.take(n as int) =~= caps@);
    sorted_unique(kept)
}

/// One line `{prefix}{item}` per item.
pub open spec fn prefixed_lines(prefix: Seq<char>, items: Seq<Seq<char>>) -> Seq<char>
    decreases items.len(),
{
    if items.len() == 0 {
        Seq::empty()
    } else {
        prefixed_lines(prefix, items.drop_last()) + prefix + items.last() + "\n"@
    }
}

/// The call-graph document: imports, then call identifiers.
pub open spec fn callgraph_text(deps: Seq<Seq<char>>, calls: Seq<Seq<char>>) -> Seq<char> {
    "# Dependencies ("@ + decimal(deps.len()) + ")\n"@ + prefixed_lines("import: "@, deps)
        + "\n# Function Calls ("@ + decimal(calls.len()) + ")\n"@ + prefixed_lines("call: "@, calls)
}

/// The call-graph metadata object.
pub open spec fn callgraph_metadata_text(deps: Seq<Seq<char>>, call_count: nat) -> Seq<char> {
    "{\"is_static\":true,\"entry_points\":[],\"external_calls\":"@ + json_array(deps)
        + ",\"call_count\":"@ + decimal(call_count) + "}"@
}

fn push_prefixed_lines(out: &mut Vec<char>, prefix: &str, items: &Vec<String>)
    ensures
        final(out)@ == old(out)@ + prefixed_lines(prefix@, texts(items@)),
{
    let mut i: usize = 0;
    while i < items.len()
        invariant
            0 <= i <= items@.len(),
            out@ == old(out)@ + prefixed_lines(prefix@, texts(items@).take(i as int)),
        decreases items@.len() - i,
    {
        let ghost before = out@;
        push_str(out, prefix);
        push_str(out, items[i].as_str());
        push_str(out, "\n");
        proof {
            let t = texts(items@);
            assert(t.take(i + 1).drop_last() =~= t.take(i as int));
            assert(t.take(i + 1).last() == items@[i as int]@);
            assert(out@ =~= old(out)@ + prefixed_lines(prefix@, t.take(i + 1)));
        }
        i = i + 1;
    }
    assert(texts(items@).take(i as int) =~= texts(items@));
}

/// Renders the call-graph document.
pub fn render_callgraph(deps: &Vec<String>, calls: &Vec<String>) -> (r: String)
    ensures
        r@ == callgraph_text(texts(deps@), texts(calls@)),
{
    let mut out: Vec<char> = Vec::new();
    push_str(&mut out, "# Dependencies (");
    push_decimal(&mut out, deps.len() as u64);
    push_str(&mut out, ")\n");
    push_prefixed_lines(&mut out, "import: ", deps);
    push_str(&mut out, "\n# Function Calls (");
    push_decimal(&mut out, calls.len() as u64);
    push_str(&mut out, ")\n");
    push_prefixed_lines(&mut out, "call: ", calls);
    assert(out@ =~= callgraph_text(texts(deps@), texts(calls@)));
    string_of(&out)
}

/// Renders the call-graph metadata.
pub fn render_callgraph_metadata(deps: &Vec<String>, call_count: usize) -> (r: String)
    ensures
        r@ == callgraph_metadata_text(texts(deps@), call_count as nat),
{
    let mut out: Vec<char> = Vec::new();
    push_str(&mut out, "{\"is_static\":true,\"entry_points\":[],\"external_calls\":");
    push_json_array(&mut out, deps);
    push_str(&mut out, ",\"call_count\":");
    push_decimal(&mut out, call_count as u64);
    push_str(&mut out, "}");
    assert(out@ =~= callgraph_metadata_text(texts(deps@), call_count as nat));
    string_of(&out)
}

/// Emits the `callgraph` chunk of a file: its imports and call sites.
pub fn generate_callgraph_chunks(
    store: &mut ChunkStore,
    project_path: &str,
    file_path: &str,
    content: &str,
    snapshot_id: Option<i64>,
    now: i64,
) -> (r: Result<usize, ExtractError>)
    requires
        store_wf(old(store)@),
    ensures
        store_wf(final(store)@),
        chunk_growth(old(store)@, final(store)@, snapshot_id, 1),
        r is Err ==> final(store)@ == old(store)@,
        old(store).next_chunk_id < i64::MAX ==> r is Ok,
        exists|
            deps: Seq<String>,
            calls: Seq<String>,
            c: Chunk,
        |
            is_dependency_list(deps, content@, language_by_suffix(file_path@)) && is_call_list(
                calls,
                content@,
                language_by_suffix(file_path@),
            ) && is_fresh_chunk(
                c,
                project_path@,
                ChunkType::Callgraph,
                Some(file_path@),
                None,
                callgraph_text(texts(deps), texts(calls)),
                Some(callgraph_metadata_text(texts(deps), calls.len())),
            ) && final(store)@ == upsert_chunk_spec(old(store)@, c, snapshot_id, now).0 && (r is Ok ==> holds_linked(final(store)@.chunks, c.content_hash@, snapshot_id)) && match upsert_chunk_spec(
                old(store)@,
                c,
                snapshot_id,
                now,
            ).1 {
                Ok(_) => r == Ok::<usize, ExtractError>(1),
                Err(e) => r == Err::<usize, ExtractError>(ExtractError::Store(e)),
            },
{
    let language = detect_language_by_extension(file_path);
    let deps = extract_dependencies(content, language.as_str());
    let calls = extract_function_calls(content, language.as_str());
    let text = render_callgraph(&deps, &calls);
    let metadata = render_callgraph_metadata(&deps, calls.len());
    let chunk = new_chunk(
        project_path,
        ChunkType::Callgraph,
        Some(String::from_str(file_path)),
        None,
        text,
        Some(metadata),
        now,
    );
    assert(is_fresh_chunk(
        chunk,
        project_path@,
        ChunkType::Callgraph,
        Some(file_path@),
        None,
        callgraph_text(texts(deps@), texts(calls@)),
        Some(callgraph_metadata_text(texts(deps@), calls@.len())),
    ));
    let res = store_chunk(store, &chunk, snapshot_id, now);
    assert(is_dependency_list(deps@, content@, language_by_suffix(file_path@)));
    assert(is_call_list(calls@, content@, language_by_suffix(file_path@)));
    match res {
        Ok(_) => Ok(1),
        Err(e) => Err(e),
    }
}

} // verus!
