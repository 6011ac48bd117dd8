use crate::callgraph::prefixed_lines;
use crate::classify::{is_test_file, test_file};
use crate::extract::{is_fresh_chunk, new_chunk, store_chunk, ExtractError};
use crate::json::texts;
use crate::store::{chunk_growth, holds_linked, store_wf, upsert_chunk_spec, ChunkStore};
use crate::text::{chars_of, decimal, ends_with_str, has_suffix, push_decimal, push_str, string_of};
use crate::types::{Chunk, ChunkType};
use regex::Regex;
use vstd::prelude::*;

verus! {

/// Rust test functions.
pub const RUST_TEST: &'static str = "#\\[test\\]\\s*fn\\s+([a-zA-Z0-9_]+)";

/// JavaScript and TypeScript `it(...)` and `test(...)` names.
pub const JS_TEST: &'static str = "(?:it|test)\\s*\\(\\s*['\"]([^'\"]+)['\"]";

/// Python test functions.
pub const PY_TEST: &'static str = "def\\s+(test_[a-zA-Z0-9_]+)";

/// `assert(`, `assert_(`, `assert!(`.
pub const ASSERT_CALL: &'static str = "assert[_!]?\\s*\\(";

/// `expect(`.
pub const EXPECT_CALL: &'static str = "expect\\s*\\(";

/// Matcher calls such as `.toBe(`.
pub const MATCHER_CALL: &'static str = "\\.to[A-Z][a-zA-Z]*\\(";

/// `should.` chains.
pub const SHOULD_CHAIN: &'static str = "should\\.";

/// What the `regex` crate reports for `pattern` on `text`: the character
/// span `(start, end)` of each successive non-overlapping match; nothing
/// when the pattern does not compile.
pub uninterp spec fn regex_spans(pattern: Seq<char>, text: Seq<char>) -> Seq<(usize, usize)>;

/// What the `regex` crate reports for `pattern` on `text` through group 1,
/// as in the call-graph extractor.
fn test_names(pattern: &str, text: &str) -> (r: Vec<String>)
    ensures
        texts(r@) == crate::callgraph::regex_captures(pattern@, text@),
{
    crate::callgraph::capture_group(pattern, text)
}

/// Relies on `regex::Regex::new` and `Regex::find_iter`; each match's byte
/// offsets are turned into character offsets. An invalid pattern gives no
/// matches.
#[verifier::external_body]
fn match_spans(pattern: &str, text: &str) -> (r: Vec<(usize, usize)>)
    ensures
        r@ == regex_spans(pattern@, text@),
        forall|i: int| 0 <= i < r@.len() ==> (#[trigger] r@[i]).0 <= r@[i].1 <= text@.len(),
{
    match Regex::new(pattern) {
        Ok(re) => re.find_iter(text).map(|m| (text[..m.start()].chars().count(), text[..m.end()].chars().count())).collect(),
        Err(_) => Vec::new(),
    }
}

/// The test names of a file, by its suffix.
pub open spec fn test_name_captures(content: Seq<char>, file_path: Seq<char>) -> Seq<Seq<char>> {
    if has_suffix(file_path, ".rs"@) {
        crate::callgraph::regex_captures(RUST_TEST@, content)
    } else if has_suffix(file_path, ".js"@) || has_suffix(file_path, ".ts"@) {
        crate::callgraph::regex_captures(JS_TEST@, content)
    } else if has_suffix(file_path, ".py"@) {
        crate::callgraph::regex_captures(PY_TEST@, content)
    } else {
        Seq::empty()
    }
}

/// The names of the tests a file declares, in order.
pub fn extract_test_functions(content: &str, file_path: &str) -> (r: Vec<String>)
    ensures
        texts(r@) == test_name_captures(content@, file_path@),
{
    let p = chars_of(file_path);
    if ends_with_str(&p, ".rs") {
        test_names(RUST_TEST, content)
    } else if ends_with_str(&p, ".js") || ends_with_str(&p, ".ts") {
        test_names(JS_TEST, content)
    } else if ends_with_str(&p, ".py") {
        test_names(PY_TEST, content)
    } else {
        let v: Vec<String> = Vec::new();
        assert(texts(v@) =~= Seq::<Seq<char>>::empty());
        v
    }
}

/// Unicode `White_Space`, as `char::is_whitespace` uses it.
pub open spec fn white_space(c: char) -> bool {
    ('\u{9}' <= c <= '\u{d}') || c == ' ' || c == '\u{85}' || c == '\u{a0}' || c == '\u{1680}' || (
    '\u{2000}' <= c <= '\u{200a}') || c == '\u{2028}' || c == '\u{2029}' || c == '\u{202f}' || c
        == '\u{205f}' || c == '\u{3000}'
}

fn is_white_space(c: char) -> (r: bool)
    ensures
        r == white_space(c),
{
    ('\u{9}' <= c && c <= '\u{d}') || c == ' ' || c == '\u{85}' || c == '\u{a0}' || c == '\u{1680}'
        || ('\u{2000}' <= c && c <= '\u{200a}') || c == '\u{2028}' || c == '\u{2029}' || c
        == '\u{202f}' || c == '\u{205f}' || c == '\u{3000}'
}

/// `s` with white space removed from both ends.
pub open spec fn trimmed(s: Seq<char>) -> Seq<char>
    decreases s.len(),
{
    if s.len() > 0 && white_space(s[0]) {
        trimmed(s.drop_first())
    } else if s.len() > 0 && white_space(s.last()) {
        trimmed(s.drop_last())
    } else {
        s
    }
}

/// `s` with every line feed turned into a space.
pub open spec fn flattened(s: Seq<char>) -> Seq<char> {
    s.map_values(|c: char| if c == '\n' { ' ' } else { c })
}

/// The context of a match spanning `start..end`: up to 20 characters
/// before and 50 after, on one line, trimmed.
pub open spec fn match_context(content: Seq<char>, start: int, end: int) -> Seq<char> {
    let from = if start >= 20 { start - 20 } else { 0 };
    let to = if end + 50 <= content.len() { end + 50 } else { content.len() as int };
    trimmed(flattened(content.subrange(from, to)))
}

/// The contexts of the matches of one pattern.
pub open spec fn contexts(content: Seq<char>, spans: Seq<(usize, usize)>) -> Seq<Seq<char>>
    decreases spans.len(),
{
    if spans.len() == 0 {
        Seq::empty()
    } else {
        contexts(content, spans.drop_last()).push(
            match_context(content, spans.last().0 as int, spans.last().1 as int),
        )
    }
}

/// The assertion contexts of a file: per pattern, in order.
pub open spec fn expectation_texts(content: Seq<char>) -> Seq<Seq<char>> {
    contexts(content, regex_spans(ASSERT_CALL@, content)) + contexts(
        content,
        regex_spans(EXPECT_CALL@, content),
    ) + contexts(content, regex_spans(MATCHER_CALL@, content)) + contexts(
        content,
        regex_spans(SHOULD_CHAIN@, content),
    )
}

fn context_of(content: &Vec<char>, start: usize, end: usize) -> (r: String)
    requires
        start <= end <= content@.len(),
    ensures
        r@ == match_context(content@, start as int, end as int),
{
    let from: usize = if start >= 20 {
        start - 20
    } else {
        0
    };
    let to: usize = if content.len() >= 50 && end <= content.len() - 50 {
        end + 50
    } else {
        content.len()
    };
    assert(to == if end + 50 <= content@.len() { end + 50 } else { content@.len() as int });
    let mut flat: Vec<char> = Vec::new();
    let mut i: usize = from;
    while i < to
        invariant
            from <= i <= to <= content@.len(),
            flat@ == flattened(content@.subrange(from as int, i as int)),
        decreases to - i,
    {
        let c = content[i];
        flat.push(if c == '\n' { ' ' } else { c });
        i = i + 1;
        assert(flat@ =~= flattened(content@.subrange(from as int, i as int)));
    }
    let mut a: usize = 0;
    let mut b: usize = flat.len();
    assert(flat@.subrange(0, b as int) =~= flat@);
    while a < b && (is_white_space(flat[a]) || is_white_space(flat[b - 1]))
        invariant
            0 <= a <= b <= flat@.len(),
            trimmed(flat@) == trimmed(flat@.subrange(a as int, b as int)),
        decreases b - a,
    {
        let ghost cur = flat@.subrange(a as int, b as int);
        if is_white_space(flat[a]) {
            assert(cur.drop_first() =~= flat@.subrange(a + 1, b as int));
            a = a + 1;
        } else {
            assert(cur.drop_last() =~= flat@.subrange(a as int, b - 1));
            b = b - 1;
        }
    }
    let mut out: Vec<char> = Vec::new();
    let mut k: usize = a;
    while k < b
        invariant
            a <= k <= b <= flat@.len(),
            out@ == flat@.subrange(a as int, k as int),
        decreases b - k,
    {
        out.push(flat[k]);
        k = k + 1;
        assert(out@ =~= flat@.subrange(a as int, k as int));
    }
    string_of(&out)
}

fn push_contexts(out: &mut Vec<String>, content: &Vec<char>, spans: &Vec<(usize, usize)>)
    requires
        forall|i: int| 0 <= i < spans@.len() ==> (#[trigger] spans@[i]).0 <= spans@[i].1 <= content@.len(),
    ensures
        texts(final(out)@) == texts(old(out)@) + contexts(content@, spans@),
{
    let mut i: usize = 0;
    while i < spans.len()
        invariant
            0 <= i <= spans@.len(),
            forall|j: int| 0 <= j < spans@.len() ==> (#[trigger] spans@[j]).0 <= spans@[j].1 <= content@.len(),
            texts(out@) == texts(old(out)@) + contexts(content@, spans@.take(i as int)),
        decreases spans@.len() - i,
    {
        let (s, e) = spans[i];
        let ctx = context_of(content, s, e);
        let ghost before = out@;
        out.push(ctx);
        proof {
            assert(spans@.take(i + 1).drop_last() =~= spans@.take(i as int));
            assert(texts(out@) =~= texts(before).push(ctx@));
        }
        i = i + 1;
    }
    assert(spans@.take(i as int) =~= spans@);
}

/// The assertion contexts of a file.
pub fn extract_expectations(content: &str) -> (r: Vec<String>)
    ensures
        texts(r@) == expectation_texts(content@),
{
    let c = chars_of(content);
    let mut out: Vec<String> = Vec::new();
    assert(texts(out@) =~= Seq::<Seq<char>>::empty());
    let s1 = match_spans(ASSERT_CALL, content);
    push_contexts(&mut out, &c, &s1);
    let s2 = match_spans(EXPECT_CALL, content);
    push_contexts(&mut out, &c, &s2);
    let s3 = match_spans(MATCHER_CALL, content);
    push_contexts(&mut out, &c, &s3);
    let s4 = match_spans(SHOULD_CHAIN, content);
    push_contexts(&mut out, &c, &s4);
    assert(texts(out@) =~= expectation_texts(content@));
    out
}

/// `{k}. {name}` lines, numbered from `first`.
pub open spec fn numbered_lines(items: Seq<Seq<char>>) -> Seq<char>
    decreases items.len(),
{
    if items.len() == 0 {
        Seq::empty()
    } else {
        numbered_lines(items.drop_last()) + decimal(items.len()) + ". "@ + items.last() + "\n"@
    }
}

/// The test-surface document of a file.
pub open spec fn test_surface_text(
    file_path: Seq<char>,
    names: Seq<Seq<char>>,
    expectations: Seq<Seq<char>>,
) -> Seq<char> {
    "# Test File: "@ + file_path + "\n"@ + "# Test Functions: "@ + decimal(names.len()) + "\n\n"@
        + numbered_lines(names) + "\n# Expectations: "@ + decimal(expectations.len()) + "\n"@
        + prefixed_lines("- "@, expectations)
}

/// Renders the test-surface document.
pub fn render_test_surface(file_path: &str, names: &Vec<String>, expectations: &Vec<String>) -> (r:
    String)
    ensures
        r@ == test_surface_text(file_path@, texts(names@), texts(expectations@)),
{
    let mut out: Vec<char> = Vec::new();
    push_str(&mut out, "# Test File: ");
    push_str(&mut out, file_path);
    push_str(&mut out, "\n");
    push_str(&mut out, "# Test Functions: ");
    push_decimal(&mut out, names.len() as u64);
    push_str(&mut out, "\n\n");
    let ghost head = out@;
    let mut i: usize = 0;
    while i < names.len()
        invariant
            0 <= i <= names@.len(),
            out@ == head + numbered_lines(texts(names@).take(i as int)),
        decreases names@.len() - i,
    {
        push_decimal(&mut out, (i + 1) as u64);
        push_str(&mut out, ". ");
        push_str(&mut out, names[i].as_str());
        push_str(&mut out, "\n");
        proof {
            let t = texts(names@);
            assert(t.take(i + 1).drop_last() =~= t.take(i as int));
            assert(t.take(i + 1).last() == names@[i as int]@);
            assert(out@ =~= head + numbered_lines(t.take(i + 1)));
        }
        i = i + 1;
    }
    assert(texts(names@).take(i as int) =~= texts(names@));
    push_str(&mut out, "\n# Expectations: ");
    push_decimal(&mut out, expectations.len() as u64);
    push_str(&mut out, "\n");
    let ghost mid = out@;
    let mut k: usize = 0;
    while k < expectations.len()
        invariant
            0 <= k <= expectations@.len(),
            out@ == mid + prefixed_lines("- "@, texts(expectations@).take(k as int)),
        decreases expectations@.len() - k,
    {
        push_str(&mut out, "- ");
        push_str(&mut out, expectations[k].as_str());
        push_str(&mut out, "\n");
        proof {
            let t = texts(expectations@);
            assert(t.take(k + 1).drop_last() =~= t.take(k as int));
            assert(t.take(k + 1).last() == expectations@[k as int]@);
            assert(out@ =~= mid + prefixed_lines("- "@, t.take(k + 1)));
        }
        k = k + 1;
    }
    assert(texts(expectations@).take(k as int) =~= texts(expectations@));
    assert(out@ =~= test_surface_text(file_path@, texts(names@), texts(expectations@)));
    string_of(&out)
}

/// Emits the `tests` chunk of a test file; returns how many chunks were
/// emitted.
pub fn generate_test_chunks(
    store: &mut ChunkStore,
    project_path: &str,
    file_path: &str,
    content: &str,
    snapshot_id: Option<i64>,
    now: i64,
) -> (r: Result<usize, ExtractError>)
    requires
        store_wf(old(store)@),
    ensures
        store_wf(final(store)@),
        chunk_growth(old(store)@, final(store)@, snapshot_id, 1),
        r is Err ==> final(store)@ == old(store)@,
        old(store).next_chunk_id < i64::MAX ==> r is Ok,
        !test_file(file_path@, content@) ==> r == Ok::<usize, ExtractError>(0) && final(store)@
            == old(store)@,
        test_file(file_path@, content@) ==> exists|c: Chunk|
            is_fresh_chunk(
                c,
                project_path@,
                ChunkType::Tests,
                Some(file_path@),
                None,
                test_surface_text(
                    file_path@,
                    test_name_captures(content@, file_path@),
                    expectation_texts(content@),
                ),
                None,
            ) && final(store)@ == upsert_chunk_spec(old(store)@, c, snapshot_id, now).0 && (r is Ok ==> holds_linked(final(store)@.chunks, c.content_hash@, snapshot_id)) && match upsert_chunk_spec(
                old(store)@,
                c,
                snapshot_id,
                now,
            ).1 {
                Ok(_) => r == Ok::<usize, ExtractError>(1),
                Err(e) => r == Err::<usize, ExtractError>(ExtractError::Store(e)),
            },
{
    if !is_test_file(file_path, content) {
        return Ok(0);
    }
    let names = extract_test_functions(content, file_path);
    let expectations = extract_expectations(content);
    let text = render_test_surface(file_path, &names, &expectations);
    let chunk = new_chunk(
        project_path,
        ChunkType::Tests,
        Some(String::from_str(file_path)),
        None,
        text,
        None,
        now,
    );
    assert(is_fresh_chunk(
        chunk,
        project_path@,
        ChunkType::Tests,
        Some(file_path@),
        None,
        test_surface_text(
            file_path@,
            test_name_captures(content@, file_path@),
            expectation_texts(content@),
        ),
        None,
    ));
    match store_chunk(store, &chunk, snapshot_id, now) {
        Ok(_) => Ok(1),
        Err(e) => Err(e),
    }
}

} // verus!
