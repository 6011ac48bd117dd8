use crate::text::{
    chars_of, contains, contains_str, ends_with_str, eq_str, find_last, has_substring, has_suffix,
    last_index_of, suffix_from,
};
use vstd::prelude::*;

verus! {

/// The last segment of a slash-separated path.
pub open spec fn file_name(path: Seq<char>) -> Seq<char> {
    path.skip(last_index_of(path, '/') + 1)
}

/// The text after the final dot of the last path segment; none when that
/// segment has no dot, or only a leading one (`.env`).
pub open spec fn extension(path: Seq<char>) -> Option<Seq<char>> {
    let f = file_name(path);
    let d = last_index_of(f, '.');
    if d > 0 {
        Some(f.skip(d + 1))
    } else {
        None
    }
}

/// Exec form of [`file_name`].
pub fn file_name_of(path: &Vec<char>) -> (r: Vec<char>)
    ensures
        r@ == file_name(path@),
{
    match find_last(path, '/') {
        Some(i) => suffix_from(path, i + 1),
        None => {
            assert(path@.skip(0) =~= path@);
            suffix_from(path, 0)
        },
    }
}

/// Exec form of [`extension`].
pub fn extension_of(path: &Vec<char>) -> (r: Option<Vec<char>>)
    ensures
        match r {
            Some(e) => extension(path@) == Some(e@),
            None => extension(path@) is None,
        },
{
    let name = file_name_of(path);
    match find_last(&name, '.') {
        Some(d) => if d > 0 {
            Some(suffix_from(&name, d + 1))
        } else {
            None
        },
        None => None,
    }
}

/// The Unicode lowercase mapping of a text.
pub uninterp spec fn lower_of(s: Seq<char>) -> Seq<char>;

/// Relies on `str::to_lowercase`: the result depends on the characters alone.
#[verifier::external_body]
fn lowercase(s: &str) -> (r: String)
    ensures
        r@ == lower_of(s@),
{
    s.to_lowercase()
}

/// The file extensions indexed as raw source.
pub open spec fn code_extension(e: Seq<char>) -> bool {
    e == "rs"@ || e == "js"@ || e == "jsx"@ || e == "ts"@ || e == "tsx"@ || e == "py"@ || e
        == "java"@ || e == "cpp"@ || e == "c"@ || e == "h"@ || e == "hpp"@ || e == "cs"@ || e
        == "go"@ || e == "rb"@ || e == "php"@ || e == "swift"@ || e == "kt"@ || e == "scala"@ || e
        == "r"@ || e == "m"@ || e == "mm"@ || e == "vue"@ || e == "svelte"@ || e == "dart"@ || e
        == "lua"@ || e == "sh"@ || e == "bash"@ || e == "zsh"@ || e == "fish"@ || e == "sql"@ || e
        == "graphql"@ || e == "proto"@ || e == "toml"@ || e == "yaml"@ || e == "yml"@ || e
        == "json"@ || e == "xml"@ || e == "html"@ || e == "css"@ || e == "scss"@ || e == "sass"@
        || e == "less"@
}

/// Whether a (lowercase) extension is one of the code extensions.
pub fn is_code_extension(ext: &str) -> (r: bool)
    ensures
        r == code_extension(ext@),
{
    let e = chars_of(ext);
    eq_str(&e, "rs") || eq_str(&e, "js") || eq_str(&e, "jsx") || eq_str(&e, "ts") || eq_str(
        &e,
        "tsx",
    ) || eq_str(&e, "py") || eq_str(&e, "java") || eq_str(&e, "cpp") || eq_str(&e, "c")
        || eq_str(&e, "h") || eq_str(&e, "hpp") || eq_str(&e, "cs") || eq_str(&e, "go")
        || eq_str(&e, "rb") || eq_str(&e, "php") || eq_str(&e, "swift") || eq_str(&e, "kt")
        || eq_str(&e, "scala") || eq_str(&e, "r") || eq_str(&e, "m") || eq_str(&e, "mm")
        || eq_str(&e, "vue") || eq_str(&e, "svelte") || eq_str(&e, "dart") || eq_str(&e, "lua")
        || eq_str(&e, "sh") || eq_str(&e, "bash") || eq_str(&e, "zsh") || eq_str(&e, "fish")
        || eq_str(&e, "sql") || eq_str(&e, "graphql") || eq_str(&e, "proto") || eq_str(&e, "toml")
        || eq_str(&e, "yaml") || eq_str(&e, "yml") || eq_str(&e, "json") || eq_str(&e, "xml")
        || eq_str(&e, "html") || eq_str(&e, "css") || eq_str(&e, "scss") || eq_str(&e, "sass")
        || eq_str(&e, "less")
}

/// A path is indexed as raw source when its extension, lowercased, is a
/// code extension.
pub fn is_code_file(path: &str) -> (r: bool)
    ensures
        r == match extension(path@) {
            Some(e) => code_extension(lower_of(e)),
            None => false,
        },
{
    let p = chars_of(path);
    match extension_of(&p) {
        Some(e) => {
            let es = crate::text::string_of(&e);
            let lower = lowercase(es.as_str());
            is_code_extension(lower.as_str())
        },
        None => false,
    }
}

/// `s` without its `*` characters.
pub open spec fn without_stars(s: Seq<char>) -> Seq<char> {
    s.filter(|c: char| c != '*')
}

/// `s` without leading slashes.
pub open spec fn trim_leading_slashes(s: Seq<char>) -> Seq<char>
    decreases s.len(),
{
    if s.len() > 0 && s[0] == '/' {
        trim_leading_slashes(s.drop_first())
    } else {
        s
    }
}

/// `s` without trailing slashes.
pub open spec fn trim_trailing_slashes(s: Seq<char>) -> Seq<char>
    decreases s.len(),
{
    if s.len() > 0 && s.last() == '/' {
        trim_trailing_slashes(s.drop_last())
    } else {
        s
    }
}

/// The text an ignore pattern is matched by: wildcards dropped, slashes
/// trimmed at both ends.
pub open spec fn pattern_core(pattern: Seq<char>) -> Seq<char> {
    trim_trailing_slashes(trim_leading_slashes(without_stars(pattern)))
}

/// Exec form of [`pattern_core`].
pub fn pattern_core_of(pattern: &str) -> (r: Vec<char>)
    ensures
        r@ == pattern_core(pattern@),
{
    let p = chars_of(pattern);
    let ghost pred = |c: char| c != '*';
    let mut s: Vec<char> = Vec::new();
    let mut i: usize = 0;
    while i < p.len()
        invariant
            0 <= i <= p@.len(),
            p@ == pattern@,
            pred == (|c: char| c != '*'),
            s@ == p@.take(i as int).filter(pred),
        decreases p@.len() - i,
    {
        proof {
            crate::order::lemma_filter_step(p@, i as int, pred);
        }
        if p[i] != '*' {
            s.push(p[i]);
        }
        i = i + 1;
    }
    assert(p@.take(i as int) =~= p@);
    let mut a: usize = 0;
    assert(s@.skip(0) =~= s@);
    while a < s.len() && s[a] == '/'
        invariant
            0 <= a <= s@.len(),
            trim_leading_slashes(s@) == trim_leading_slashes(s@.skip(a as int)),
        decreases s@.len() - a,
    {
        assert(s@.skip(a as int).drop_first() =~= s@.skip(a + 1));
        a = a + 1;
    }
    let t = suffix_from(&s, a);
    let mut b: usize = t.len();
    assert(t@.take(b as int) =~= t@);
    while b > 0 && t[b - 1] == '/'
        invariant
            0 <= b <= t@.len(),
            trim_trailing_slashes(t@) == trim_trailing_slashes(t@.take(b as int)),
        decreases b,
    {
        assert(t@.take(b as int).drop_last() =~= t@.take(b - 1));
        b = b - 1;
    }
    let mut out: Vec<char> = Vec::new();
    let mut k: usize = 0;
    while k < b
        invariant
            0 <= k <= b <= t@.len(),
            out@ == t@.take(k as int),
        decreases b - k,
    {
        out.push(t[k]);
        k = k + 1;
        assert(out@ =~= t@.take(k as int));
    }
    out
}

/// A path is skipped when, for some pattern, the pattern's core occurs in
/// it.
pub open spec fn ignored(path: Seq<char>, patterns: Seq<String>) -> bool {
    exists|i: int| 0 <= i < patterns.len() && has_substring(path, pattern_core(#[trigger] patterns[i]@))
}

/// Whether a relative path matches one of the ignore patterns.
pub fn should_ignore(path: &str, patterns: &Vec<String>) -> (r: bool)
    ensures
        r == ignored(path@, patterns@),
{
    let p = chars_of(path);
    let mut i: usize = 0;
    while i < patterns.len()
        invariant
            0 <= i <= patterns@.len(),
            p@ == path@,
            forall|j: int| 0 <= j < i ==> !has_substring(path@, pattern_core(#[trigger] patterns@[j]@)),
        decreases patterns@.len() - i,
    {
        let core = pattern_core_of(patterns[i].as_str());
        if contains(&p, &core) {
            return true;
        }
        i = i + 1;
    }
    false
}

/// The file names of configuration and state files.
pub open spec fn config_name(f: Seq<char>) -> bool {
    f == ".env"@ || f == ".env.local"@ || f == ".env.development"@ || f == ".env.production"@ || f
        == "config.json"@ || f == "config.yaml"@ || f == "config.yml"@ || f == "settings.json"@
        || f == "settings.yaml"@ || f == "appsettings.json"@
}

/// A configuration file: a known file name, or a path ending in
/// `.config.js`, `.config.ts` or `rc.json`.
pub open spec fn config_path(path: Seq<char>) -> bool {
    config_name(file_name(path)) || has_suffix(path, ".config.js"@) || has_suffix(
        path,
        ".config.ts"@,
    ) || has_suffix(path, "rc.json"@)
}

/// Whether a relative path names a configuration file.
pub fn is_config_file(file_path: &str) -> (r: bool)
    ensures
        r == config_path(file_path@),
{
    let p = chars_of(file_path);
    let f = file_name_of(&p);
    eq_str(&f, ".env") || eq_str(&f, ".env.local") || eq_str(&f, ".env.development") || eq_str(
        &f,
        ".env.production",
    ) || eq_str(&f, "config.json") || eq_str(&f, "config.yaml") || eq_str(&f, "config.yml")
        || eq_str(&f, "settings.json") || eq_str(&f, "settings.yaml") || eq_str(
        &f,
        "appsettings.json",
    ) || ends_with_str(&p, ".config.js") || ends_with_str(&p, ".config.ts") || ends_with_str(
        &p,
        "rc.json",
    )
}

/// The file names of package manifests and lock files.
pub open spec fn metadata_name(f: Seq<char>) -> bool {
    f == "package.json"@ || f == "package-lock.json"@ || f == "yarn.lock"@ || f
        == "pnpm-lock.yaml"@ || f == "Cargo.toml"@ || f == "Cargo.lock"@ || f == "pyproject.toml"@
        || f == "requirements.txt"@ || f == "Pipfile"@ || f == "Pipfile.lock"@ || f == "go.mod"@
        || f == "go.sum"@ || f == "build.gradle"@ || f == "pom.xml"@ || f == "composer.json"@ || f
        == "composer.lock"@ || f == "Gemfile"@ || f == "Gemfile.lock"@
}

/// Whether a relative path names a package manifest or lock file.
pub fn is_metadata_file(file_path: &str) -> (r: bool)
    ensures
        r == metadata_name(file_name(file_path@)),
{
    let p = chars_of(file_path);
    let f = file_name_of(&p);
    eq_str(&f, "package.json") || eq_str(&f, "package-lock.json") || eq_str(&f, "yarn.lock")
        || eq_str(&f, "pnpm-lock.yaml") || eq_str(&f, "Cargo.toml") || eq_str(&f, "Cargo.lock")
        || eq_str(&f, "pyproject.toml") || eq_str(&f, "requirements.txt") || eq_str(&f, "Pipfile")
        || eq_str(&f, "Pipfile.lock") || eq_str(&f, "go.mod") || eq_str(&f, "go.sum") || eq_str(
        &f,
        "build.gradle",
    ) || eq_str(&f, "pom.xml") || eq_str(&f, "composer.json") || eq_str(&f, "composer.lock")
        || eq_str(&f, "Gemfile") || eq_str(&f, "Gemfile.lock")
}

/// A test file: by name (`test`, `spec`, `_test.rs`) or by a testing marker
/// in its content.
pub open spec fn test_file(path: Seq<char>, content: Seq<char>) -> bool {
    has_substring(path, "test"@) || has_substring(path, "spec"@) || has_suffix(path, "_test.rs"@)
        || has_substring(content, "#[test]"@) || has_substring(content, "describe("@)
        || has_substring(content, "it("@) || has_substring(content, "test("@) || has_substring(
        content,
        "def test_"@,
    ) || has_substring(content, "class Test"@)
}

/// Whether a file holds tests.
pub fn is_test_file(file_path: &str, content: &str) -> (r: bool)
    ensures
        r == test_file(file_path@, content@),
{
    let p = chars_of(file_path);
    if contains_str(&p, "test") || contains_str(&p, "spec") || ends_with_str(&p, "_test.rs") {
        return true;
    }
    let c = chars_of(content);
    contains_str(&c, "#[test]") || contains_str(&c, "describe(") || contains_str(&c, "it(")
        || contains_str(&c, "test(") || contains_str(&c, "def test_") || contains_str(
        &c,
        "class Test",
    )
}

/// The language name the call-graph extractor uses for a path.
pub open spec fn language_by_suffix(path: Seq<char>) -> Seq<char> {
    if has_suffix(path, ".rs"@) {
        "rust"@
    } else if has_suffix(path, ".js"@) || has_suffix(path, ".jsx"@) {
        "javascript"@
    } else if has_suffix(path, ".ts"@) || has_suffix(path, ".tsx"@) {
        "typescript"@
    } else if has_suffix(path, ".py"@) {
        "python"@
    } else {
        "unknown"@
    }
}

/// The language of a path, by its suffix.
pub fn detect_language_by_extension(file_path: &str) -> (r: String)
    ensures
        r@ == language_by_suffix(file_path@),
{
    let p = chars_of(file_path);
    if ends_with_str(&p, ".rs") {
        String::from_str("rust")
    } else if ends_with_str(&p, ".js") || ends_with_str(&p, ".jsx") {
        String::from_str("javascript")
    } else if ends_with_str(&p, ".ts") || ends_with_str(&p, ".tsx") {
        String::from_str("typescript")
    } else if ends_with_str(&p, ".py") {
        String::from_str("python")
    } else {
        String::from_str("unknown")
    }
}

/// The control-flow and declaration words that look like calls.
pub open spec fn keyword(word: Seq<char>, language: Seq<char>) -> bool {
    if language == "rust"@ {
        word == "if"@ || word == "else"@ || word == "while"@ || word == "for"@ || word == "loop"@
            || word == "match"@ || word == "return"@ || word == "break"@ || word == "continue"@
    } else if language == "javascript"@ || language == "typescript"@ {
        word == "if"@ || word == "else"@ || word == "while"@ || word == "for"@ || word == "switch"@
            || word == "case"@ || word == "return"@ || word == "break"@ || word == "continue"@
            || word == "function"@ || word == "class"@
    } else if language == "python"@ {
        word == "if"@ || word == "elif"@ || word == "else"@ || word == "while"@ || word == "for"@
            || word == "return"@ || word == "break"@ || word == "continue"@ || word == "def"@
            || word == "class"@
    } else {
        false
    }
}

/// Whether `word` is a keyword of `language`.
pub fn is_keyword(word: &str, language: &str) -> (r: bool)
    ensures
        r == keyword(word@, language@),
{
    let w = chars_of(word);
    let l = chars_of(language);
    if eq_str(&l, "rust") {
        eq_str(&w, "if") || eq_str(&w, "else") || eq_str(&w, "while") || eq_str(&w, "for")
            || eq_str(&w, "loop") || eq_str(&w, "match") || eq_str(&w, "return") || eq_str(
            &w,
            "break",
        ) || eq_str(&w, "continue")
    } else if eq_str(&l, "javascript") || eq_str(&l, "typescript") {
        eq_str(&w, "if") || eq_str(&w, "else") || eq_str(&w, "while") || eq_str(&w, "for")
            || eq_str(&w, "switch") || eq_str(&w, "case") || eq_str(&w, "return") || eq_str(
            &w,
            "break",
        ) || eq_str(&w, "continue") || eq_str(&w, "function") || eq_str(&w, "class")
    } else if eq_str(&l, "python") {
        eq_str(&w, "if") || eq_str(&w, "elif") || eq_str(&w, "else") || eq_str(&w, "while")
            || eq_str(&w, "for") || eq_str(&w, "return") || eq_str(&w, "break") || eq_str(
            &w,
            "continue",
        ) || eq_str(&w, "def") || eq_str(&w, "class")
    } else {
        false
    }
}

} // verus!
