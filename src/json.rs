use crate::text::{push_str, string_of};
use vstd::prelude::*;

verus! {

/// The JSON string literal for a text: quotes and escapes included.
pub uninterp spec fn json_quoted(s: Seq<char>) -> Seq<char>;

/// Relies on `serde_json::to_string` applied to a `str`, which writes it as
/// a JSON string literal; the text depends on the characters alone. Its
/// only failure is an I/O error of the in-memory writer, which cannot occur.
#[verifier::external_body]
fn quote_json(s: &str) -> (r: String)
    ensures
        r@ == json_quoted(s@),
{
    serde_json::to_string(s).unwrap_or_default()
}

/// The comma-separated JSON literals of `items`.
pub open spec fn json_items(items: Seq<Seq<char>>) -> Seq<char>
    decreases items.len(),
{
    if items.len() == 0 {
        Seq::empty()
    } else if items.len() == 1 {
        json_quoted(items[0])
    } else {
        json_items(items.drop_last()) + ","@ + json_quoted(items.last())
    }
}

/// The compact JSON array of `items`.
pub open spec fn json_array(items: Seq<Seq<char>>) -> Seq<char> {
    "["@ + json_items(items) + "]"@
}

/// The texts of a list of strings.
pub open spec fn texts(items: Seq<String>) -> Seq<Seq<char>> {
    items.map_values(|s: String| s@)
}

/// Appends the JSON literal of `s`.
pub fn push_json_string(out: &mut Vec<char>, s: &str)
    ensures
        final(out)@ == old(out)@ + json_quoted(s@),
{
    let q = quote_json(s);
    push_str(out, q.as_str());
}

/// Appends the compact JSON array of `items`.
pub fn push_json_array(out: &mut Vec<char>, items: &Vec<String>)
    ensures
        final(out)@ == old(out)@ + json_array(texts(items@)),
{
    push_str(out, "[");
    let ghost start = out@;
    let mut i: usize = 0;
    while i < items.len()
        invariant
            0 <= i <= items@.len(),
            out@ == start + json_items(texts(items@).take(i as int)),
            start == old(out)@ + "["@,
        decreases items@.len() - i,
    {
        let ghost before = out@;
        if i > 0 {
            push_str(out, ",");
        }
        let ghost mid = out@;
        push_json_string(out, items[i].as_str());
        proof {
            let t = texts(items@);
            assert(t.take(i + 1).drop_last() =~= t.take(i as int));
            assert(t.take(i + 1).last() == items@[i as int]@);
            if i == 0 {
                assert(t.take(1).len() == 1);
                assert(json_items(t.take(0)) =~= Seq::<char>::empty());
                assert(out@ =~= start + json_items(t.take(1)));
            } else {
                assert(out@ =~= start + json_items(t.take(i + 1)));
            }
        }
        i = i + 1;
    }
    assert(texts(items@).take(i as int) =~= texts(items@));
    push_str(out, "]");
    assert(out@ =~= old(out)@ + json_array(texts(items@)));
}

/// The compact JSON array of `items`, as `serde_json` writes a list of
/// strings.
pub fn json_string_array(items: &Vec<String>) -> (r: String)
    ensures
        r@ == json_array(texts(items@)),
{
    let mut out: Vec<char> = Vec::new();
    push_json_array(&mut out, items);
    assert(out@ =~= json_array(texts(items@)));
    string_of(&out)
}

} // verus!
