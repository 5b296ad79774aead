//! Text inside JSON strings.

use vstd::prelude::*;
use vstd::string::StringExecFns;

verus! {

/// What stands for the character `c` inside a JSON string: a backslash and a quotation mark get
/// a backslash in front, any other character stands for itself.
pub open spec fn escaped_char(c: char) -> Seq<char> {
    if c == '\\' {
        seq!['\\', '\\']
    } else if c == '"' {
        seq!['\\', '"']
    } else {
        seq![c]
    }
}

/// What stands for `text` inside a JSON string: every character of `text`, escaped.
pub open spec fn escaped(text: Seq<char>) -> Seq<char>
    decreases text.len(),
{
    if text.len() == 0 {
        Seq::empty()
    } else {
        escaped(text.drop_last()) + escaped_char(text.last())
    }
}

/// The JSON text component that shows `text`.
pub open spec fn json_text_component(text: Seq<char>) -> Seq<char> {
    "{\"text\":\""@ + escaped(text) + "\"}"@
}

/// Escaping never shortens a text, and it adds no line break.
pub proof fn lemma_escaped(text: Seq<char>)
    ensures
        escaped(text).len() >= text.len(),
        !text.contains('\n') ==> !escaped(text).contains('\n'),
    decreases text.len(),
{
    if text.len() > 0 {
        lemma_escaped(text.drop_last());
        if !text.contains('\n') {
            assert forall|i: int| 0 <= i < text.drop_last().len() implies text.drop_last()[i]
                != '\n' by {
                assert(text[i] == text.drop_last()[i]);
                assert(text.contains(text[i]));
            }
            assert(text.contains(text.last()));
            let before = escaped(text.drop_last());
            let all = escaped(text);
            assert forall|i: int| 0 <= i < all.len() implies all[i] != '\n' by {
                if i < before.len() {
                    assert(before.contains(before[i]));
                }
            }
        }
    }
}

/// Appends `json` to `target`, escaped for use inside a JSON string.
pub fn push_escaped(target: &mut String, json: &str)
    ensures
        final(target)@ == old(target)@ + escaped(json@),
{
    assert(old(target)@ + escaped(json@.take(0)) =~= old(target)@);
    for c in iter: json.chars()
        invariant
            iter.seq() == json@,
            target@ == old(target)@ + escaped(json@.take(iter.index())),
    {
        let ghost before = json@.take(iter.index());
        let ghost after = json@.take(iter.index() + 1);
        assert(after.drop_last() =~= before);
        assert(after.last() == c);
        if c == '\\' {
            target.push('\\');
            target.push('\\');
        } else if c == '"' {
            target.push('\\');
            target.push('"');
        } else {
            target.push(c);
        }
        assert(target@ =~= old(target)@ + escaped(after));
    }
    assert(json@.take(json@.len() as int) =~= json@);
}

/// Escapes `json` for use inside a JSON string.
pub fn escape_json(json: &str) -> (text: String)
    ensures
        text@ == escaped(json@),
{
    let mut text = String::new();
    push_escaped(&mut text, json);
    assert(Seq::<char>::empty() + escaped(json@) =~= escaped(json@));
    text
}

/// Creates the JSON text component that shows `text`.
pub fn create_json_text_component(text: &str) -> (component: String)
    ensures
        component@ == json_text_component(text@),
{
    let mut component = String::from_str("{\"text\":\"");
    push_escaped(&mut component, text);
    component.append("\"}");
    component
}

} // verus!
