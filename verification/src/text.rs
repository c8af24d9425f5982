//! Text as sequences of characters, and the strings and vectors that hold it.

use vstd::prelude::*;

verus! {

/// The character sequences held by a list of character vectors.
pub open spec fn views_of(items: Seq<Vec<char>>) -> Seq<Seq<char>> {
    items.map_values(|c: Vec<char>| c@)
}

/// The character sequences held by a list of strings.
pub open spec fn texts_of(items: Seq<String>) -> Seq<Seq<char>> {
    items.map_values(|t: String| t@)
}

/// `String::push` of the standard library. Trusted: the text afterwards is the text
/// before with `ch` as one more character at its end.
pub assume_specification[ std::string::String::push ](text: &mut std::string::String, ch: char)
    ensures
        final(text)@ == old(text)@.push(ch),
;

/// The characters of `text`, one by one.
pub fn chars_of(text: &str) -> (chars: Vec<char>)
    ensures
        chars@ == text@,
{
    let mut chars: Vec<char> = Vec::new();
    for c in it: text.chars()
        invariant
            chars@ == it.seq().take(it.index()),
    {
        chars.push(c);
    }
    chars
}

/// Puts the characters of `chars` behind `text`.
pub fn push_chars(text: &mut String, chars: &Vec<char>)
    ensures
        final(text)@ == old(text)@ + chars@,
{
    let mut j: usize = 0;
    while j < chars.len()
        invariant
            j <= chars.len(),
            text@ == old(text)@ + chars@.take(j as int),
        decreases chars.len() - j,
    {
        text.push(chars[j]);
        j += 1;
        assert(text@ =~= old(text)@ + chars@.take(j as int));
    }
    assert(chars@.take(chars.len() as int) =~= chars@);
}

/// The characters of `chars` as a string.
pub fn string_of(chars: &Vec<char>) -> (text: String)
    ensures
        text@ == chars@,
{
    let mut text = String::new();
    push_chars(&mut text, chars);
    text
}

} // verus!
