//! Names the op-generating attributes derive from a `*_device` function: the
//! defaulted twin, the named-argument macro and its arguments struct.
use vstd::prelude::*;

use crate::text::{
    chars_of, ends_with, find_char, has_suffix, lemma_find_char_bounds, prefix_of, same_chars,
    split, split_on, string_of, views,
};

verus! {

/// The uppercase form of `c`, as `char::to_uppercase` yields it (one to three
/// characters).
pub uninterp spec fn uppercase_of(c: char) -> Seq<char>;

/// `char::to_uppercase`, collected. Its result is named [`uppercase_of`]; what
/// is stated beyond the name is that an ASCII lowercase letter maps to its
/// capital and every other ASCII character to itself. Which characters outside
/// ASCII map to what is left to the Unicode tables and not stated.
#[verifier::external_body]
fn char_to_uppercase(c: char) -> (upper: String)
    ensures
        upper@ == uppercase_of(c),
        'a' <= c <= 'z' ==> upper@ == seq![((c as u32) - 32) as char],
        (c as u32) < 128 && !('a' <= c <= 'z') ==> upper@ == seq![c],
{
    c.to_uppercase().collect::<String>()
}

/// One `_`-separated word with its first character uppercased.
pub open spec fn capitalized(word: Seq<char>) -> Seq<char> {
    if word.len() == 0 {
        Seq::empty()
    } else {
        uppercase_of(word[0]) + word.drop_first()
    }
}

/// The words of `words` capitalized and joined.
pub open spec fn camel_words(words: Seq<Seq<char>>) -> Seq<char>
    decreases words.len(),
{
    if words.len() == 0 {
        Seq::empty()
    } else {
        camel_words(words.drop_last()) + capitalized(words.last())
    }
}

/// `snake_case` to `UpperCamelCase`: each `_`-separated word capitalized, the
/// underscores dropped.
pub open spec fn upper_camel_of(snake: Seq<char>) -> Seq<char> {
    camel_words(split_on(snake, '_'))
}

/// Whether every character of `s` is ASCII.
pub open spec fn all_ascii(s: Seq<char>) -> bool {
    forall|i: int| 0 <= i < s.len() ==> (#[trigger] s[i] as u32) < 128
}

/// `c` as an ASCII capital when it is an ASCII lowercase letter, else `c`.
pub open spec fn ascii_upper(c: char) -> char {
    if 'a' <= c <= 'z' {
        ((c as u32) - 32) as char
    } else {
        c
    }
}

/// [`capitalized`] for an ASCII word: its first letter as a capital.
pub open spec fn ascii_capitalized(word: Seq<char>) -> Seq<char> {
    if word.len() == 0 {
        Seq::empty()
    } else {
        seq![ascii_upper(word[0])] + word.drop_first()
    }
}

/// [`camel_words`] for ASCII words.
pub open spec fn ascii_camel_words(words: Seq<Seq<char>>) -> Seq<char>
    decreases words.len(),
{
    if words.len() == 0 {
        Seq::empty()
    } else {
        ascii_camel_words(words.drop_last()) + ascii_capitalized(words.last())
    }
}

/// The pieces of an ASCII string split on a separator are ASCII.
proof fn lemma_split_on_ascii(s: Seq<char>, sep: char)
    requires
        all_ascii(s),
    ensures
        forall|k: int| 0 <= k < split_on(s, sep).len() ==> all_ascii(#[trigger] split_on(s, sep)[k]),
    decreases s.len(),
{
    lemma_find_char_bounds(s, sep);
    let i = find_char(s, sep);
    if i >= 0 {
        let rest = s.skip(i + 1);
        assert(all_ascii(rest)) by {
            assert forall|j: int| 0 <= j < rest.len() implies (#[trigger] rest[j] as u32) < 128 by {
                assert(rest[j] == s[j + i + 1]);
            }
        }
        lemma_split_on_ascii(rest, sep);
        let head = s.take(i);
        assert(all_ascii(head)) by {
            assert forall|j: int| 0 <= j < head.len() implies (#[trigger] head[j] as u32) < 128 by {
                assert(head[j] == s[j]);
            }
        }
        let parts = split_on(s, sep);
        assert(parts == seq![head] + split_on(rest, sep));
        assert forall|k: int| 0 <= k < parts.len() implies all_ascii(#[trigger] parts[k]) by {
            if k > 0 {
                assert(parts[k] == split_on(rest, sep)[k - 1]);
            }
        }
    }
}

/// `snake_case` to `UpperCamelCase`. An ASCII name gets its words' first
/// letters as ASCII capitals and keeps everything else.
pub fn upper_camel(snake: &str) -> (camel: String)
    ensures
        camel@ == upper_camel_of(snake@),
        all_ascii(snake@) ==> camel@ == ascii_camel_words(split_on(snake@, '_')),
{
    let words = split(&chars_of(snake), '_');
    let ghost all = views(words@);
    proof {
        if all_ascii(snake@) {
            lemma_split_on_ascii(snake@, '_');
        }
    }
    let mut out: Vec<char> = Vec::new();
    let mut i: usize = 0;
    assert(all.take(0) == Seq::<Seq<char>>::empty());
    while i < words.len()
        invariant
            i <= words@.len(),
            all == views(words@),
            all == split_on(snake@, '_'),
            out@ == camel_words(all.take(i as int)),
            all_ascii(snake@) ==> forall|k: int| 0 <= k < all.len() ==> all_ascii(#[trigger] all[k]),
            all_ascii(snake@) ==> out@ == ascii_camel_words(all.take(i as int)),
        decreases words@.len() - i,
    {
        let word = &words[i];
        assert(all[i as int] == word@);
        assert(all.take(i + 1).drop_last() == all.take(i as int));
        if word.len() > 0 {
            let upper = char_to_uppercase(word[0]);
            let ghost up = upper@;
            proof {
                if all_ascii(snake@) {
                    assert(all_ascii(all[i as int]));
                    assert((word@[0] as u32) < 128);
                    assert(up == seq![ascii_upper(word@[0])]);
                }
            }
            let mut first = chars_of(upper.as_str());
            out.append(&mut first);
            let mut k: usize = 1;
            while k < word.len()
                invariant
                    1 <= k <= word@.len(),
                    up == uppercase_of(word@[0]),
                    out@ == camel_words(all.take(i as int)) + up + word@.subrange(1, k as int),
                decreases word@.len() - k,
            {
                out.push(word[k]);
                k = k + 1;
                assert(word@.subrange(1, k as int) == word@.subrange(1, k - 1).push(word@[k - 1]));
            }
            assert(word@.subrange(1, word@.len() as int) == word@.drop_first());
        }
        i = i + 1;
    }
    assert(all.take(words@.len() as int) == all);
    string_of(&out)
}

/// The name of a `*_device` function without its `_device` suffix, if it has
/// one.
pub open spec fn device_base(name: Seq<char>) -> Option<Seq<char>> {
    if has_suffix(name, "_device"@) {
        Some(name.take(name.len() - 7))
    } else {
        None
    }
}

/// The name of the twin that supplies the default stream: the `*_device`
/// function's name without `_device`.
///
/// # Errors
///
/// The attribute's complaint about a name that does not end in `_device`.
pub fn twin_name(device_name: &str) -> (out: Result<String, String>)
    ensures
        match device_base(device_name@) {
            Some(base) => out is Ok && out->Ok_0@ == base,
            None => out is Err && out->Err_0@ == "#[default_device] requires a name ending in `_device`"@,
        },
{
    let name = chars_of(device_name);
    let suffix = chars_of("_device");
    proof {
        reveal_strlit("_device");
    }
    if ends_with(&name, &suffix) {
        Ok(string_of(&prefix_of(&name, name.len() - 7)))
    } else {
        Err(string_of(&chars_of("#[default_device] requires a name ending in `_device`")))
    }
}

/// The name a named-argument macro is exported under: the `*_device`
/// function's name without `_device`.
///
/// # Errors
///
/// The attribute's complaint about a name that does not end in `_device`.
pub fn macro_name(device_name: &str) -> (out: Result<String, String>)
    ensures
        match device_base(device_name@) {
            Some(base) => out is Ok && out->Ok_0@ == base,
            None => out is Err && out->Err_0@ == "#[generate_macro] requires a name ending in `_device`"@,
        },
{
    let name = chars_of(device_name);
    let suffix = chars_of("_device");
    proof {
        reveal_strlit("_device");
    }
    if ends_with(&name, &suffix) {
        Ok(string_of(&prefix_of(&name, name.len() - 7)))
    } else {
        Err(string_of(&chars_of("#[generate_macro] requires a name ending in `_device`")))
    }
}

/// The name of the hidden struct that carries a named-argument macro's
/// optional arguments: the op's name in `UpperCamelCase`, then `Args`.
pub fn args_struct_name(base_name: &str) -> (name: String)
    ensures
        name@ == upper_camel_of(base_name@) + "Args"@,
{
    let camel = upper_camel(base_name);
    let mut out = chars_of(camel.as_str());
    let mut tail = chars_of("Args");
    out.append(&mut tail);
    string_of(&out)
}

/// Whether an attribute on a `*_device` function must be repeated on its twin:
/// documentation, `cfg`, lint levels and `must_use`.
pub open spec fn forwarded(attr: Seq<char>) -> bool {
    attr == "doc"@ || attr == "cfg"@ || attr == "allow"@ || attr == "expect"@ || attr
        == "must_use"@
}

/// Whether the attribute named `attr` carries over to the twin.
pub fn is_forwarded_attr(attr: &str) -> (b: bool)
    ensures
        b == forwarded(attr@),
{
    let name = chars_of(attr);
    same_chars(&name, &chars_of("doc")) || same_chars(&name, &chars_of("cfg")) || same_chars(
        &name,
        &chars_of("allow"),
    ) || same_chars(&name, &chars_of("expect")) || same_chars(&name, &chars_of("must_use"))
}

/// Why a `*_device` function's parameters do not fit the twin, if they do not:
/// there must be a last parameter, and it must be named `stream`.
pub open spec fn stream_param_problem(params: Seq<Seq<char>>) -> Option<Seq<char>> {
    if params.len() == 0 {
        Some("#[default_device] requires a trailing `stream` parameter"@)
    } else if params.last() != "stream"@ {
        Some("#[default_device] requires the last parameter to be named `stream`"@)
    } else {
        None
    }
}

/// Check that the parameters (by name, receiver excluded) end in `stream`.
pub fn check_stream_param(params: &Vec<String>) -> (out: Result<(), String>)
    ensures
        match stream_param_problem(params@.map_values(|p: String| p@)) {
            None => out is Ok,
            Some(message) => out is Err && out->Err_0@ == message,
        },
{
    if params.len() == 0 {
        return Err(string_of(&chars_of("#[default_device] requires a trailing `stream` parameter")));
    }
    let last = chars_of(params[params.len() - 1].as_str());
    assert(params@.map_values(|p: String| p@).last() == params@[params@.len() - 1]@);
    if !same_chars(&last, &chars_of("stream")) {
        return Err(string_of(&chars_of("#[default_device] requires the last parameter to be named `stream`")));
    }
    Ok(())
}

/// The names in `names` joined by `` "`, `" ``.
pub open spec fn joined_names(names: Seq<Seq<char>>) -> Seq<char>
    decreases names.len(),
{
    if names.len() == 0 {
        Seq::empty()
    } else if names.len() == 1 {
        names[0]
    } else {
        joined_names(names.drop_last()) + "`, `"@ + names.last()
    }
}

/// The documentation of a named-argument macro.
pub open spec fn macro_doc_text(base: Seq<char>, optional: Seq<Seq<char>>) -> Seq<char> {
    "Call [`"@ + base + "`] with named optional arguments, in any order: `"@ + joined_names(optional)
        + "`.\n\nRequired arguments stay positional. Exported at the crate root, so it is `crate::"@
        + base + "!`."@
}

/// The documentation of the named-argument macro for `base_name`, whose
/// optional parameters are `optional`.
pub fn macro_doc(base_name: &str, optional: &Vec<String>) -> (doc: String)
    ensures
        doc@ == macro_doc_text(base_name@, optional@.map_values(|p: String| p@)),
{
    let ghost names = optional@.map_values(|p: String| p@);
    let mut joined: Vec<char> = Vec::new();
    let mut i: usize = 0;
    assert(names.take(0) == Seq::<Seq<char>>::empty());
    while i < optional.len()
        invariant
            i <= optional@.len(),
            names == optional@.map_values(|p: String| p@),
            joined@ == joined_names(names.take(i as int)),
        decreases optional@.len() - i,
    {
        assert(names.take(i + 1).drop_last() == names.take(i as int));
        assert(names[i as int] == optional@[i as int]@);
        if i > 0 {
            let mut sep = chars_of("`, `");
            joined.append(&mut sep);
        }
        let mut name = chars_of(optional[i].as_str());
        joined.append(&mut name);
        i = i + 1;
    }
    assert(names.take(optional@.len() as int) == names);
    let mut out = chars_of("Call [`");
    let mut base = chars_of(base_name);
    out.append(&mut base);
    let mut middle = chars_of("`] with named optional arguments, in any order: `");
    out.append(&mut middle);
    out.append(&mut joined);
    let mut after = chars_of("`.\n\nRequired arguments stay positional. Exported at the crate root, so it is `crate::");
    out.append(&mut after);
    let mut base_again = chars_of(base_name);
    out.append(&mut base_again);
    let mut end = chars_of("!`.");
    out.append(&mut end);
    string_of(&out)
}

} // verus!
