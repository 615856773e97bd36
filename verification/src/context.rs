//! The parameters of a build.
//!
//! Parameters come from two places: a JSON document, whose top-level members
//! each become a parameter, and a line of `KEY=VALUE` pairs separated by
//! commas. Where both name the same parameter, the pair wins.
//!
//! The parameters are kept in the templating engine's own [`Context`].
//! Contracts speak of it through [`context_entries`].

use serde_json::Value;
use tera::Context;
use vstd::prelude::*;
use vstd::string::*;

verus! {

/// The engine's parameter collection, `tera::Context`. Verus sees nothing
/// inside it.
#[verifier::external_type_specification]
#[verifier::external_body]
pub struct ExContext(tera::Context);

/// The engine's error, `tera::Error`. Verus sees nothing inside it.
#[verifier::external_type_specification]
#[verifier::external_body]
pub struct ExEngineError(tera::Error);

/// A parsed JSON value, `serde_json::Value`. Verus sees nothing inside it.
#[verifier::external_type_specification]
#[verifier::external_body]
pub struct ExValue(serde_json::Value);

/// The JSON parser's error, `serde_json::Error`. Verus sees nothing inside
/// it.
#[verifier::external_type_specification]
#[verifier::external_body]
pub struct ExJsonError(serde_json::Error);

/// What a context holds: under the name of each parameter, the compact JSON
/// text of its value.
pub uninterp spec fn context_entries(context: Context) -> Map<Seq<char>, Seq<char>>;

/// The compact JSON text of the string `text`: what stands in a context for a
/// parameter whose value is that string.
pub uninterp spec fn json_string(text: Seq<char>) -> Seq<char>;

/// What a JSON object holds: under the name of each member, the compact JSON
/// text of the member. `None` for a value that is no object.
pub uninterp spec fn value_members(value: Value) -> Option<Map<Seq<char>, Seq<char>>>;

/// The members of the JSON object that `text` spells out, as
/// [`value_members`] gives them. `None` where `text` is not JSON, or is JSON
/// but no object.
pub uninterp spec fn json_object(text: Seq<char>) -> Option<Map<Seq<char>, Seq<char>>>;

/// No parameters at all.
pub open spec fn no_entries() -> Map<Seq<char>, Seq<char>> {
    Map::empty()
}

/// Calls `tera::Context::new`, which makes a context without parameters.
#[verifier::external_body]
pub(crate) fn new_context() -> (made: Context)
    ensures
        context_entries(made) == no_entries(),
{
    Context::new()
}

/// Calls `tera::Context::insert` with a string as the value: the context
/// then holds that string under `key`, in place of what it held there, and
/// is unchanged under every other name.
#[verifier::external_body]
fn insert_text(context: &mut Context, key: &str, value: &str)
    ensures
        context_entries(*final(context)) == context_entries(*old(context)).insert(
            key@,
            json_string(value@),
        ),
{
    context.insert(key, value);
}

/// Calls `tera::Context::extend`, which moves every parameter of `source`
/// into `context` and overwrites those that `context` held under the same
/// name.
#[verifier::external_body]
fn extend_context(context: &mut Context, source: Context)
    ensures
        context_entries(*final(context)) == context_entries(*old(context)).union_prefer_right(
            context_entries(source),
        ),
{
    context.extend(source);
}

/// Calls `serde_json::from_str` for a `serde_json::Value`. It fails where
/// `text` is not JSON; what it returns otherwise depends on `text` alone.
#[verifier::external_body]
fn parse_json(text: &str) -> (parsed: Result<Value, serde_json::Error>)
    ensures
        match parsed {
            Ok(value) => value_members(value) == json_object(text@),
            Err(_) => json_object(text@) is None,
        },
{
    serde_json::from_str(text)
}

/// Calls `tera::Context::from_value`, which turns a JSON object into a
/// context of its members and fails for every other value.
#[verifier::external_body]
fn context_from_value(value: Value) -> (made: Result<Context, tera::Error>)
    ensures
        match made {
            Ok(context) => value_members(value) == Some(context_entries(context)),
            Err(_) => value_members(value) is None,
        },
{
    Context::from_value(value)
}

/// The number of characters of `text` that stand before the first `mark`:
/// the length of `text` where it holds none.
pub open spec fn position(text: Seq<char>, mark: char) -> nat
    decreases text.len(),
{
    if text.len() == 0 || text[0] == mark {
        0
    } else {
        1 + position(text.skip(1), mark)
    }
}

/// The key and the value that the segment `KEY=VALUE` gives: it is cut at
/// its first `=`. `None` for a segment without `=` or without a key.
pub open spec fn pair_of(segment: Seq<char>) -> Option<(Seq<char>, Seq<char>)> {
    let cut = position(segment, '=');
    if cut == 0 || cut == segment.len() {
        None
    } else {
        Some((segment.take(cut as int), segment.skip(cut as int + 1)))
    }
}

/// `base` after the segment `KEY=VALUE` was read: the value stands under the
/// key as a string. A malformed segment leaves `base` as it is.
pub open spec fn with_pair(base: Map<Seq<char>, Seq<char>>, segment: Seq<char>) -> Map<
    Seq<char>,
    Seq<char>,
> {
    match pair_of(segment) {
        Some((key, value)) => base.insert(key, json_string(value)),
        None => base,
    }
}

/// `base` after every segment of `text` was read, from left to right. The
/// segments of `text` are what stands between its commas.
pub open spec fn with_pairs(base: Map<Seq<char>, Seq<char>>, text: Seq<char>) -> Map<
    Seq<char>,
    Seq<char>,
>
    decreases text.len(),
{
    let cut = position(text, ',');
    let next = with_pair(base, text.take(cut as int));
    if cut < text.len() {
        with_pairs(next, text.skip(cut as int + 1))
    } else {
        next
    }
}

/// The parameters that a line of `KEY=VALUE` pairs gives. A later pair
/// replaces an earlier one with the same key.
pub open spec fn inline_entries(text: Seq<char>) -> Map<Seq<char>, Seq<char>> {
    with_pairs(no_entries(), text)
}

/// The parameters that a parameters file gives: the members of the JSON
/// object it holds. A file that could not be read, or that holds anything
/// but a JSON object, gives none.
pub open spec fn file_entries(content: Option<Seq<char>>) -> Map<Seq<char>, Seq<char>> {
    match content {
        Some(text) => match json_object(text) {
            Some(members) => members,
            None => no_entries(),
        },
        None => no_entries(),
    }
}

/// The parameters of a build, from those of the file and those given inline:
/// all of both, and the inline one where both have one of the same name.
pub open spec fn merged_entries(
    file: Map<Seq<char>, Seq<char>>,
    inline: Map<Seq<char>, Seq<char>>,
) -> Map<Seq<char>, Seq<char>> {
    file.union_prefer_right(inline)
}

/// `position` lies within the text, no `mark` stands before it, and one
/// stands at it unless it is the end.
pub proof fn lemma_position(text: Seq<char>, mark: char)
    ensures
        position(text, mark) <= text.len(),
        forall|i: int| 0 <= i < position(text, mark) ==> text[i] != mark,
        position(text, mark) < text.len() ==> text[position(text, mark) as int] == mark,
    decreases text.len(),
{
    if text.len() != 0 && text[0] != mark {
        let rest = text.skip(1);
        lemma_position(rest, mark);
        assert forall|i: int| 0 <= i < position(text, mark) implies text[i] != mark by {
            if i > 0 {
                assert(text[i] == rest[i - 1]);
            }
        }
        if position(text, mark) < text.len() {
            assert(text[position(text, mark) as int] == rest[position(rest, mark) as int]);
        }
    }
}

/// The first `mark` of a text stands where no `mark` stands before.
pub proof fn lemma_position_is(text: Seq<char>, mark: char, at: int)
    requires
        0 <= at <= text.len(),
        forall|i: int| 0 <= i < at ==> text[i] != mark,
        at < text.len() ==> text[at] == mark,
    ensures
        position(text, mark) == at,
{
    lemma_position(text, mark);
    let found = position(text, mark);
    if found < at {
        assert(text[found as int] == mark);
    } else if found > at {
        assert(text[at] != mark);
    }
}

/// With parameters from both places, the final context holds every name of
/// either; under a name that both have it holds the inline value, and under
/// every other name the value of the one that has it.
pub proof fn lemma_merge_precedence(
    file: Map<Seq<char>, Seq<char>>,
    inline: Map<Seq<char>, Seq<char>>,
    key: Seq<char>,
)
    ensures
        merged_entries(file, inline).contains_key(key) <==> file.contains_key(key)
            || inline.contains_key(key),
        inline.contains_key(key) ==> merged_entries(file, inline)[key] == inline[key],
        file.contains_key(key) && !inline.contains_key(key) ==> merged_entries(file, inline)[key]
            == file[key],
{
}

/// A text without a comma is a single segment.
pub proof fn lemma_single_segment(base: Map<Seq<char>, Seq<char>>, segment: Seq<char>)
    requires
        !segment.contains(','),
    ensures
        with_pairs(base, segment) == with_pair(base, segment),
{
    lemma_position(segment, ',');
    let cut = position(segment, ',');
    if cut < segment.len() {
        assert(segment.contains(segment[cut as int]));
    }
    assert(segment.take(cut as int) =~= segment);
}

/// Reading two texts with a comma between them is reading the first and then
/// the second.
pub proof fn lemma_with_pairs_concat(
    base: Map<Seq<char>, Seq<char>>,
    before: Seq<char>,
    after: Seq<char>,
)
    ensures
        with_pairs(base, before + seq![','] + after) == with_pairs(
            with_pairs(base, before),
            after,
        ),
    decreases before.len(),
{
    let text = before + seq![','] + after;
    lemma_position(before, ',');
    let cut = position(before, ',');
    assert forall|i: int| 0 <= i < cut implies text[i] != ',' by {
        assert(text[i] == before[i]);
    }
    if cut < before.len() {
        assert(text[cut as int] == before[cut as int]);
    }
    lemma_position_is(text, ',', cut as int);
    assert(text.take(cut as int) =~= before.take(cut as int));
    if cut < before.len() {
        let rest = before.skip(cut as int + 1);
        assert(text.skip(cut as int + 1) =~= rest + seq![','] + after);
        lemma_with_pairs_concat(with_pair(base, before.take(cut as int)), rest, after);
    } else {
        assert(text.skip(cut as int + 1) =~= after);
    }
}

/// A pair without `=`, or without a key, is dropped, and the pairs before
/// and after it in the same line are read as if it were not there.
pub proof fn lemma_malformed_pair_dropped(before: Seq<char>, bad: Seq<char>, after: Seq<char>)
    requires
        !bad.contains(','),
        pair_of(bad) is None,
    ensures
        inline_entries(before + seq![','] + bad + seq![','] + after) == inline_entries(
            before + seq![','] + after,
        ),
        inline_entries(bad + seq![','] + after) == inline_entries(after),
        inline_entries(before + seq![','] + bad) == inline_entries(before),
        inline_entries(bad) == no_entries(),
{
    let none = no_entries();
    let read = with_pairs(none, before);
    lemma_single_segment(none, bad);
    lemma_single_segment(read, bad);
    lemma_with_pairs_concat(none, before, bad);
    lemma_with_pairs_concat(none, bad, after);
    lemma_with_pairs_concat(none, before, after);
    lemma_with_pairs_concat(none, before + seq![','] + bad, after);
}

/// Where the first `mark` at or behind `from` stands in `text`: the length
/// of `text` where none does.
fn find(text: &str, from: usize, mark: char) -> (at: usize)
    requires
        from <= text@.len(),
    ensures
        at == from + position(text@.skip(from as int), mark),
        from <= at <= text@.len(),
{
    let len: usize = text.unicode_len();
    let mut at: usize = from;
    while at < len && text.get_char(at) != mark
        invariant
            from <= at <= len,
            len == text@.len(),
            forall|i: int| from <= i < at ==> text@[i] != mark,
        decreases len - at,
    {
        at += 1;
    }
    proof {
        lemma_position_is(text@.skip(from as int), mark, at - from);
    }
    at
}

/// Reads one `KEY=VALUE` segment into `context`.
fn read_pair(context: &mut Context, segment: &str)
    ensures
        context_entries(*final(context)) == with_pair(context_entries(*old(context)), segment@),
{
    let len: usize = segment.unicode_len();
    let cut: usize = find(segment, 0, '=');
    assert(segment@.skip(0) =~= segment@);
    if cut != 0 && cut != len {
        let key = segment.substring_char(0, cut);
        let value = segment.substring_char(cut + 1, len);
        insert_text(context, key, value);
    }
}

/// Parses parameters given as `KEY1=VALUE1,KEY2=VALUE2,...`.
///
/// The line is cut at every comma, and each segment at its first `=`. A
/// segment without `=` or without a key is skipped; the others are read from
/// left to right, each value as a string.
pub fn parse_parameters(parameters: &str) -> (context: Context)
    ensures
        context_entries(context) == inline_entries(parameters@),
{
    let len: usize = parameters.unicode_len();
    let mut context = new_context();
    let mut start: usize = 0;
    let mut done = false;
    assert(parameters@.skip(0) =~= parameters@);
    while !done
        invariant
            len == parameters@.len(),
            start <= len,
            !done ==> with_pairs(context_entries(context), parameters@.skip(start as int))
                == inline_entries(parameters@),
            done ==> context_entries(context) == inline_entries(parameters@),
        decreases len - start + (if done { 0int } else { 1int }),
    {
        let end: usize = find(parameters, start, ',');
        let ghost rest = parameters@.skip(start as int);
        assert(rest.take(end - start) =~= parameters@.subrange(start as int, end as int));
        read_pair(&mut context, parameters.substring_char(start, end));
        if end < len {
            assert(rest.skip(end - start + 1) =~= parameters@.skip(end + 1));
            start = end + 1;
        } else {
            done = true;
        }
    }
    context
}

/// The text of a parameters file as contracts see it.
pub open spec fn content_view(content: Option<&str>) -> Option<Seq<char>> {
    match content {
        Some(text) => Some(text@),
        None => None,
    }
}

/// Parses the content of a parameters file: a JSON object whose members each
/// become a parameter.
///
/// `None` stands for a file that could not be read. It counts as an empty
/// object, and so does a content that is no JSON object: neither is an
/// error.
pub fn parse_parameters_file(content: Option<&str>) -> (context: Context)
    ensures
        context_entries(context) == file_entries(content_view(content)),
{
    match content {
        Some(text) => match parse_json(text) {
            Ok(value) => match context_from_value(value) {
                Ok(context) => context,
                Err(_) => new_context(),
            },
            Err(_) => new_context(),
        },
        None => new_context(),
    }
}

/// Puts the parameters of the file and those given inline together. The
/// inline ones take precedence.
pub fn merge(file: Context, inline: Context) -> (merged: Context)
    ensures
        context_entries(merged) == merged_entries(context_entries(file), context_entries(inline)),
{
    let mut merged = file;
    extend_context(&mut merged, inline);
    merged
}

} // verus!
