//! What the browser asks of text: lower case for filter keys, and the lines
//! of a file for its preview.

use vstd::prelude::*;

verus! {

/// The lower-case form of `s` as Unicode defines it, without regard to any
/// locale.
pub uninterp spec fn lowercase_of(s: Seq<char>) -> Seq<char>;

/// Calls `str::to_lowercase` of std. Its result is the lower-case form of
/// the argument by the Unicode tables that std was built with; the contract
/// gives that form a name and claims nothing of its content.
#[verifier::external_body]
pub(crate) fn to_lowercase(s: &str) -> (r: String)
    ensures
        r@ == lowercase_of(s@),
{
    s.to_lowercase()
}

/// Whether `c` has the Unicode property `Uppercase`.
pub uninterp spec fn is_uppercase_char(c: char) -> bool;

/// Calls `char::is_uppercase` of std. The contract gives its answer a name
/// and claims nothing more.
#[verifier::external_body]
pub(crate) fn is_uppercase(c: char) -> (r: bool)
    ensures
        r == is_uppercase_char(c),
{
    c.is_uppercase()
}

/// Calls `String::push` of std, which appends one character.
#[verifier::external_body]
pub(crate) fn push_char(s: &mut String, c: char)
    ensures
        final(s)@ == old(s)@.push(c),
{
    s.push(c)
}

/// The key under which the filter finds an entry named `name`: the code
/// points of the name in lower case.
pub open spec fn key_of(name: Seq<char>) -> Seq<u32> {
    lowercase_of(name).map_values(|c: char| c as u32)
}

/// Computes the filter key of a name.
pub fn entry_key(name: &str) -> (r: Vec<u32>)
    ensures
        r@ == key_of(name@),
{
    let low = to_lowercase(name);
    let mut out: Vec<u32> = Vec::new();
    for c in it: low.as_str().chars()
        invariant
            it.seq() == low@,
            out@ == it.seq().take(it.index() as int).map_values(|c: char| c as u32),
    {
        out.push(c as u32);
    }
    out
}

/// The lines of `text`: the pieces between its line feeds. A text with `k`
/// line feeds has `k + 1` lines, some of which may be empty.
pub open spec fn split_lines(text: Seq<char>) -> Seq<Seq<char>>
    decreases text.len(),
{
    if text.len() == 0 {
        seq![Seq::empty()]
    } else {
        let before = split_lines(text.drop_last());
        if text.last() == '\n' {
            before.push(Seq::empty())
        } else {
            before.update(before.len() - 1, before.last().push(text.last()))
        }
    }
}

/// `lines` put together again, a line feed between each two.
pub open spec fn join_lines(lines: Seq<Seq<char>>) -> Seq<char>
    decreases lines.len(),
{
    if lines.len() == 0 {
        Seq::empty()
    } else if lines.len() == 1 {
        lines[0]
    } else {
        join_lines(lines.drop_last()) + seq!['\n'] + lines.last()
    }
}

/// Splitting loses nothing and cuts at every line feed: the lines of a
/// text, joined by line feeds, are the text again; there is at least one
/// line; and no line holds a line feed.
pub proof fn lemma_split_lines(text: Seq<char>)
    ensures
        split_lines(text).len() >= 1,
        join_lines(split_lines(text)) == text,
        forall|i: int, j: int|
            0 <= i < split_lines(text).len() && 0 <= j < split_lines(text)[i].len()
                ==> #[trigger] split_lines(text)[i][j] != '\n',
    decreases text.len(),
{
    if text.len() > 0 {
        let head = text.drop_last();
        let before = split_lines(head);
        lemma_split_lines(head);
        let after = split_lines(text);
        if text.last() == '\n' {
            // a new, empty line after all the lines of `head`
            assert(after.drop_last() =~= before);
        } else if before.len() > 1 {
            // the last line of `head` grown by one character
            assert(after.drop_last() =~= before.drop_last());
            assert(join_lines(before) == join_lines(before.drop_last()) + seq!['\n']
                + before.last());
            assert(join_lines(after) =~= join_lines(before).push(text.last()));
        }
    }
}

/// Splits a text into its lines.
pub fn lines_of(text: &str) -> (r: Vec<String>)
    ensures
        r@.map_values(|l: String| l@) == split_lines(text@),
{
    let mut done: Vec<String> = Vec::new();
    let mut line: String = String::new();
    for c in it: text.chars()
        invariant
            it.seq() == text@,
            done@.map_values(|l: String| l@).push(line@) == split_lines(
                it.seq().take(it.index() as int),
            ),
    {
        let ghost k = it.index() as int;
        let ghost before = done@.map_values(|l: String| l@).push(line@);
        assert(text@.take(k + 1).drop_last() =~= text@.take(k));
        if c == '\n' {
            done.push(line);
            line = String::new();
        } else {
            push_char(&mut line, c);
            assert(done@.map_values(|l: String| l@).push(line@) =~= before.update(
                before.len() - 1,
                before.last().push(c),
            ));
        }
    }
    assert(text@.take(text@.len() as int) =~= text@);
    done.push(line);
    done
}

} // verus!
