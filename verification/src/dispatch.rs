//! Finding the programs that the command dispatcher hands over to, and
//! reading what they say of themselves.

use crate::text::chars_of;
use vstd::prelude::*;

verus! {

/// What the name of every program starts with.
pub open spec fn prefix() -> Seq<char> {
    seq!['x', 'e', 'n', 'u', '-']
}

/// Whether `text` starts with `start`.
pub open spec fn starts_with(text: Seq<char>, start: Seq<char>) -> bool {
    start.len() <= text.len() && text.take(start.len() as int) == start
}

/// Where the first `mark` stands in `text`; the length of `text` if there
/// is none.
pub open spec fn first(text: Seq<char>, mark: char) -> int
    decreases text.len(),
{
    if text.len() == 0 || text.first() == mark {
        0
    } else {
        1 + first(text.drop_first(), mark)
    }
}

/// The first line of `text`, without the line feed that ends it and
/// without a carriage return before that.
pub open spec fn first_line(text: Seq<char>) -> Seq<char> {
    let end = first(text, '\n');
    if 0 < end < text.len() && text[end - 1] == '\r' {
        text.take(end - 1)
    } else {
        text.take(end)
    }
}

/// What follows the first line of `text`.
pub open spec fn after_first_line(text: Seq<char>) -> Seq<char> {
    let end = first(text, '\n');
    if end < text.len() {
        text.skip(end + 1)
    } else {
        Seq::empty()
    }
}

/// What a program says of itself.
pub struct Listing {
    /// Its name, without the prefix.
    pub name: Vec<char>,
    /// Its version.
    pub version: Vec<char>,
    /// What it is about.
    pub about: Vec<char>,
}

/// What a program's help says of it, if the help is that of such a
/// program: its first line is the program's name, which starts with the
/// prefix, a space and the version; its second line says what the program
/// is about.
pub open spec fn listing(help: Seq<char>) -> Option<(Seq<char>, Seq<char>, Seq<char>)> {
    let title = first_line(help);
    let rest = after_first_line(help);
    let space = first(title, ' ');
    if help.len() > 0 && rest.len() > 0 && starts_with(title, prefix()) && space < title.len() {
        Some(
            (
                title.subrange(prefix().len() as int, space),
                title.skip(space + 1),
                first_line(rest),
            ),
        )
    } else {
        None
    }
}

/// The first `mark` stands within the text or at its end, and no `mark`
/// stands before it.
pub proof fn lemma_first(text: Seq<char>, mark: char)
    ensures
        0 <= first(text, mark) <= text.len(),
        first(text, mark) < text.len() ==> text[first(text, mark)] == mark,
        forall|i: int| 0 <= i < first(text, mark) ==> text[i] != mark,
    decreases text.len(),
{
    if text.len() > 0 && text.first() != mark {
        lemma_first(text.drop_first(), mark);
        assert forall|i: int| 0 <= i < first(text, mark) implies text[i] != mark by {
            if i > 0 {
                assert(text.drop_first()[i - 1] == text[i]);
            }
        }
    }
}

/// The place where no `mark` stands before and a `mark` stands, or the
/// text ends, is where the first `mark` stands.
pub proof fn lemma_first_is(text: Seq<char>, mark: char, at: int)
    requires
        0 <= at <= text.len(),
        at < text.len() ==> text[at] == mark,
        forall|i: int| 0 <= i < at ==> text[i] != mark,
    ensures
        first(text, mark) == at,
    decreases text.len(),
{
    if at > 0 {
        assert(text[0] != mark);
        lemma_first_is(text.drop_first(), mark, at - 1);
    }
}

fn find(text: &Vec<char>, from: usize, to: usize, mark: char) -> (out: usize)
    requires
        from <= to <= text@.len(),
    ensures
        from <= out <= to,
        out - from == first(text@.subrange(from as int, to as int), mark),
{
    let mut at: usize = from;
    while at < to && text[at] != mark
        invariant
            from <= at <= to <= text@.len(),
            forall|i: int| from <= i < at ==> text@[i] != mark,
        decreases to - at,
    {
        at = at + 1;
    }
    proof {
        lemma_first_is(text@.subrange(from as int, to as int), mark, at - from);
    }
    at
}

fn copy(text: &Vec<char>, from: usize, to: usize) -> (out: Vec<char>)
    requires
        from <= to <= text@.len(),
    ensures
        out@ == text@.subrange(from as int, to as int),
{
    let mut out: Vec<char> = Vec::new();
    let mut at: usize = from;
    while at < to
        invariant
            from <= at <= to <= text@.len(),
            out@ == text@.subrange(from as int, at as int),
        decreases to - at,
    {
        out.push(text[at]);
        proof {
            assert(out@ =~= text@.subrange(from as int, at + 1));
        }
        at = at + 1;
    }
    out
}

/// The end of the line that starts at `from`, and the start of what
/// follows it.
fn line(text: &Vec<char>, from: usize) -> (out: (usize, usize))
    requires
        from <= text@.len(),
    ensures
        from <= out.0 <= out.1 <= text@.len(),
        text@.subrange(from as int, out.0 as int) == first_line(text@.skip(from as int)),
        text@.skip(out.1 as int) == after_first_line(text@.skip(from as int)),
{
    let feed = find(text, from, text.len(), '\n');
    proof {
        assert(text@.subrange(from as int, text@.len() as int) =~= text@.skip(from as int));
        let tail = text@.skip(from as int);
        if feed < text@.len() {
            assert(tail.skip(feed - from + 1) =~= text@.skip(feed + 1));
        } else {
            assert(text@.skip(feed as int) =~= Seq::<char>::empty());
        }
        assert(tail.take(feed - from) =~= text@.subrange(from as int, feed as int));
        if feed > from {
            assert(tail.take(feed - from - 1) =~= text@.subrange(from as int, feed - 1));
            assert(tail[feed - from - 1] == text@[feed - 1]);
        }
    }
    let end = if feed > from && feed < text.len() && text[feed - 1] == '\r' {
        feed - 1
    } else {
        feed
    };
    let next = if feed < text.len() {
        feed + 1
    } else {
        feed
    };
    (end, next)
}

/// Whether a file of this name is one of the programs.
pub fn is_command(name: &str) -> (out: bool)
    ensures
        out == starts_with(name@, prefix()),
{
    let text = chars_of(name);
    let found = text.len() >= 5 && text[0] == 'x' && text[1] == 'e' && text[2] == 'n' && text[3]
        == 'u' && text[4] == '-';
    proof {
        if text@.len() >= 5 {
            assert(text@.take(5) =~= seq![text@[0], text@[1], text@[2], text@[3], text@[4]]);
        }
    }
    found
}

/// Reads what a program says of itself from its help.
pub fn describe(help: &str) -> (out: Option<Listing>)
    ensures
        match listing(help@) {
            Some((name, version, about)) => out is Some && out->0.name@ == name
                && out->0.version@ == version && out->0.about@ == about,
            None => out is None,
        },
{
    let text = chars_of(help);
    proof {
        assert(text@.skip(0) =~= text@);
    }
    let (title_end, rest) = line(&text, 0);
    if text.len() == 0 || rest >= text.len() {
        return None;
    }
    let (about_end, _) = line(&text, rest);
    let ghost title = text@.subrange(0, title_end as int);
    let named = title_end >= 5 && text[0] == 'x' && text[1] == 'e' && text[2] == 'n' && text[3]
        == 'u' && text[4] == '-';
    proof {
        if title_end >= 5 {
            assert(title.take(5) =~= seq![text@[0], text@[1], text@[2], text@[3], text@[4]]);
        }
    }
    if !named {
        return None;
    }
    let space = find(&text, 0, title_end, ' ');
    if space >= title_end {
        return None;
    }
    proof {
        lemma_first(title, ' ');
        assert(title.take(5) == prefix());
        assert(space >= 5) by {
            if space < 5 {
                assert(title[space as int] == ' ');
                assert(title.take(5)[space as int] == title[space as int]);
            }
        }
        assert(title.subrange(5, space as int) =~= text@.subrange(5, space as int));
        assert(title.skip(space + 1) =~= text@.subrange(space + 1, title_end as int));
    }
    Some(
        Listing {
            name: copy(&text, 5, space),
            version: copy(&text, space + 1, title_end),
            about: copy(&text, rest, about_end),
        },
    )
}

} // verus!
