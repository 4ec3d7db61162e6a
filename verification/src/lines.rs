//! Cutting a text at a separator and into lines, and the order on strings.

use crate::text::chars_of;
use vstd::prelude::*;
use vstd::string::*;

verus! {

/// The pieces of `text` between the separators `separator`: one more than
/// there are separators, empty ones among them.
pub open spec fn split(text: Seq<char>, separator: char) -> Seq<Seq<char>>
    decreases text.len(),
{
    match text.index_of_first(separator) {
        None => seq![text],
        Some(at) => if 0 <= at < text.len() {
            seq![text.take(at)] + split(text.skip(at + 1), separator)
        } else {
            seq![text]
        },
    }
}

/// `line` without one carriage return at its end.
pub open spec fn without_carriage_return(line: Seq<char>) -> Seq<char> {
    if line.len() > 0 && line.last() == '\r' {
        line.drop_last()
    } else {
        line
    }
}

/// The lines of `text`. A line ends with a line feed, or with a carriage
/// return and a line feed, neither of which belongs to it; what follows the
/// last line feed is a line too, unless it is empty.
pub open spec fn lines(text: Seq<char>) -> Seq<Seq<char>>
    decreases text.len(),
{
    if text.len() == 0 {
        Seq::empty()
    } else {
        match text.index_of_first('\n') {
            None => seq![text],
            Some(at) => if 0 <= at < text.len() {
                seq![without_carriage_return(text.take(at))] + lines(text.skip(at + 1))
            } else {
                seq![text]
            },
        }
    }
}

/// The place of the first `c` in `chars` at or after `from`.
fn find_from(chars: &Vec<char>, from: usize, c: char) -> (found: Option<usize>)
    requires
        from <= chars.len(),
    ensures
        match found {
            Some(at) => from <= at < chars.len() && chars@.skip(from as int).index_of_first(c)
                == Some(at - from),
            None => chars@.skip(from as int).index_of_first(c) is None,
        },
{
    let ghost rest = chars@.skip(from as int);
    let mut i: usize = from;
    while i < chars.len()
        invariant
            from <= i <= chars.len(),
            rest == chars@.skip(from as int),
            forall|j: int| 0 <= j < i - from ==> rest[j] != c,
        decreases chars.len() - i,
    {
        if chars[i] == c {
            proof {
                assert(rest[i - from] == c);
                assert(rest.contains(c));
                rest.index_of_first_ensures(c);
            }
            return Some(i);
        }
        assert(rest[i - from] == chars@[i as int]);
        i += 1;
    }
    proof {
        rest.index_of_first_ensures(c);
    }
    None
}

/// Cuts `text` at each `separator`, as [`split`] says.
pub fn split_at(text: &str, separator: char) -> (pieces: Vec<String>)
    ensures
        pieces.deep_view() == split(text@, separator),
{
    let chars = chars_of(text);
    let mut pieces: Vec<String> = Vec::new();
    let mut from: usize = 0;
    assert(pieces.deep_view() =~= Seq::<Seq<char>>::empty());
    assert(text@.skip(0) =~= text@);
    loop
        invariant
            from <= chars.len(),
            chars@ == text@,
            split(text@, separator) == pieces.deep_view() + split(
                text@.skip(from as int),
                separator,
            ),
        decreases chars.len() - from,
    {
        let ghost done = pieces.deep_view();
        let ghost rest = text@.skip(from as int);
        proof {
            rest.index_of_first_ensures(separator);
        }
        match find_from(&chars, from, separator) {
            Some(at) => {
                let piece = String::from_str(text.substring_char(from, at));
                assert(piece@ =~= rest.take(at - from));
                assert(rest.skip(at - from + 1) =~= text@.skip(at + 1));
                pieces.push(piece);
                assert(pieces.deep_view() =~= done.push(piece@));
                assert(done.push(piece@) + split(text@.skip(at + 1), separator) =~= done + (
                seq![piece@] + split(text@.skip(at + 1), separator)));
                from = at + 1;
            },
            None => {
                let piece = String::from_str(text.substring_char(from, chars.len()));
                assert(piece@ =~= rest);
                pieces.push(piece);
                assert(pieces.deep_view() =~= done + seq![rest]);
                return pieces;
            },
        }
    }
}

/// Cuts `text` into its lines, as [`lines`] says.
pub fn lines_of(text: &str) -> (found: Vec<String>)
    ensures
        found.deep_view() == lines(text@),
{
    let chars = chars_of(text);
    let mut found: Vec<String> = Vec::new();
    let mut from: usize = 0;
    assert(found.deep_view() =~= Seq::<Seq<char>>::empty());
    assert(text@.skip(0) =~= text@);
    while from < chars.len()
        invariant
            from <= chars.len(),
            chars@ == text@,
            lines(text@) == found.deep_view() + lines(text@.skip(from as int)),
        decreases chars.len() - from,
    {
        let ghost done = found.deep_view();
        let ghost rest = text@.skip(from as int);
        proof {
            rest.index_of_first_ensures('\n');
        }
        match find_from(&chars, from, '\n') {
            Some(at) => {
                let end: usize = if at > from && chars[at - 1] == '\r' {
                    at - 1
                } else {
                    at
                };
                let line = String::from_str(text.substring_char(from, end));
                assert(rest.take(at - from) =~= text@.subrange(from as int, at as int));
                assert(line@ =~= without_carriage_return(rest.take(at - from)));
                assert(rest.skip(at - from + 1) =~= text@.skip(at + 1));
                found.push(line);
                assert(found.deep_view() =~= done.push(line@));
                assert(done.push(line@) + lines(text@.skip(at + 1)) =~= done + (seq![line@]
                    + lines(text@.skip(at + 1))));
                from = at + 1;
            },
            None => {
                let line = String::from_str(text.substring_char(from, chars.len()));
                assert(line@ =~= rest);
                found.push(line);
                assert(found.deep_view() =~= done + seq![rest]);
                assert(text@.skip(chars.len() as int).len() == 0);
                assert(done + seq![rest] + lines(text@.skip(chars.len() as int)) =~= done
                    + seq![rest]);
                from = chars.len();
            },
        }
    }
    assert(found.deep_view() + lines(text@.skip(from as int)) =~= found.deep_view());
    found
}

/// Whether `a` comes before `b` in the order of strings: at the first place
/// where they differ `a` has the smaller character, or `a` ends there and
/// `b` goes on.
pub open spec fn precedes(a: Seq<char>, b: Seq<char>) -> bool
    decreases a.len(),
{
    if b.len() == 0 {
        false
    } else if a.len() == 0 {
        true
    } else if a[0] != b[0] {
        a[0] < b[0]
    } else {
        precedes(a.drop_first(), b.drop_first())
    }
}

/// No string comes before itself.
pub proof fn precedes_is_strict(a: Seq<char>)
    ensures
        !precedes(a, a),
    decreases a.len(),
{
    if a.len() > 0 {
        precedes_is_strict(a.drop_first());
    }
}

/// Of two strings that differ, one comes before the other.
pub proof fn precedes_is_total(a: Seq<char>, b: Seq<char>)
    ensures
        a == b || precedes(a, b) || precedes(b, a),
    decreases a.len(),
{
    if a.len() == 0 && b.len() == 0 {
        assert(a =~= b);
    } else if a.len() == 0 {
        assert(precedes(a, b));
    } else if b.len() == 0 {
        assert(precedes(b, a));
    } else if a[0] == b[0] {
        precedes_is_total(a.drop_first(), b.drop_first());
        if a.drop_first() == b.drop_first() {
            assert(a =~= seq![a[0]] + a.drop_first());
            assert(b =~= seq![b[0]] + b.drop_first());
        } else if precedes(a.drop_first(), b.drop_first()) {
            assert(precedes(a, b));
        } else {
            assert(precedes(b, a));
        }
    } else {
        assert(precedes(a, b) || precedes(b, a));
    }
}

/// What comes before a string comes before all that comes after it.
pub proof fn precedes_is_transitive(a: Seq<char>, b: Seq<char>, c: Seq<char>)
    requires
        precedes(a, b),
        precedes(b, c),
    ensures
        precedes(a, c),
    decreases a.len(),
{
    if a.len() > 0 && a[0] == b[0] && b[0] == c[0] {
        precedes_is_transitive(a.drop_first(), b.drop_first(), c.drop_first());
    }
}

/// Decides [`precedes`].
pub fn comes_before(a: &str, b: &str) -> (before: bool)
    ensures
        before == precedes(a@, b@),
{
    let x = chars_of(a);
    let y = chars_of(b);
    let mut i: usize = 0;
    assert(a@.skip(0) =~= a@);
    assert(b@.skip(0) =~= b@);
    while i < x.len() && i < y.len()
        invariant
            i <= x.len(),
            i <= y.len(),
            x@ == a@,
            y@ == b@,
            precedes(a@, b@) == precedes(a@.skip(i as int), b@.skip(i as int)),
        decreases x.len() - i,
    {
        assert(a@.skip(i as int)[0] == x@[i as int]);
        assert(b@.skip(i as int)[0] == y@[i as int]);
        if x[i] != y[i] {
            return x[i] < y[i];
        }
        assert(a@.skip(i as int).drop_first() =~= a@.skip(i + 1));
        assert(b@.skip(i as int).drop_first() =~= b@.skip(i + 1));
        i += 1;
    }
    i < y.len()
}

} // verus!
