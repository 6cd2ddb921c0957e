//! Character-level text handling: white space, trimming, searching and
//! line splitting, each stated over `Seq<char>` and implemented over a
//! vector of characters.

use vstd::prelude::*;

verus! {

/// Appending one character to a `String` extends its view by that character.
pub assume_specification[ String::push ](s: &mut String, ch: char)
    ensures
        final(s)@ == old(s)@.push(ch),
;

/// Two string slices compare equal exactly when they hold the same characters.
pub assume_specification[ <str as PartialEq>::eq ](a: &str, b: &str) -> (r: bool)
    ensures
        r == (a@ == b@),
;

/// Whether `c` is one of the code points that Unicode gives the
/// `White_Space` property.
pub open spec fn is_white_space(c: char) -> bool {
    ||| c == ' '
    ||| ('\u{9}' <= c && c <= '\u{d}')
    ||| c == '\u{85}'
    ||| c == '\u{a0}'
    ||| c == '\u{1680}'
    ||| ('\u{2000}' <= c && c <= '\u{200a}')
    ||| c == '\u{2028}'
    ||| c == '\u{2029}'
    ||| c == '\u{202f}'
    ||| c == '\u{205f}'
    ||| c == '\u{3000}'
}

/// `s` without its leading white space.
pub open spec fn trim_start(s: Seq<char>) -> Seq<char>
    decreases s.len(),
{
    if s.len() > 0 && is_white_space(s.first()) {
        trim_start(s.drop_first())
    } else {
        s
    }
}

/// `s` without its trailing white space.
pub open spec fn trim_end(s: Seq<char>) -> Seq<char>
    decreases s.len(),
{
    if s.len() > 0 && is_white_space(s.last()) {
        trim_end(s.drop_last())
    } else {
        s
    }
}

/// `s` without leading and trailing white space.
pub open spec fn trim(s: Seq<char>) -> Seq<char> {
    trim_end(trim_start(s))
}

/// The position of the first `c` in `s`, or `s.len()` when `s` holds none.
pub open spec fn position_of(s: Seq<char>, c: char) -> int
    decreases s.len(),
{
    if s.len() == 0 || s.first() == c {
        0
    } else {
        1 + position_of(s.drop_first(), c)
    }
}

/// The lines of `s`: the stretches between line feeds. A line feed at the
/// very end closes the last line and opens no further one.
pub open spec fn lines(s: Seq<char>) -> Seq<Seq<char>>
    decreases s.len(),
{
    if s.len() == 0 {
        Seq::empty()
    } else {
        let end = position_of(s, '\n');
        if 0 <= end < s.len() {
            seq![s.take(end)] + lines(s.skip(end + 1))
        } else {
            seq![s]
        }
    }
}

/// The lines of `s`, each trimmed of surrounding white space.
pub open spec fn trimmed_lines(s: Seq<char>) -> Seq<Seq<char>> {
    lines(s).map_values(|line: Seq<char>| trim(line))
}

/// `position_of` is the least index that holds `c`.
pub proof fn lemma_position_of_is(s: Seq<char>, c: char, i: int)
    requires
        0 <= i <= s.len(),
        forall|j: int| 0 <= j < i ==> s[j] != c,
        i < s.len() ==> s[i] == c,
    ensures
        position_of(s, c) == i,
    decreases i,
{
    if i > 0 {
        let rest = s.drop_first();
        assert forall|j: int| 0 <= j < i - 1 implies rest[j] != c by {
            assert(rest[j] == s[j + 1]);
        }
        lemma_position_of_is(rest, c, i - 1);
    }
}

/// Dropping a run of leading white space that ends at a visible character,
/// or at the end, is what `trim_start` does.
pub proof fn lemma_trim_start_is(s: Seq<char>, k: int)
    requires
        0 <= k <= s.len(),
        forall|j: int| 0 <= j < k ==> is_white_space(s[j]),
        k < s.len() ==> !is_white_space(s[k]),
    ensures
        trim_start(s) == s.skip(k),
    decreases k,
{
    if k > 0 {
        let rest = s.drop_first();
        assert forall|j: int| 0 <= j < k - 1 implies is_white_space(rest[j]) by {
            assert(rest[j] == s[j + 1]);
        }
        lemma_trim_start_is(rest, k - 1);
        assert(rest.skip(k - 1) =~= s.skip(k));
    } else {
        assert(s.skip(0) =~= s);
    }
}

/// Dropping a run of trailing white space that begins after a visible
/// character, or at the start, is what `trim_end` does.
pub proof fn lemma_trim_end_is(s: Seq<char>, k: int)
    requires
        0 <= k <= s.len(),
        forall|j: int| k <= j < s.len() ==> is_white_space(s[j]),
        k > 0 ==> !is_white_space(s[k - 1]),
    ensures
        trim_end(s) == s.take(k),
    decreases s.len() - k,
{
    if k < s.len() {
        let rest = s.drop_last();
        lemma_trim_end_is(rest, k);
        assert(rest.take(k) =~= s.take(k));
    } else {
        assert(s.take(k) =~= s);
    }
}

/// Whether `a` and `b` hold the same characters.
pub fn same_text(a: &str, b: &str) -> (r: bool)
    ensures
        r == (a@ == b@),
{
    *a == *b
}

/// Whether `c` is white space.
pub fn is_white_space_char(c: char) -> (r: bool)
    ensures
        r == is_white_space(c),
{
    c == ' ' || ('\u{9}' <= c && c <= '\u{d}') || c == '\u{85}' || c == '\u{a0}' || c == '\u{1680}'
        || ('\u{2000}' <= c && c <= '\u{200a}') || c == '\u{2028}' || c == '\u{2029}' || c
        == '\u{202f}' || c == '\u{205f}' || c == '\u{3000}'
}

/// The characters of `text`, in order.
pub fn chars_of(text: &str) -> (chars: Vec<char>)
    ensures
        chars@ == text@,
{
    let mut chars: Vec<char> = Vec::new();
    for c in it: text.chars()
        invariant
            chars@ == it.seq().take(it.index() as int),
            it.seq() == text@,
    {
        chars.push(c);
    }
    chars
}

/// The characters `chars[from..to]` as a `String`.
pub fn string_of(chars: &Vec<char>, from: usize, to: usize) -> (text: String)
    requires
        from <= to <= chars.len(),
    ensures
        text@ == chars@.subrange(from as int, to as int),
{
    let mut text = String::new();
    let mut i: usize = from;
    while i < to
        invariant
            from <= i <= to <= chars.len(),
            text@ == chars@.subrange(from as int, i as int),
        decreases to - i,
    {
        text.push(chars[i]);
        i += 1;
        assert(text@ =~= chars@.subrange(from as int, i as int));
    }
    text
}

/// The first position in `chars[from..to]` that holds `c`, or `to`.
pub fn find_char(chars: &Vec<char>, from: usize, to: usize, c: char) -> (at: usize)
    requires
        from <= to <= chars.len(),
    ensures
        from <= at <= to,
        at - from == position_of(chars@.subrange(from as int, to as int), c),
{
    let mut at: usize = from;
    while at < to && chars[at] != c
        invariant
            from <= at <= to <= chars.len(),
            forall|j: int| from <= j < at ==> chars@[j] != c,
        decreases to - at,
    {
        at += 1;
    }
    proof {
        lemma_position_of_is(chars@.subrange(from as int, to as int), c, at - from);
    }
    at
}

/// The bounds of `chars[from..to]` once trimmed of surrounding white space.
pub fn trim_range(chars: &Vec<char>, from: usize, to: usize) -> (bounds: (usize, usize))
    requires
        from <= to <= chars.len(),
    ensures
        from <= bounds.0 <= bounds.1 <= to,
        chars@.subrange(bounds.0 as int, bounds.1 as int) == trim(
            chars@.subrange(from as int, to as int),
        ),
{
    let mut start: usize = from;
    while start < to && is_white_space_char(chars[start])
        invariant
            from <= start <= to <= chars.len(),
            forall|j: int| from <= j < start ==> is_white_space(chars@[j]),
        decreases to - start,
    {
        start += 1;
    }
    let mut end: usize = to;
    while end > start && is_white_space_char(chars[end - 1])
        invariant
            start <= end <= to <= chars.len(),
            forall|j: int| end <= j < to ==> is_white_space(chars@[j]),
        decreases end,
    {
        end -= 1;
    }
    proof {
        let whole = chars@.subrange(from as int, to as int);
        let tail = chars@.subrange(start as int, to as int);
        lemma_trim_start_is(whole, start - from);
        assert(whole.skip(start - from) =~= tail);
        lemma_trim_end_is(tail, end - start);
        assert(tail.take(end - start) =~= chars@.subrange(start as int, end as int));
    }
    (start, end)
}

/// Whether `chars[from..to]` begins with `prefix`.
pub fn starts_with(chars: &Vec<char>, from: usize, to: usize, prefix: &Vec<char>) -> (r: bool)
    requires
        from <= to <= chars.len(),
    ensures
        r == prefix@.is_prefix_of(chars@.subrange(from as int, to as int)),
{
    if prefix.len() > to - from {
        return false;
    }
    let mut i: usize = 0;
    while i < prefix.len()
        invariant
            from <= to <= chars.len(),
            i <= prefix.len() <= to - from,
            forall|j: int| 0 <= j < i ==> prefix@[j] == chars@[from + j],
        decreases prefix.len() - i,
    {
        if prefix[i] != chars[from + i] {
            proof {
                let row = chars@.subrange(from as int, to as int);
                assert(row.subrange(0, prefix@.len() as int)[i as int] == chars@[from + i]);
            }
            return false;
        }
        i += 1;
    }
    assert(prefix@ =~= chars@.subrange(from as int, to as int).subrange(0, prefix@.len() as int));
    true
}

/// The bounds of every line of `chars`, each trimmed of surrounding white
/// space, in order.
pub fn trimmed_line_ranges(chars: &Vec<char>) -> (ranges: Vec<(usize, usize)>)
    ensures
        ranges.len() == trimmed_lines(chars@).len(),
        forall|k: int|
            0 <= k < ranges.len() ==> {
                &&& (#[trigger] ranges[k]).0 <= ranges[k].1 <= chars.len()
                &&& chars@.subrange(ranges[k].0 as int, ranges[k].1 as int) == trimmed_lines(
                    chars@,
                )[k]
            },
{
    let mut ranges: Vec<(usize, usize)> = Vec::new();
    let ghost mut done: Seq<Seq<char>> = Seq::empty();
    let mut pos: usize = 0;
    proof {
        assert(chars@.skip(0) =~= chars@);
    }
    while pos < chars.len()
        invariant
            pos <= chars.len(),
            lines(chars@) == done + lines(chars@.skip(pos as int)),
            ranges.len() == done.len(),
            forall|k: int|
                0 <= k < ranges.len() ==> {
                    &&& (#[trigger] ranges[k]).0 <= ranges[k].1 <= chars.len()
                    &&& chars@.subrange(ranges[k].0 as int, ranges[k].1 as int) == trim(done[k])
                },
        decreases chars.len() - pos,
    {
        let end = find_char(chars, pos, chars.len(), '\n');
        let bounds = trim_range(chars, pos, end);
        let ghost rest = chars@.skip(pos as int);
        let ghost line = chars@.subrange(pos as int, end as int);
        proof {
            assert(rest =~= chars@.subrange(pos as int, chars.len() as int));
            assert(rest.take(end - pos) =~= line);
            if end < chars.len() {
                assert(rest.skip(end - pos + 1) =~= chars@.skip(end + 1));
                assert(done + (seq![line] + lines(chars@.skip(end + 1))) =~= done.push(line)
                    + lines(chars@.skip(end + 1)));
            } else {
                assert(rest =~= line);
                assert(lines(chars@.skip(chars.len() as int)) =~= Seq::<Seq<char>>::empty());
                assert(done + seq![line] =~= done.push(line) + Seq::<Seq<char>>::empty());
            }
            done = done.push(line);
        }
        ranges.push(bounds);
        pos = if end < chars.len() {
            end + 1
        } else {
            end
        };
    }
    proof {
        assert(lines(chars@.skip(pos as int)) =~= Seq::<Seq<char>>::empty());
        assert(lines(chars@) =~= done);
    }
    ranges
}

} // verus!
