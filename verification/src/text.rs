//! Splitting a line of input at white space.

use vstd::prelude::*;
use vstd::string::{StrSliceExecFns, StringExecFns};

verus! {

/// The characters that Unicode gives the property White_Space.
pub open spec fn is_space(c: char) -> bool {
    ||| '\u{9}' <= c <= '\u{d}'
    ||| c == ' '
    ||| c == '\u{85}'
    ||| c == '\u{a0}'
    ||| c == '\u{1680}'
    ||| '\u{2000}' <= c <= '\u{200a}'
    ||| c == '\u{2028}'
    ||| c == '\u{2029}'
    ||| c == '\u{202f}'
    ||| c == '\u{205f}'
    ||| c == '\u{3000}'
}

/// `text` without the white space at its end.
pub open spec fn trim_end(text: Seq<char>) -> Seq<char>
    decreases text.len(),
{
    if text.len() == 0 || !is_space(text.last()) {
        text
    } else {
        trim_end(text.drop_last())
    }
}

/// `text` without the white space at its start.
pub open spec fn trim_start(text: Seq<char>) -> Seq<char>
    decreases text.len(),
{
    if text.len() == 0 || !is_space(text[0]) {
        text
    } else {
        trim_start(text.drop_first())
    }
}

/// `text` without the white space at its start and at its end.
pub open spec fn trimmed(text: Seq<char>) -> Seq<char> {
    trim_start(trim_end(text))
}

/// The words of `text`: its maximal runs of characters that are not white
/// space, in order.
pub open spec fn words(text: Seq<char>) -> Seq<Seq<char>>
    decreases text.len(),
{
    if text.len() == 0 {
        Seq::empty()
    } else {
        let before = words(text.drop_last());
        let c = text.last();
        if is_space(c) {
            before
        } else if text.len() >= 2 && !is_space(text[text.len() - 2]) {
            before.drop_last().push(before.last().push(c))
        } else {
            before.push(seq![c])
        }
    }
}

/// Whether `c` is white space.
pub fn is_whitespace(c: char) -> (space: bool)
    ensures
        space == is_space(c),
{
    ('\u{9}' <= c && c <= '\u{d}') || c == ' ' || c == '\u{85}' || c == '\u{a0}' || c
        == '\u{1680}' || ('\u{2000}' <= c && c <= '\u{200a}') || c == '\u{2028}' || c
        == '\u{2029}' || c == '\u{202f}' || c == '\u{205f}' || c == '\u{3000}'
}

/// `trim_end` cuts at the position behind the last character that is not
/// white space.
pub proof fn lemma_trim_end_is(text: Seq<char>, end: int)
    requires
        0 <= end <= text.len(),
        end > 0 ==> !is_space(text[end - 1]),
        forall|j: int| end <= j < text.len() ==> is_space(text[j]),
    ensures
        trim_end(text) == text.take(end),
    decreases text.len(),
{
    if end < text.len() {
        let rest = text.drop_last();
        lemma_trim_end_is(rest, end);
        assert(rest.take(end) =~= text.take(end));
    } else {
        assert(text.take(end) =~= text);
    }
}

/// `trim_start` cuts at the position of the first character that is not
/// white space.
pub proof fn lemma_trim_start_is(text: Seq<char>, start: int)
    requires
        0 <= start <= text.len(),
        start < text.len() ==> !is_space(text[start]),
        forall|j: int| 0 <= j < start ==> is_space(text[j]),
    ensures
        trim_start(text) == text.skip(start),
    decreases text.len(),
{
    if start > 0 {
        let rest = text.drop_first();
        assert forall|j: int| 0 <= j < start - 1 implies is_space(rest[j]) by {
            assert(rest[j] == text[j + 1]);
        }
        lemma_trim_start_is(rest, start - 1);
        assert(rest.skip(start - 1) =~= text.skip(start));
    } else {
        assert(text.skip(0) =~= text);
    }
}

/// `line` without the white space at its start and at its end.
pub fn trim(line: &str) -> (inner: &str)
    ensures
        inner@ == trimmed(line@),
{
    let n = line.unicode_len();
    let mut start: usize = 0;
    let mut end: usize = 0;
    let mut seen = false;
    let mut i: usize = 0;
    for c in it: line.chars()
        invariant
            it.seq() == line@,
            n == line@.len(),
            i == it.index(),
            i <= n,
            seen ==> start < end <= i && !is_space(line@[start as int]),
            !seen ==> start == 0 && end == 0,
            seen ==> forall|j: int| 0 <= j < start ==> is_space(line@[j]),
            end > 0 ==> !is_space(line@[end - 1]),
            forall|j: int| end <= j < i ==> is_space(line@[j]),
    {
        if !is_whitespace(c) {
            if !seen {
                seen = true;
                start = i;
            }
            end = i + 1;
        }
        i += 1;
    }
    proof {
        lemma_trim_end_is(line@, end as int);
        let cut = line@.take(end as int);
        if seen {
            assert forall|j: int| 0 <= j < start implies is_space(cut[j]) by {
                assert(cut[j] == line@[j]);
            }
            assert(cut[start as int] == line@[start as int]);
        }
        lemma_trim_start_is(cut, start as int);
        assert(cut.skip(start as int) =~= line@.subrange(start as int, end as int));
    }
    line.substring_char(start, end)
}

/// The words of `line`, each as the positions of its first character and
/// behind its last.
fn word_ranges(line: &str) -> (ranges: Vec<(usize, usize)>)
    ensures
        ranges@.len() == words(line@).len(),
        forall|k: int|
            0 <= k < ranges@.len() ==> {
                &&& (#[trigger] ranges@[k]).0 < ranges@[k].1 <= line@.len()
                &&& line@.subrange(ranges@[k].0 as int, ranges@[k].1 as int) == words(line@)[k]
            },
{
    let n = line.unicode_len();
    let mut ranges: Vec<(usize, usize)> = Vec::new();
    let mut start: usize = 0;
    let mut inside = false;
    let mut i: usize = 0;
    proof {
        assert(line@.take(0) =~= Seq::<char>::empty());
    }
    for c in it: line.chars()
        invariant
            it.seq() == line@,
            n == line@.len(),
            i == it.index(),
            i <= n,
            inside ==> start < i && !is_space(line@[i - 1]),
            !inside ==> i == 0 || is_space(line@[i - 1]),
            words(line@.take(i as int)).len() == ranges@.len() + if inside {
                1int
            } else {
                0int
            },
            inside ==> words(line@.take(i as int)).last() == line@.subrange(
                start as int,
                i as int,
            ),
            forall|k: int|
                0 <= k < ranges@.len() ==> {
                    &&& (#[trigger] ranges@[k]).0 < ranges@[k].1 <= i
                    &&& line@.subrange(ranges@[k].0 as int, ranges@[k].1 as int) == words(
                        line@.take(i as int),
                    )[k]
                },
    {
        let ghost before = line@.take(i as int);
        let ghost after = line@.take(i as int + 1);
        proof {
            assert(after.drop_last() =~= before);
            assert(after.last() == c);
            if i > 0 {
                assert(after[after.len() - 2] == line@[i - 1]);
            }
        }
        if is_whitespace(c) {
            if inside {
                ranges.push((start, i));
                inside = false;
            }
        } else {
            if !inside {
                start = i;
                inside = true;
                assert(line@.subrange(start as int, i as int + 1) =~= seq![c]);
            } else {
                assert(line@.subrange(start as int, i as int + 1) =~= line@.subrange(
                    start as int,
                    i as int,
                ).push(c));
            }
        }
        i += 1;
    }
    proof {
        assert(line@.take(n as int) =~= line@);
    }
    if inside {
        ranges.push((start, n));
    }
    ranges
}

/// The words of `line`: its maximal runs of characters that are not white
/// space, in order.
pub fn split_words(line: &str) -> (found: Vec<String>)
    ensures
        found.deep_view() == words(line@),
{
    let ranges = word_ranges(line);
    let mut found: Vec<String> = Vec::new();
    let mut k: usize = 0;
    while k < ranges.len()
        invariant
            k <= ranges@.len(),
            ranges@.len() == words(line@).len(),
            found@.len() == k,
            forall|j: int| 0 <= j < k ==> (#[trigger] found@[j])@ == words(line@)[j],
            forall|j: int|
                0 <= j < ranges@.len() ==> {
                    &&& (#[trigger] ranges@[j]).0 < ranges@[j].1 <= line@.len()
                    &&& line@.subrange(ranges@[j].0 as int, ranges@[j].1 as int) == words(
                        line@,
                    )[j]
                },
        decreases ranges@.len() - k,
    {
        let word = line.substring_char(ranges[k].0, ranges[k].1);
        found.push(String::from_str(word));
        k += 1;
    }
    assert(found.deep_view() =~= words(line@));
    found
}

} // verus!
