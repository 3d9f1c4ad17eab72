//! Text handling: trimming, splitting into lines, and the list of watch targets
//! that a block of text names.

use vstd::prelude::*;
use vstd::std_specs::iter::IteratorSpec;
use vstd::string::StrSliceExecFns;

verus! {

/// Whether `c` is white space in the sense of Unicode, as `char::is_whitespace` reports it.
pub uninterp spec fn is_space(c: char) -> bool;

/// `char::is_whitespace` of std: the result says whether the character is white space
/// in the sense of Unicode, which depends on the character alone.
pub assume_specification[ char::is_whitespace ](c: char) -> (b: bool)
    ensures
        b == is_space(c),
;

/// `String::push` of std appends the given character to the end of the string.
pub assume_specification[ String::push ](s: &mut String, ch: char)
    ensures
        final(s)@ == old(s)@.push(ch),
;

/// Number of white-space characters at the front of `s`.
pub open spec fn leading_spaces(s: Seq<char>) -> nat
    decreases s.len(),
{
    if s.len() > 0 && is_space(s[0]) {
        1 + leading_spaces(s.skip(1))
    } else {
        0
    }
}

/// Number of white-space characters at the back of `s`.
pub open spec fn trailing_spaces(s: Seq<char>) -> nat
    decreases s.len(),
{
    if s.len() > 0 && is_space(s.last()) {
        1 + trailing_spaces(s.drop_last())
    } else {
        0
    }
}

/// `s` without the white space at its front and at its back.
pub open spec fn trim(s: Seq<char>) -> Seq<char> {
    let rest = s.skip(leading_spaces(s) as int);
    rest.take(rest.len() - trailing_spaces(rest))
}

/// Index of the first line feed in `s`, or `s.len()` where it holds none.
pub open spec fn first_break(s: Seq<char>) -> int
    decreases s.len(),
{
    if s.len() == 0 || s[0] == '\n' {
        0
    } else {
        1 + first_break(s.skip(1))
    }
}

/// A line as it stood before its line feed, without the carriage return of a `\r\n` ending.
pub open spec fn without_cr(line: Seq<char>) -> Seq<char> {
    if line.len() > 0 && line.last() == '\r' {
        line.drop_last()
    } else {
        line
    }
}

/// The lines of `s`. A line ends at a line feed, or at a carriage return followed by
/// a line feed; the ending is not part of the line. The last line needs no ending, and
/// a text that ends with a line ending has no empty line after it.
pub open spec fn lines(s: Seq<char>) -> Seq<Seq<char>>
    decreases s.len(),
{
    if s.len() == 0 {
        Seq::empty()
    } else {
        let k = first_break(s);
        if 0 <= k < s.len() {
            seq![without_cr(s.take(k))] + lines(s.skip(k + 1))
        } else {
            seq![s]
        }
    }
}

/// The predicate that holds of every line but the empty one.
pub open spec fn nonempty() -> spec_fn(Seq<char>) -> bool {
    |line: Seq<char>| line.len() > 0
}

/// The watch targets that `input` names: the non-empty lines of the trimmed text.
pub open spec fn targets_in(input: Seq<char>) -> Seq<Seq<char>> {
    lines(trim(input)).filter(nonempty())
}

/// Where every character before `a` is white space and the one at `a`, if any, is not,
/// `a` is the number of leading spaces.
pub proof fn lemma_leading_spaces(s: Seq<char>, a: int)
    requires
        0 <= a <= s.len(),
        forall|j: int| 0 <= j < a ==> is_space(#[trigger] s[j]),
        a < s.len() ==> !is_space(s[a]),
    ensures
        leading_spaces(s) == a,
    decreases a,
{
    if a > 0 {
        let t = s.skip(1);
        assert forall|j: int| 0 <= j < a - 1 implies is_space(#[trigger] t[j]) by {
            assert(t[j] == s[j + 1]);
        }
        lemma_leading_spaces(t, a - 1);
    }
}

/// Where every character from `b` on is white space and the one before `b`, if any,
/// is not, `s.len() - b` is the number of trailing spaces.
pub proof fn lemma_trailing_spaces(s: Seq<char>, b: int)
    requires
        0 <= b <= s.len(),
        forall|j: int| b <= j < s.len() ==> is_space(#[trigger] s[j]),
        b > 0 ==> !is_space(s[b - 1]),
    ensures
        trailing_spaces(s) == s.len() - b,
    decreases s.len() - b,
{
    if b < s.len() {
        let t = s.drop_last();
        assert forall|j: int| b <= j < t.len() implies is_space(#[trigger] t[j]) by {
            assert(t[j] == s[j]);
        }
        lemma_trailing_spaces(t, b);
    }
}

/// Where no character before `k` is a line feed and the one at `k`, if any, is one,
/// `k` is the first break.
pub proof fn lemma_first_break(s: Seq<char>, k: int)
    requires
        0 <= k <= s.len(),
        forall|j: int| 0 <= j < k ==> #[trigger] s[j] != '\n',
        k < s.len() ==> s[k] == '\n',
    ensures
        first_break(s) == k,
    decreases k,
{
    if k > 0 {
        let t = s.skip(1);
        assert forall|j: int| 0 <= j < k - 1 implies #[trigger] t[j] != '\n' by {
            assert(t[j] == s[j + 1]);
        }
        lemma_first_break(t, k - 1);
    }
}

/// The first break of a text stands in the text or at its end, no character before it
/// is a line feed, and the character at it, if any, is one.
pub proof fn lemma_first_break_is_first(s: Seq<char>)
    ensures
        0 <= first_break(s) <= s.len(),
        forall|j: int| 0 <= j < first_break(s) ==> #[trigger] s[j] != '\n',
        first_break(s) < s.len() ==> s[first_break(s)] == '\n',
    decreases s.len(),
{
    if s.len() > 0 && s[0] != '\n' {
        let t = s.skip(1);
        lemma_first_break_is_first(t);
        assert forall|j: int| 0 <= j < first_break(s) implies #[trigger] s[j] != '\n' by {
            if j > 0 {
                assert(s[j] == t[j - 1]);
            }
        }
        assert(first_break(t) < t.len() ==> t[first_break(t)] == s[first_break(s)]);
    }
}

/// No line of a text holds a line feed.
pub proof fn law_lines_hold_no_line_feed(s: Seq<char>)
    ensures
        forall|i: int, j: int|
            0 <= i < lines(s).len() && 0 <= j < lines(s)[i].len() ==> #[trigger] lines(s)[i][j]
                != '\n',
    decreases s.len(),
{
    if s.len() > 0 {
        lemma_first_break_is_first(s);
        let k = first_break(s);
        if k < s.len() {
            let rest = s.skip(k + 1);
            law_lines_hold_no_line_feed(rest);
            let first = without_cr(s.take(k));
            assert forall|i: int, j: int|
                0 <= i < lines(s).len() && 0 <= j < lines(s)[i].len() implies #[trigger] lines(
                s,
            )[i][j] != '\n' by {
                if i == 0 {
                    assert(first[j] == s[j]);
                } else {
                    assert(lines(s)[i] == lines(rest)[i - 1]);
                }
            }
        }
    }
}

/// Every watch target that a text names is a non-empty line of the trimmed text.
pub proof fn law_targets_are_nonempty(input: Seq<char>)
    ensures
        forall|i: int|
            0 <= i < targets_in(input).len() ==> (#[trigger] targets_in(input)[i]).len() > 0,
{
    let all = lines(trim(input));
    assert forall|i: int| 0 <= i < targets_in(input).len() implies (#[trigger] targets_in(
        input,
    )[i]).len() > 0 by {
        all.lemma_filter_pred(nonempty(), i);
    }
}

/// A copy of `text` without the white space at its front and at its back.
pub fn trim_text(text: &str) -> (out: String)
    ensures
        out@ == trim(text@),
{
    let n = text.unicode_len();
    // First pass: where the first and the last character that is no white space stand.
    let mut start: usize = 0;
    let mut end: usize = 0;
    let mut seen = false;
    let mut i: usize = 0;
    let mut it = text.chars();
    loop
        invariant
            n == text@.len(),
            i <= n,
            it.remaining() == text@.skip(i as int),
            !seen ==> start == 0 && end == 0 && forall|j: int|
                0 <= j < i ==> is_space(#[trigger] text@[j]),
            seen ==> start < end <= i && !is_space(text@[start as int]) && !is_space(
                text@[end - 1],
            ),
            seen ==> forall|j: int| 0 <= j < start ==> is_space(#[trigger] text@[j]),
            seen ==> forall|j: int| end <= j < i ==> is_space(#[trigger] text@[j]),
        ensures
            i == n,
        decreases n - i,
    {
        match it.next() {
            Some(c) => {
                proof {
                    assert(text@.skip(i as int).drop_first() =~= text@.skip(i + 1));
                }
                if !c.is_whitespace() {
                    if !seen {
                        start = i;
                        seen = true;
                    }
                    end = i + 1;
                }
                i = i + 1;
            },
            None => {
                break ;
            },
        }
    }
    if !seen {
        start = n;
        end = n;
    }
    proof {
        let s = text@;
        lemma_leading_spaces(s, start as int);
        let rest = s.skip(start as int);
        assert forall|j: int| end - start <= j < rest.len() implies is_space(
            #[trigger] rest[j],
        ) by {
            assert(rest[j] == s[j + start]);
        }
        lemma_trailing_spaces(rest, end - start);
        assert(trim(s) =~= s.subrange(start as int, end as int));
    }
    // Second pass: copy what lies between the two.
    let mut out = String::new();
    let mut k: usize = 0;
    let mut rest = text.chars();
    loop
        invariant
            n == text@.len(),
            start <= end <= n,
            k <= n,
            rest.remaining() == text@.skip(k as int),
            out@ == text@.subrange(start as int, if k < start {
                start as int
            } else if k < end {
                k as int
            } else {
                end as int
            }),
        ensures
            out@ == text@.subrange(start as int, end as int),
        decreases n - k,
    {
        match rest.next() {
            Some(c) => {
                proof {
                    assert(text@.skip(k as int).drop_first() =~= text@.skip(k + 1));
                }
                if start <= k && k < end {
                    out.push(c);
                    proof {
                        assert(text@.subrange(start as int, k + 1) =~= text@.subrange(
                            start as int,
                            k as int,
                        ).push(text@[k as int]));
                    }
                }
                k = k + 1;
            },
            None => {
                break ;
            },
        }
    }
    out
}

/// The lines of `text`, each as a string of its own.
pub fn split_lines(text: &str) -> (out: Vec<String>)
    ensures
        out.deep_view() == lines(text@),
{
    let mut out: Vec<String> = Vec::new();
    let mut cur = String::new();
    // A carriage return was read and is not in `cur` yet: a line feed may follow it.
    let mut held_cr = false;
    let mut open = false;
    let mut it = text.chars();
    let ghost mut i: int = 0;
    let ghost mut start: int = 0;
    proof {
        assert(out.deep_view() =~= Seq::<Seq<char>>::empty());
        assert(text@.skip(0) =~= text@);
    }
    loop
        invariant
            0 <= start <= i <= text@.len(),
            it.remaining() == text@.skip(i),
            open == (start < i),
            forall|j: int| start <= j < i ==> #[trigger] text@[j] != '\n',
            text@.subrange(start, i) == if held_cr {
                cur@.push('\r')
            } else {
                cur@
            },
            !held_cr && cur@.len() > 0 ==> cur@.last() != '\r',
            lines(text@) == out.deep_view() + lines(text@.skip(start)),
        decreases text@.len() - i,
    {
        let ghost before = out.deep_view();
        let ghost tail = text@.skip(start);
        match it.next() {
            Some(c) => {
                proof {
                    assert(text@.skip(i).drop_first() =~= text@.skip(i + 1));
                    assert(text@.subrange(start, i + 1) =~= text@.subrange(start, i).push(
                        text@[i],
                    ));
                }
                if c == '\n' {
                    proof {
                        assert forall|j: int| 0 <= j < i - start implies #[trigger] tail[j]
                            != '\n' by {
                            assert(tail[j] == text@[j + start]);
                        }
                        lemma_first_break(tail, i - start);
                        assert(tail.take(i - start) =~= text@.subrange(start, i));
                        assert(tail.skip(i - start + 1) =~= text@.skip(i + 1));
                        assert(without_cr(text@.subrange(start, i)) =~= cur@);
                    }
                    out.push(cur);
                    cur = String::new();
                    held_cr = false;
                    open = false;
                    proof {
                        assert(out.deep_view() =~= before.push(without_cr(tail.take(i - start))));
                        assert(before + (seq![without_cr(tail.take(i - start))] + lines(
                            text@.skip(i + 1),
                        )) =~= before.push(without_cr(tail.take(i - start))) + lines(
                            text@.skip(i + 1),
                        ));
                        start = i + 1;
                        assert(text@.subrange(start, start) =~= Seq::<char>::empty());
                    }
                } else {
                    if held_cr {
                        cur.push('\r');
                    }
                    if c == '\r' {
                        held_cr = true;
                    } else {
                        cur.push(c);
                        held_cr = false;
                    }
                    open = true;
                }
                proof {
                    i = i + 1;
                }
            },
            None => {
                if held_cr {
                    cur.push('\r');
                }
                proof {
                    assert(text@.subrange(start, i) =~= tail);
                    if start < i {
                        assert forall|j: int| 0 <= j < tail.len() implies #[trigger] tail[j]
                            != '\n' by {
                            assert(tail[j] == text@[j + start]);
                        }
                        lemma_first_break(tail, tail.len() as int);
                    }
                }
                if open {
                    out.push(cur);
                    proof {
                        assert(out.deep_view() =~= before + seq![tail]);
                    }
                } else {
                    proof {
                        assert(before + Seq::<Seq<char>>::empty() =~= before);
                    }
                }
                return out;
            },
        }
    }
}

/// The watch targets that `input` names: its non-empty lines, read after the white
/// space around the whole text is removed.
pub fn watch_targets(input: &str) -> (out: Vec<String>)
    ensures
        out.deep_view() == targets_in(input@),
        forall|i: int| 0 <= i < out.len() ==> (#[trigger] out[i])@.len() > 0,
{
    let trimmed = trim_text(input);
    let all = split_lines(trimmed.as_str());
    let mut out: Vec<String> = Vec::new();
    let mut i: usize = 0;
    proof {
        reveal(Seq::filter);
        assert(all.deep_view().take(0) =~= Seq::<Seq<char>>::empty());
        assert(out.deep_view() =~= Seq::<Seq<char>>::empty());
    }
    while i < all.len()
        invariant
            i <= all.len(),
            out.deep_view() == all.deep_view().take(i as int).filter(nonempty()),
        decreases all.len() - i,
    {
        let ghost before = out.deep_view();
        let ghost seen = all.deep_view().take(i as int);
        proof {
            reveal(Seq::filter);
            assert(all.deep_view().take(i + 1).drop_last() =~= seen);
            assert(all.deep_view().take(i + 1).last() == all[i as int]@);
        }
        if !all[i].as_str().is_empty() {
            out.push(all[i].clone());
            proof {
                assert(out.deep_view() =~= before.push(all[i as int]@));
            }
        }
        i = i + 1;
    }
    proof {
        assert(all.deep_view().take(all.len() as int) =~= all.deep_view());
        law_targets_are_nonempty(input@);
        assert forall|i: int| 0 <= i < out.len() implies (#[trigger] out[i])@.len() > 0 by {
            assert(out.deep_view()[i] == out[i]@);
        }
    }
    out
}

} // verus!
