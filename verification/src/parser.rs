//! Parsers that turn raw puzzle text into lines, blocks, characters and
//! numbers, with exact specifications of each splitting rule.

use vstd::prelude::*;

use crate::decimal::{
    char_to_digit, digit_char_val, int_literal_val, is_digit_char, parse_i32, valid_int_literal,
};
use crate::input::PuzzleInput;

verus! {

/// Index of the first character satisfying `p`, or -1 when none does.
pub open spec fn spec_find(s: Seq<char>, p: spec_fn(char) -> bool) -> int
    decreases s.len(),
{
    if s.len() == 0 {
        -1
    } else if p(s[0]) {
        0
    } else {
        let r = spec_find(s.skip(1), p);
        if r == -1 {
            -1
        } else {
            r + 1
        }
    }
}

/// The least index satisfying `p` is what `spec_find` returns.
pub proof fn lemma_find_unique(s: Seq<char>, p: spec_fn(char) -> bool, i: int)
    requires
        0 <= i < s.len(),
        p(s[i]),
        forall|k: int| 0 <= k < i ==> !p(#[trigger] s[k]),
    ensures
        spec_find(s, p) == i,
    decreases s.len(),
{
    if i > 0 {
        lemma_find_unique(s.skip(1), p, i - 1);
    }
}

/// When no character satisfies `p`, `spec_find` reports -1.
pub proof fn lemma_find_none(s: Seq<char>, p: spec_fn(char) -> bool)
    requires
        forall|k: int| 0 <= k < s.len() ==> !p(#[trigger] s[k]),
    ensures
        spec_find(s, p) == -1,
    decreases s.len(),
{
    if s.len() > 0 {
        lemma_find_none(s.skip(1), p);
    }
}

/// A trailing carriage return is dropped from a line split at a newline.
pub open spec fn strip_cr(s: Seq<char>) -> Seq<char> {
    if s.len() > 0 && s.last() == '\r' {
        s.drop_last()
    } else {
        s
    }
}

/// Whether a character is a newline.
pub open spec fn is_newline(c: char) -> bool {
    c == '\n'
}

/// The lines of a text: segments split at `'\n'`, each segment before a
/// newline losing a trailing `'\r'`, with no empty segment after a final
/// newline.
pub open spec fn spec_lines(s: Seq<char>) -> Seq<Seq<char>>
    decreases s.len(),
{
    if s.len() == 0 {
        Seq::empty()
    } else {
        let i = spec_find(s, |c: char| is_newline(c));
        if 0 <= i < s.len() {
            seq![strip_cr(s.take(i))] + spec_lines(s.skip(i + 1))
        } else {
            seq![s]
        }
    }
}

/// Finds the first `'\n'` at or after `from`.
fn find_newline(s: &str, from: usize, len: usize) -> (r: Option<usize>)
    requires
        from <= len,
        len == s@.len(),
    ensures
        match r {
            Some(j) => from <= j < len && is_newline(s@[j as int]) && (forall|k: int|
                from <= k < j ==> !is_newline(#[trigger] s@[k])),
            None => forall|k: int| from <= k < len ==> !is_newline(#[trigger] s@[k]),
        },
{
    let mut i: usize = from;
    while i < len
        invariant
            from <= i <= len,
            len == s@.len(),
            forall|k: int| from <= k < i ==> !is_newline(#[trigger] s@[k]),
        decreases len - i,
    {
        let c = s.get_char(i);
        if c == '\n' {
            return Some(i);
        }
        i = i + 1;
    }
    None
}

/// Splits a text into its lines.
pub fn split_lines(s: &str) -> (r: Vec<String>)
    ensures
        r@.map_values(|t: String| t@) == spec_lines(s@),
{
    let len = s.unicode_len();
    let mut r: Vec<String> = Vec::new();
    let mut pos: usize = 0;
    proof {
        assert(s@.skip(0) =~= s@);
        assert(r@.map_values(|t: String| t@) =~= Seq::<Seq<char>>::empty());
    }
    while pos < len
        invariant
            pos <= len,
            len == s@.len(),
            spec_lines(s@) =~~= r@.map_values(|t: String| t@) + spec_lines(s@.skip(pos as int)),
        decreases len - pos,
    {
        let ghost suffix = s@.skip(pos as int);
        let ghost prev = r@.map_values(|t: String| t@);
        match find_newline(s, pos, len) {
            Some(j) => {
                proof {
                    assert forall|k: int| 0 <= k < j - pos implies !is_newline(
                        #[trigger] suffix[k],
                    ) by {
                        assert(suffix[k] == s@[k + pos]);
                    }
                    assert(is_newline(suffix[j - pos]));
                    lemma_find_unique(suffix, |c: char| is_newline(c), j - pos);
                }
                let end = if j > pos && s.get_char(j - 1) == '\r' {
                    j - 1
                } else {
                    j
                };
                let line = s.substring_char(pos, end);
                let owned = line.to_owned();
                r.push(owned);
                proof {
                    assert(strip_cr(suffix.take(j - pos)) =~= s@.subrange(
                        pos as int,
                        end as int,
                    ));
                    assert(suffix.skip(j - pos + 1) =~= s@.skip(j + 1));
                    assert(spec_lines(suffix) == seq![strip_cr(suffix.take(j - pos))]
                        + spec_lines(suffix.skip(j - pos + 1)));
                    assert(r@.map_values(|t: String| t@) =~= prev + seq![owned@]);
                }
                pos = j + 1;
            },
            None => {
                proof {
                    assert forall|k: int| 0 <= k < suffix.len() implies !is_newline(
                        #[trigger] suffix[k],
                    ) by {
                        assert(suffix[k] == s@[k + pos]);
                    }
                    lemma_find_none(suffix, |c: char| is_newline(c));
                }
                let line = s.substring_char(pos, len);
                let owned = line.to_owned();
                r.push(owned);
                proof {
                    assert(suffix =~= s@.subrange(pos as int, len as int));
                    assert(spec_lines(suffix) == seq![suffix]);
                    assert(r@.map_values(|t: String| t@) =~= prev + seq![owned@]);
                    assert(s@.skip(len as int) =~= Seq::<char>::empty());
                }
                pos = len;
            },
        }
    }
    proof {
        assert(s@.skip(pos as int) =~= Seq::<char>::empty());
    }
    r
}

/// Splits the puzzle text into lines.
pub fn by_line(input: &PuzzleInput) -> (r: Vec<String>)
    ensures
        r@.map_values(|t: String| t@) == spec_lines(input.0@),
{
    split_lines(input.0.as_str())
}

/// Whether a blank separator (two consecutive newlines) starts at `i`.
pub open spec fn blank_sep_at(s: Seq<char>, i: int) -> bool {
    0 <= i && i + 2 <= s.len() && s[i] == '\n' && s[i + 1] == '\n'
}

/// The blocks of a text: segments split at the leftmost occurrences of two
/// consecutive newlines.
pub open spec fn spec_blocks(s: Seq<char>) -> Seq<Seq<char>>
    decreases s.len(),
{
    let i = first_blank_sep(s);
    if 0 <= i && i + 2 <= s.len() {
        seq![s.take(i)] + spec_blocks(s.skip(i + 2))
    } else {
        seq![s]
    }
}

/// The least index where a blank separator starts, or -1 when none does.
pub open spec fn first_blank_sep(s: Seq<char>) -> int
    decreases s.len(),
{
    if s.len() < 2 {
        -1
    } else if s[0] == '\n' && s[1] == '\n' {
        0
    } else {
        let r = first_blank_sep(s.skip(1));
        if r == -1 {
            -1
        } else {
            r + 1
        }
    }
}

/// `first_blank_sep` finds the least blank separator.
proof fn lemma_blank_sep_unique(s: Seq<char>, i: int)
    requires
        blank_sep_at(s, i),
        forall|k: int| 0 <= k < i ==> !blank_sep_at(s, k),
    ensures
        first_blank_sep(s) == i,
    decreases s.len(),
{
    if i > 0 {
        assert(!blank_sep_at(s, 0));
        assert forall|k: int| 0 <= k < i - 1 implies !blank_sep_at(s.skip(1), k) by {
            assert(!blank_sep_at(s, k + 1));
            assert(s.skip(1)[k] == s[k + 1] && (k + 2 <= s.skip(1).len() ==> s.skip(1)[k + 1]
                == s[k + 2]));
        }
        assert(s.skip(1)[i - 1] == s[i] && s.skip(1)[i] == s[i + 1]);
        assert(blank_sep_at(s.skip(1), i - 1));
        lemma_blank_sep_unique(s.skip(1), i - 1);
    }
}

/// When no blank separator occurs, `first_blank_sep` reports -1.
proof fn lemma_blank_sep_none(s: Seq<char>)
    requires
        forall|k: int| 0 <= k ==> !blank_sep_at(s, k),
    ensures
        first_blank_sep(s) == -1,
    decreases s.len(),
{
    if s.len() >= 2 {
        assert(!blank_sep_at(s, 0));
        assert forall|k: int| 0 <= k implies !blank_sep_at(s.skip(1), k) by {
            assert(!blank_sep_at(s, k + 1));
            if 0 <= k && k + 2 <= s.skip(1).len() {
                assert(s.skip(1)[k] == s[k + 1] && s.skip(1)[k + 1] == s[k + 2]);
            }
        }
        lemma_blank_sep_none(s.skip(1));
    }
}

/// Finds the first blank separator at or after `from`.
fn find_blank_sep(s: &str, from: usize, len: usize) -> (r: Option<usize>)
    requires
        from <= len,
        len == s@.len(),
    ensures
        match r {
            Some(j) => from <= j && j + 2 <= len && blank_sep_at(s@, j as int) && (forall|k: int|
                from <= k < j ==> !blank_sep_at(s@, k)),
            None => forall|k: int| from <= k ==> !blank_sep_at(s@, k),
        },
{
    if len < 1 {
        return None;
    }
    let mut i: usize = from;
    while i < len - 1
        invariant
            from <= i,
            i <= len,
            len >= 1,
            len == s@.len(),
            forall|k: int| from <= k < i ==> !blank_sep_at(s@, k),
        decreases len - i,
    {
        if s.get_char(i) == '\n' && s.get_char(i + 1) == '\n' {
            return Some(i);
        }
        i = i + 1;
    }
    None
}

/// Splits a text into blocks separated by blank lines, then each block into
/// its lines.
pub fn by_line_and_empty_line(input: &PuzzleInput) -> (r: Vec<Vec<String>>)
    ensures
        r@.map_values(|b: Vec<String>| b@.map_values(|t: String| t@)) == spec_blocks(
            input.0@,
        ).map_values(|b: Seq<char>| spec_lines(b)),
{
    let s = input.0.as_str();
    let len = s.unicode_len();
    let mut r: Vec<Vec<String>> = Vec::new();
    let mut pos: usize = 0;
    let ghost goal = spec_blocks(s@).map_values(|b: Seq<char>| spec_lines(b));
    let mut done = false;
    proof {
        assert(s@.skip(0) =~= s@);
        assert(r@.map_values(|b: Vec<String>| b@.map_values(|t: String| t@))
            =~= Seq::<Seq<Seq<char>>>::empty());
    }
    while !done
        invariant
            pos <= len,
            len == s@.len(),
            goal == spec_blocks(s@).map_values(|b: Seq<char>| spec_lines(b)),
            !done ==> goal =~~= r@.map_values(|b: Vec<String>| b@.map_values(|t: String| t@))
                + spec_blocks(s@.skip(pos as int)).map_values(|b: Seq<char>| spec_lines(b)),
            done ==> goal =~~= r@.map_values(|b: Vec<String>| b@.map_values(|t: String| t@)),
        decreases len - pos, (if done { 0int } else { 1int }),
    {
        let ghost suffix = s@.skip(pos as int);
        let ghost prev = r@.map_values(|b: Vec<String>| b@.map_values(|t: String| t@));
        match find_blank_sep(s, pos, len) {
            Some(j) => {
                proof {
                    assert forall|k: int| 0 <= k < j - pos implies !blank_sep_at(suffix, k) by {
                        assert(!blank_sep_at(s@, k + pos));
                        assert(suffix[k] == s@[k + pos] && (k + 2 <= suffix.len() ==> suffix[k + 1]
                            == s@[k + pos + 1]));
                    }
                    assert(suffix[j - pos] == s@[j as int] && suffix[j - pos + 1] == s@[j + 1]);
                    assert(blank_sep_at(suffix, j - pos));
                    lemma_blank_sep_unique(suffix, j - pos);
                }
                let block = s.substring_char(pos, j);
                let lines = split_lines(block);
                r.push(lines);
                proof {
                    assert(suffix.take(j - pos) =~= block@);
                    assert(suffix.skip(j - pos + 2) =~= s@.skip(j + 2));
                    assert(spec_blocks(suffix) == seq![suffix.take(j - pos)] + spec_blocks(
                        suffix.skip(j - pos + 2),
                    ));
                    assert(r@.map_values(|b: Vec<String>| b@.map_values(|t: String| t@)) =~~= prev
                        + seq![lines@.map_values(|t: String| t@)]);
                }
                pos = j + 2;
            },
            None => {
                proof {
                    assert forall|k: int| 0 <= k implies !blank_sep_at(suffix, k) by {
                        assert(!blank_sep_at(s@, k + pos));
                        if 0 <= k && k + 2 <= suffix.len() {
                            assert(suffix[k] == s@[k + pos] && suffix[k + 1] == s@[k + pos + 1]);
                        }
                    }
                    lemma_blank_sep_none(suffix);
                    assert(spec_blocks(suffix) == seq![suffix]);
                }
                let block = s.substring_char(pos, len);
                let lines = split_lines(block);
                r.push(lines);
                proof {
                    assert(suffix =~= block@);
                    assert(r@.map_values(|b: Vec<String>| b@.map_values(|t: String| t@)) =~~= prev
                        + seq![lines@.map_values(|t: String| t@)]);
                }
                done = true;
            },
        }
    }
    r
}

/// The characters of the puzzle text, in order.
pub fn by_char(input: String) -> (r: Vec<char>)
    ensures
        r@ == input@,
{
    let s = input.as_str();
    let len = s.unicode_len();
    let mut r: Vec<char> = Vec::new();
    let mut i: usize = 0;
    while i < len
        invariant
            i <= len,
            len == s@.len(),
            s@ == input@,
            r@ =~= input@.take(i as int),
        decreases len - i,
    {
        r.push(s.get_char(i));
        i = i + 1;
    }
    proof {
        assert(input@.take(len as int) =~= input@);
    }
    r
}

/// The values of the decimal digits among a line's characters, in order.
pub open spec fn spec_digit_values(s: Seq<char>) -> Seq<i32>
    decreases s.len(),
{
    if s.len() == 0 {
        Seq::empty()
    } else if is_digit_char(s.last()) {
        spec_digit_values(s.drop_last()).push(digit_char_val(s.last()) as i32)
    } else {
        spec_digit_values(s.drop_last())
    }
}

/// Reads each line as the sequence of its digit characters' values.
pub fn by_line_and_char_as_int(input: String) -> (r: Vec<Vec<i32>>)
    ensures
        r@.map_values(|v: Vec<i32>| v@) == spec_lines(input@).map_values(
            |line: Seq<char>| spec_digit_values(line),
        ),
{
    let lines = split_lines(input.as_str());
    let mut r: Vec<Vec<i32>> = Vec::new();
    let ghost line_views = lines@.map_values(|t: String| t@);
    let mut i: usize = 0;
    while i < lines.len()
        invariant
            i <= lines.len(),
            line_views == lines@.map_values(|t: String| t@),
            line_views == spec_lines(input@),
            r@.map_values(|v: Vec<i32>| v@) =~~= line_views.take(i as int).map_values(
                |line: Seq<char>| spec_digit_values(line),
            ),
        decreases lines.len() - i,
    {
        let line = &lines[i];
        let ghost lv = line@;
        let len = line.as_str().unicode_len();
        let mut vals: Vec<i32> = Vec::new();
        let mut j: usize = 0;
        while j < len
            invariant
                j <= len,
                len == lv.len(),
                lv == line@,
                vals@ =~= spec_digit_values(lv.take(j as int)),
            decreases len - j,
        {
            let c = line.as_str().get_char(j);
            proof {
                assert(lv.take(j + 1).drop_last() =~= lv.take(j as int));
                assert(lv.take(j + 1).last() == lv[j as int]);
            }
            match char_to_digit(c) {
                Some(d) => {
                    vals.push(d as i32);
                },
                None => {},
            }
            j = j + 1;
        }
        proof {
            assert(lv.take(len as int) =~= lv);
        }
        let ghost prev_map = r@.map_values(|v: Vec<i32>| v@);
        r.push(vals);
        proof {
            assert(r@.map_values(|v: Vec<i32>| v@) =~= prev_map + seq![vals@]);
            assert(line_views.take(i + 1).drop_last() =~= line_views.take(i as int));
            assert(line_views.take(i + 1).last() == line_views[i as int]);
            assert(line_views[i as int] == lv);
            assert(line_views.take(i + 1).map_values(|line: Seq<char>| spec_digit_values(line))
                =~~= line_views.take(i as int).map_values(
                |line: Seq<char>| spec_digit_values(line),
            ) + seq![spec_digit_values(lv)]);
        }
        i = i + 1;
    }
    proof {
        assert(line_views.take(lines@.len() as int) =~= line_views);
    }
    r
}

/// Whether a character has the `White_Space` property that Rust's
/// whitespace splitting goes by.
pub open spec fn is_space_char(c: char) -> bool {
    ('\u{9}' <= c <= '\u{d}') || c == ' ' || c == '\u{85}' || c == '\u{a0}' || c == '\u{1680}' || (
    '\u{2000}' <= c <= '\u{200a}') || c == '\u{2028}' || c == '\u{2029}' || c == '\u{202f}' || c
        == '\u{205f}' || c == '\u{3000}'
}

/// Whether a character counts as whitespace for word splitting.
pub fn is_space(c: char) -> (r: bool)
    ensures
        r == is_space_char(c),
{
    ('\u{9}' <= c && c <= '\u{d}') || c == ' ' || c == '\u{85}' || c == '\u{a0}' || c == '\u{1680}'
        || ('\u{2000}' <= c && c <= '\u{200a}') || c == '\u{2028}' || c == '\u{2029}' || c
        == '\u{202f}' || c == '\u{205f}' || c == '\u{3000}'
}

/// The maximal whitespace-free words of a text, in order.
pub open spec fn spec_words(s: Seq<char>) -> Seq<Seq<char>>
    decreases s.len(),
{
    if s.len() == 0 {
        Seq::empty()
    } else if is_space_char(s[0]) {
        spec_words(s.skip(1))
    } else {
        let e = spec_find(s, |c: char| is_space_char(c));
        if 1 <= e < s.len() {
            seq![s.take(e)] + spec_words(s.skip(e))
        } else {
            seq![s]
        }
    }
}

/// The words of `s` that are decimal integers fitting an `i32`, as values.
pub open spec fn spec_int_words(ws: Seq<Seq<char>>) -> Seq<i32>
    decreases ws.len(),
{
    if ws.len() == 0 {
        Seq::empty()
    } else {
        let rest = spec_int_words(ws.drop_last());
        let w = ws.last();
        if valid_int_literal(w) && i32::MIN <= int_literal_val(w) <= i32::MAX {
            rest.push(int_literal_val(w) as i32)
        } else {
            rest
        }
    }
}

/// Splits a text into whitespace-separated words.
pub fn split_words(s: &str) -> (r: Vec<String>)
    ensures
        r@.map_values(|t: String| t@) == spec_words(s@),
{
    let len = s.unicode_len();
    let mut r: Vec<String> = Vec::new();
    let mut pos: usize = 0;
    proof {
        assert(s@.skip(0) =~= s@);
        assert(r@.map_values(|t: String| t@) =~= Seq::<Seq<char>>::empty());
    }
    while pos < len
        invariant
            pos <= len,
            len == s@.len(),
            spec_words(s@) =~~= r@.map_values(|t: String| t@) + spec_words(s@.skip(pos as int)),
        decreases len - pos,
    {
        let ghost suffix = s@.skip(pos as int);
        let ghost prev = r@.map_values(|t: String| t@);
        let c = s.get_char(pos);
        if is_space(c) {
            proof {
                assert(suffix[0] == s@[pos as int]);
                assert(suffix.skip(1) =~= s@.skip(pos + 1));
            }
            pos = pos + 1;
        } else {
            // find the end of the word
            let mut e: usize = pos;
            while e < len && !is_space(s.get_char(e))
                invariant
                    pos <= e <= len,
                    pos < len,
                    len == s@.len(),
                    !is_space_char(s@[pos as int]),
                    forall|k: int| pos <= k < e ==> !is_space_char(#[trigger] s@[k]),
                decreases len - e,
            {
                e = e + 1;
            }
            assert(e > pos);
            proof {
                assert(!is_space_char(suffix[0]));
                assert forall|k: int| 0 <= k < e - pos implies !is_space_char(
                    #[trigger] suffix[k],
                ) by {
                    assert(suffix[k] == s@[k + pos]);
                }
                if e < len {
                    assert(suffix[e - pos] == s@[e as int]);
                    lemma_find_unique(suffix, |ch: char| is_space_char(ch), e - pos);
                    assert(suffix.skip(e - pos) =~= s@.skip(e as int));
                } else {
                    lemma_find_none(suffix, |ch: char| is_space_char(ch));
                    assert(s@.skip(len as int) =~= Seq::<char>::empty());
                }
                assert(suffix.take(e - pos) =~= s@.subrange(pos as int, e as int));
            }
            let word = s.substring_char(pos, e);
            let owned = word.to_owned();
            r.push(owned);
            proof {
                assert(r@.map_values(|t: String| t@) =~= prev + seq![owned@]);
            }
            pos = e;
        }
    }
    proof {
        assert(s@.skip(pos as int) =~= Seq::<char>::empty());
    }
    r
}

/// Reads each line as the integers among its whitespace-separated words.
pub fn by_line_and_word_as_int(input: String) -> (r: Vec<Vec<i32>>)
    ensures
        r@.map_values(|v: Vec<i32>| v@) == spec_lines(input@).map_values(
            |line: Seq<char>| spec_int_words(spec_words(line)),
        ),
{
    let lines = split_lines(input.as_str());
    let mut r: Vec<Vec<i32>> = Vec::new();
    let ghost line_views = lines@.map_values(|t: String| t@);
    let mut i: usize = 0;
    while i < lines.len()
        invariant
            i <= lines.len(),
            line_views == lines@.map_values(|t: String| t@),
            line_views == spec_lines(input@),
            r@.map_values(|v: Vec<i32>| v@) =~~= line_views.take(i as int).map_values(
                |line: Seq<char>| spec_int_words(spec_words(line)),
            ),
        decreases lines.len() - i,
    {
        let words = split_words(lines[i].as_str());
        let ghost word_views = words@.map_values(|t: String| t@);
        let mut vals: Vec<i32> = Vec::new();
        let mut j: usize = 0;
        while j < words.len()
            invariant
                j <= words.len(),
                word_views == words@.map_values(|t: String| t@),
                vals@ =~= spec_int_words(word_views.take(j as int)),
            decreases words.len() - j,
        {
            proof {
                assert(word_views.take(j + 1).drop_last() =~= word_views.take(j as int));
                assert(word_views.take(j + 1).last() == words[j as int]@);
            }
            match parse_i32(words[j].as_str()) {
                Some(v) => {
                    vals.push(v);
                },
                None => {},
            }
            j = j + 1;
        }
        proof {
            assert(word_views.take(words@.len() as int) =~= word_views);
        }
        let ghost prev_map = r@.map_values(|v: Vec<i32>| v@);
        r.push(vals);
        proof {
            assert(r@.map_values(|v: Vec<i32>| v@) =~= prev_map + seq![vals@]);
            assert(line_views.take(i + 1).drop_last() =~= line_views.take(i as int));
            assert(line_views.take(i + 1).last() == line_views[i as int]);
            assert(line_views.take(i + 1).map_values(
                |line: Seq<char>| spec_int_words(spec_words(line)),
            ) =~~= line_views.take(i as int).map_values(
                |line: Seq<char>| spec_int_words(spec_words(line)),
            ) + seq![spec_int_words(spec_words(line_views[i as int]))]);
        }
        i = i + 1;
    }
    proof {
        assert(line_views.take(lines@.len() as int) =~= line_views);
    }
    r
}

} // verus!
