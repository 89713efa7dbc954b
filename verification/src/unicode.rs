//! Fitting a line of text into a width of terminal columns: wrapped onto
//! several lines marked with an ellipsis, or cut on the left.

use textwrap::{wrap, Options, WordSplitter};
use unicode_width::UnicodeWidthStr;
use vstd::prelude::*;
use vstd::string::StringExecFns;

use crate::text_buf::{chars_of, string_of};

verus! {

/// The ellipsis that marks text cut or continued.
pub const ELLIPSIS: &'static str = "…";

/// The columns the ellipsis takes.
pub const ELLIPSIS_WIDTH: usize = 1;

/// The columns `text` takes on a terminal, as `UnicodeWidthStr::width`
/// measures them.
pub uninterp spec fn display_width(text: Seq<char>) -> usize;

/// The lines `textwrap::wrap` breaks `text` into at `width` columns, breaking
/// words that do not fit and never hyphenating.
pub uninterp spec fn wrapped_lines(text: Seq<char>, width: usize) -> Seq<Seq<char>>;

/// `UnicodeWidthStr::width`: the columns `text` takes.
#[verifier::external_body]
fn str_width(text: &str) -> (w: usize)
    ensures
        w == display_width(text@),
{
    text.width()
}

/// `textwrap::wrap` of `text` at `width` columns, breaking words that do not
/// fit and never hyphenating.
#[verifier::external_body]
fn wrap_lines(text: &str, width: usize) -> (lines: Vec<String>)
    ensures
        lines@.map_values(|l: String| l@) == wrapped_lines(text@, width),
{
    let options = Options::new(width).word_splitter(WordSplitter::NoHyphenation).break_words(
        true,
    );
    wrap(text, options).into_iter().map(|line| line.into_owned()).collect()
}

/// `line` as one part when it fits in `width` columns, otherwise wrapped at
/// one column less, leaving room for an ellipsis.
pub open spec fn split_parts(line: Seq<char>, width: usize) -> Seq<Seq<char>> {
    if display_width(line) <= width {
        seq![line]
    } else {
        wrapped_lines(line, (width - ELLIPSIS_WIDTH) as usize)
    }
}

/// `parts` with an ellipsis after every part but the last.
pub open spec fn with_ellipses(parts: Seq<Seq<char>>) -> Seq<Seq<char>> {
    parts.map(|i: int, p: Seq<char>| if i < parts.len() - 1 { p + ELLIPSIS@ } else { p })
}

/// The texts of `lines`.
pub open spec fn line_texts(lines: Seq<String>) -> Seq<Seq<char>> {
    lines.map_values(|l: String| l@)
}

fn split(line: &str, width: usize) -> (parts: Vec<String>)
    requires
        width > ELLIPSIS_WIDTH,
    ensures
        line_texts(parts@) == split_parts(line@, width),
{
    if str_width(line) <= width {
        let parts = vec![String::from_str(line)];
        assert(line_texts(parts@) =~= seq![line@]);
        return parts;
    }
    wrap_lines(line, width - ELLIPSIS_WIDTH)
}

/// Puts an ellipsis after every part but the last.
pub fn add_ellipses(parts: Vec<String>) -> (marked: Vec<String>)
    ensures
        line_texts(marked@) == with_ellipses(line_texts(parts@)),
{
    let mut parts = parts;
    let len = parts.len();
    let ghost unmarked = line_texts(parts@);
    let mut i: usize = 0;
    while len > 0 && i < len - 1
        invariant
            len == parts@.len(),
            unmarked.len() == len,
            i <= len,
            len == 0 || i <= len - 1,
            forall|j: int| 0 <= j < i ==> #[trigger] line_texts(parts@)[j] == unmarked[j] + ELLIPSIS@,
            forall|j: int| i <= j < len ==> #[trigger] line_texts(parts@)[j] == unmarked[j],
        decreases len - i,
    {
        let mut part = parts[i].clone();
        assert(part@ == unmarked[i as int]) by {
            assert(line_texts(parts@)[i as int] == parts@[i as int]@);
        }
        part.append(ELLIPSIS);
        let ghost before = parts@;
        parts.set(i, part);
        assert forall|j: int| 0 <= j < len && j != i implies #[trigger] line_texts(parts@)[j]
            == line_texts(before)[j] by {
            assert(parts@[j] == before[j]);
        }
        assert(line_texts(parts@)[i as int] == unmarked[i as int] + ELLIPSIS@);
        i = i + 1;
    }
    assert(len == 0 || i >= len - 1);
    assert forall|j: int| 0 <= j < len implies #[trigger] line_texts(parts@)[j] == with_ellipses(
        unmarked,
    )[j] by {
        assert(with_ellipses(unmarked)[j] == (if j < unmarked.len() - 1 {
            unmarked[j] + ELLIPSIS@
        } else {
            unmarked[j]
        }));
        if j < len - 1 {
            assert(j < i);
            assert(line_texts(parts@)[j] == unmarked[j] + ELLIPSIS@);
        } else {
            assert(j >= i);
            assert(line_texts(parts@)[j] == unmarked[j]);
        }
    }
    assert(line_texts(parts@) =~= with_ellipses(unmarked));
    parts
}

/// The lines `line` takes in `width` columns, each but the last ending in an
/// ellipsis.
pub fn split_with_ellipsis(line: &str, width: usize) -> (parts: Vec<String>)
    requires
        width > ELLIPSIS_WIDTH,
    ensures
        line_texts(parts@) == with_ellipses(split_parts(line@, width)),
{
    add_ellipses(split(line, width))
}

/// How many characters at the end of a line, whose characters take `widths`
/// columns, fit in `budget` columns, taking them from the end while they fit.
pub open spec fn taken_from_end(widths: Seq<usize>, budget: int) -> nat
    decreases widths.len(),
{
    if widths.len() == 0 || widths.last() > budget {
        0
    } else {
        1 + taken_from_end(widths.drop_last(), budget - widths.last())
    }
}

/// The columns each character of `line` takes on its own.
pub open spec fn char_widths(line: Seq<char>) -> Seq<usize> {
    Seq::new(line.len(), |i: int| display_width(seq![line[i]]))
}

/// `line` cut on the left to fit `width` columns, given that it takes
/// `line_width` and its characters `widths`: unchanged when it fits, and
/// otherwise an ellipsis followed by as many of its last characters as fit
/// in the rest.
pub open spec fn cut_left(
    line: Seq<char>,
    width: usize,
    line_width: usize,
    widths: Seq<usize>,
) -> Seq<char> {
    if line_width <= width {
        line
    } else {
        ELLIPSIS@ + line.skip(line.len() - taken_from_end(widths, width - ELLIPSIS_WIDTH))
    }
}

proof fn lemma_taken_bound(widths: Seq<usize>, budget: int)
    ensures
        taken_from_end(widths, budget) <= widths.len(),
    decreases widths.len(),
{
    if widths.len() > 0 && widths.last() <= budget {
        lemma_taken_bound(widths.drop_last(), budget - widths.last());
    }
}

/// The columns the characters from the `k`th on take, whose columns are
/// `widths`.
pub open spec fn width_from(widths: Seq<usize>, k: int) -> nat
    decreases widths.len() - k,
{
    if k < 0 || k >= widths.len() {
        0
    } else {
        widths[k] as nat + width_from(widths, k + 1)
    }
}

proof fn lemma_width_from_drop_last(widths: Seq<usize>, j: int)
    requires
        0 <= j < widths.len(),
    ensures
        width_from(widths, j) == width_from(widths.drop_last(), j) + widths.last(),
    decreases widths.len() - j,
{
    let front = widths.drop_last();
    if j < widths.len() - 1 {
        lemma_width_from_drop_last(widths, j + 1);
        assert(width_from(widths, j) == widths[j] as nat + width_from(widths, j + 1));
        assert(width_from(front, j) == front[j] as nat + width_from(front, j + 1));
    } else {
        assert(width_from(widths, j + 1) == 0);
        assert(width_from(front, j) == 0);
    }
}

/// Taking characters from the end while they fit leaves the least start
/// whose characters fit in `budget`: those from it on fit, and those from
/// any earlier start do not.
pub proof fn taking_from_the_end_keeps_the_longest_suffix(widths: Seq<usize>, budget: int)
    requires
        budget >= 0,
    ensures
        taken_from_end(widths, budget) <= widths.len(),
        width_from(widths, widths.len() - taken_from_end(widths, budget)) <= budget,
        forall|j: int|
            0 <= j < widths.len() - taken_from_end(widths, budget) ==> #[trigger] width_from(widths, j)
                > budget,
    decreases widths.len(),
{
    lemma_taken_bound(widths, budget);
    if widths.len() > 0 {
        let front = widths.drop_last();
        assert forall|j: int| 0 <= j < widths.len() implies #[trigger] width_from(widths, j)
            == width_from(front, j) + widths.last() by {
            lemma_width_from_drop_last(widths, j);
        }
        if widths.last() <= budget {
            taking_from_the_end_keeps_the_longest_suffix(front, budget - widths.last());
            let k = widths.len() - taken_from_end(widths, budget);
            assert(k == front.len() - taken_from_end(front, budget - widths.last()));
            if k < widths.len() {
                assert(width_from(widths, k) == width_from(front, k) + widths.last());
            }
            assert forall|j: int| 0 <= j < k implies #[trigger] width_from(widths, j) > budget by {
                assert(width_from(front, j) > budget - widths.last());
            }
        }
    }
}

/// A line that does not fit in `width` columns is cut to an ellipsis and the
/// longest end of it that fits beside: the characters from the least start
/// whose characters take no more than the columns left.
pub proof fn a_cut_line_keeps_the_longest_end_that_fits(line: Seq<char>, width: usize)
    requires
        width > ELLIPSIS_WIDTH,
        display_width(line) > width,
    ensures
        ({
            let widths = char_widths(line);
            let k = line.len() - taken_from_end(widths, width - ELLIPSIS_WIDTH);
            &&& 0 <= k <= line.len()
            &&& cut_left(line, width, display_width(line), widths) == ELLIPSIS@ + line.skip(k)
            &&& width_from(widths, k) <= width - ELLIPSIS_WIDTH
            &&& forall|j: int| 0 <= j < k ==> #[trigger] width_from(widths, j) > width - ELLIPSIS_WIDTH
        }),
{
    taking_from_the_end_keeps_the_longest_suffix(char_widths(line), width - ELLIPSIS_WIDTH);
}

/// `line` cut on the left to fit `width` columns, given the columns the line
/// and each of its characters take.
pub fn truncate_left_by_widths(
    line: &str,
    width: usize,
    line_width: usize,
    widths: &Vec<usize>,
) -> (cut: String)
    requires
        width > ELLIPSIS_WIDTH,
        widths@.len() == line@.len(),
    ensures
        cut@ == cut_left(line@, width, line_width, widths@),
{
    if line_width <= width {
        return String::from_str(line);
    }
    let chars = chars_of(line);
    let remaining = width - ELLIPSIS_WIDTH;
    let mut total: usize = 0;
    let mut start: usize = chars.len();
    assert(widths@.take(start as int) == widths@);
    while start > 0
        invariant
            start <= chars@.len(),
            chars@.len() == widths@.len(),
            total <= remaining,
            taken_from_end(widths@, remaining as int) == (chars@.len() - start)
                + taken_from_end(widths@.take(start as int), remaining - total),
        ensures
            start <= chars@.len(),
            taken_from_end(widths@, remaining as int) == chars@.len() - start,
        decreases start,
    {
        if start == 0 {
            assert(widths@.take(0).len() == 0);
        }
        let w = widths[start - 1];
        assert(widths@.take(start as int).last() == w);
        assert(widths@.take(start as int).drop_last() == widths@.take(start - 1));
        if w > remaining - total {
            assert(taken_from_end(widths@.take(start as int), remaining - total) == 0);
            break;
        }
        total = total + w;
        start = start - 1;
    }
    let mut cut = String::from_str(ELLIPSIS);
    let rest = string_of(chars.as_slice().split_at(start).1);
    cut.append(rest.as_str());
    cut
}

/// `line` cut on the left to fit `width` columns: an ellipsis and as many of
/// its last characters as fit, when it does not fit whole.
pub fn truncate_left(line: &str, width: usize) -> (cut: String)
    requires
        width > ELLIPSIS_WIDTH,
    ensures
        cut@ == cut_left(line@, width, display_width(line@), char_widths(line@)),
{
    let line_width = str_width(line);
    let chars = chars_of(line);
    let mut widths: Vec<usize> = Vec::new();
    let mut i: usize = 0;
    while i < chars.len()
        invariant
            chars@ == line@,
            i <= chars@.len(),
            widths@ == char_widths(line@).take(i as int),
        decreases chars@.len() - i,
    {
        let one = string_of(chars.as_slice().split_at(i).1.split_at(1).0);
        assert(one@ =~= seq![line@[i as int]]);
        widths.push(str_width(one.as_str()));
        i = i + 1;
        assert(widths@ =~= char_widths(line@).take(i as int));
    }
    assert(char_widths(line@).take(chars@.len() as int) == char_widths(line@));
    truncate_left_by_widths(line, width, line_width, &widths)
}

} // verus!
