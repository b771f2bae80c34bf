//! Reading the text of an article: dropping the front matter and taking
//! the first paragraph as a summary.

use vstd::prelude::*;
use vstd::string::{StrSliceExecFns, StringExecFns};
use vstd::utf8::{decode_utf8, encode_utf8, is_char_boundary};
use crate::text::{
    before_first, chars_of, lemma_before_first, skip_leading_space, starts_with, starts_with_text,
    str_eq, trim, trim_start, trimmed,
};

verus! {

/// A line without the carriage return that ends it, if one does.
pub open spec fn strip_carriage_return(line: Seq<char>) -> Seq<char> {
    if line.len() > 0 && line.last() == '\r' {
        line.drop_last()
    } else {
        line
    }
}

/// The lines of a text. A line ends at a line feed, or at a carriage
/// return and a line feed; the last line needs no ending.
pub open spec fn split_lines(text: Seq<char>) -> Seq<Seq<char>>
    decreases text.len(),
{
    if text.len() == 0 {
        Seq::empty()
    } else {
        let head = before_first(text, '\n');
        if head.len() >= text.len() {
            seq![text]
        } else {
            seq![strip_carriage_return(head)] + split_lines(
                text.subrange(head.len() as int + 1, text.len() as int),
            )
        }
    }
}

/// The texts joined, with `separator` between neighbours.
pub open spec fn join_texts(texts: Seq<Seq<char>>, separator: Seq<char>) -> Seq<char>
    decreases texts.len(),
{
    if texts.len() == 0 {
        Seq::empty()
    } else if texts.len() == 1 {
        texts[0]
    } else {
        join_texts(texts.drop_last(), separator) + separator + texts.last()
    }
}

/// The character sequences of string slices.
pub open spec fn slice_views(slices: Seq<&str>) -> Seq<Seq<char>> {
    Seq::new(slices.len(), |i: int| slices[i]@)
}

/// The index of the first line from `from` on that is a front matter
/// delimiter: three dashes between optional white space.
pub open spec fn closing_delimiter(lines: Seq<Seq<char>>, from: int) -> Option<int>
    decreases lines.len() - from,
{
    if from < 0 || from >= lines.len() {
        None
    } else if trimmed(lines[from]) == "---"@ {
        Some(from)
    } else {
        closing_delimiter(lines, from + 1)
    }
}

/// The text of an article without its front matter: where the trimmed
/// text starts with three dashes and a later line closes the front matter,
/// what follows that line, without leading white space; else the trimmed
/// text.
pub open spec fn content_only(content: Seq<char>) -> Seq<char> {
    let text = trimmed(content);
    if starts_with_text(text, "---"@) {
        match closing_delimiter(split_lines(text), 1) {
            Some(end) => skip_leading_space(
                join_texts(
                    split_lines(text).subrange(end + 1, split_lines(text).len() as int),
                    "\n"@,
                ),
            ),
            None => text,
        }
    } else {
        text
    }
}

/// A trimmed line that does not belong to a paragraph: it is empty or a
/// heading.
pub open spec fn breaks_paragraph(line: Seq<char>) -> bool {
    line.len() == 0 || line[0] == '#'
}

/// The most bytes that a summary has.
pub const SUMMARY_LIMIT: usize = 200;

/// Where a summary that is too long is cut.
pub const SUMMARY_CUT: usize = 197;

/// The first paragraph of the lines from `from` on, with `gathered` being
/// the part already found where `found` holds: the trimmed lines up to the
/// first empty line or heading after the paragraph began, joined by
/// spaces, and no more lines once the paragraph exceeds the summary limit
/// in bytes.
pub open spec fn gather_paragraph(
    lines: Seq<Seq<char>>,
    from: int,
    gathered: Seq<char>,
    found: bool,
) -> Seq<char>
    decreases lines.len() - from,
{
    if from < 0 || from >= lines.len() {
        gathered
    } else {
        let line = trimmed(lines[from]);
        if breaks_paragraph(line) {
            if found {
                gathered
            } else {
                gather_paragraph(lines, from + 1, gathered, false)
            }
        } else {
            let longer = if found {
                gathered + " "@ + line
            } else {
                line
            };
            if encode_utf8(longer).len() > SUMMARY_LIMIT {
                longer
            } else {
                gather_paragraph(lines, from + 1, longer, true)
            }
        }
    }
}

/// The first paragraph of a text.
pub open spec fn first_paragraph_text(content: Seq<char>) -> Seq<char> {
    gather_paragraph(split_lines(content), 0, Seq::empty(), false)
}

/// A paragraph can be made a summary: it fits, or its cut falls between
/// two characters.
pub open spec fn can_summarize(paragraph: Seq<char>) -> bool {
    encode_utf8(paragraph).len() > SUMMARY_LIMIT ==> is_char_boundary(
        encode_utf8(paragraph),
        SUMMARY_CUT as int,
    )
}

/// The summary of a paragraph: the paragraph where it fits the summary
/// limit, else its first bytes up to the cut and three dots.
pub open spec fn summary_of(paragraph: Seq<char>) -> Seq<char> {
    if encode_utf8(paragraph).len() > SUMMARY_LIMIT {
        decode_utf8(encode_utf8(paragraph).subrange(0, SUMMARY_CUT as int)) + "..."@
    } else {
        paragraph
    }
}

/// The lines of a text.
pub fn lines_of<'a>(text: &'a str) -> (lines: Vec<&'a str>)
    ensures
        slice_views(lines@) == split_lines(text@),
{
    let chars = chars_of(text);
    let count = chars.len();
    let mut lines: Vec<&'a str> = Vec::new();
    let mut start: usize = 0;
    proof {
        assert(text@.subrange(0, count as int) =~= text@);
        assert(slice_views(lines@) + split_lines(text@) =~= split_lines(text@));
    }
    while start < count
        invariant
            start <= count,
            count == text@.len(),
            chars@ == text@,
            split_lines(text@) == slice_views(lines@) + split_lines(
                text@.subrange(start as int, count as int),
            ),
        decreases count - start,
    {
        let ghost rest = text@.subrange(start as int, count as int);
        let ghost before = slice_views(lines@);
        let mut end: usize = start;
        while end < count && chars[end] != '\n'
            invariant
                start <= end <= count,
                count == text@.len(),
                chars@ == text@,
                forall|i: int| start <= i < end ==> text@[i] != '\n',
            decreases count - end,
        {
            end += 1;
        }
        proof {
            assert forall|i: int| 0 <= i < end - start implies rest[i] != '\n' by {
                assert(rest[i] == text@[start + i]);
            }
            if end < count {
                assert(rest[end - start] == text@[end as int]);
            }
            lemma_before_first(rest, '\n', end - start);
            assert(rest.subrange(0, end - start) =~= text@.subrange(start as int, end as int));
        }
        if end == count {
            let line = text.substring_char(start, count);
            lines.push(line);
            proof {
                assert(slice_views(lines@) =~= before.push(rest));
                assert(text@.subrange(count as int, count as int) =~= Seq::<char>::empty());
                assert(before + seq![rest] =~= before.push(rest));
                assert(slice_views(lines@) + split_lines(
                    text@.subrange(count as int, count as int),
                ) =~= slice_views(lines@));
            }
            start = count;
        } else {
            let stop = if end > start && chars[end - 1] == '\r' {
                end - 1
            } else {
                end
            };
            let line = text.substring_char(start, stop);
            lines.push(line);
            proof {
                let head = text@.subrange(start as int, end as int);
                assert(head.len() > 0 ==> head.last() == text@[end - 1]);
                assert(line@ =~= strip_carriage_return(head));
                assert(rest.subrange(end - start + 1, rest.len() as int) =~= text@.subrange(
                    end + 1,
                    count as int,
                ));
                assert(slice_views(lines@) =~= before.push(line@));
                assert(before + (seq![line@] + split_lines(text@.subrange(end + 1, count as int)))
                    =~= before.push(line@) + split_lines(text@.subrange(end + 1, count as int)));
            }
            start = end + 1;
        }
    }
    proof {
        assert(text@.subrange(count as int, count as int) =~= Seq::<char>::empty());
        assert(slice_views(lines@) + Seq::<Seq<char>>::empty() =~= slice_views(lines@));
    }
    lines
}

/// The lines from index `from` on, joined by `separator`.
pub fn join_from(lines: &Vec<&str>, from: usize, separator: &str) -> (joined: String)
    requires
        from <= lines@.len(),
    ensures
        joined@ == join_texts(
            slice_views(lines@).subrange(from as int, lines@.len() as int),
            separator@,
        ),
{
    let ghost views = slice_views(lines@);
    let mut joined = String::new();
    let mut i: usize = from;
    assert(views.subrange(from as int, from as int) =~= Seq::<Seq<char>>::empty());
    while i < lines.len()
        invariant
            from <= i <= lines.len(),
            views == slice_views(lines@),
            joined@ == join_texts(views.subrange(from as int, i as int), separator@),
        decreases lines.len() - i,
    {
        let ghost start = joined@;
        proof {
            assert(views.subrange(from as int, i + 1).drop_last() =~= views.subrange(
                from as int,
                i as int,
            ));
            assert(views.subrange(from as int, i + 1).last() == lines@[i as int]@);
        }
        if i > from {
            joined.append(separator);
            joined.append(lines[i]);
            assert(joined@ =~= start + separator@ + lines@[i as int]@);
        } else {
            joined.append(lines[i]);
            assert(joined@ =~= lines@[i as int]@);
        }
        i += 1;
    }
    joined
}

/// Drops the front matter of articles read in the browser.
pub struct FrontMatterParser;

impl FrontMatterParser {
    /// The text of an article without its front matter.
    pub fn parse_content_only(content: &str) -> (text: String)
        ensures
            text@ == content_only(content@),
    {
        let body = trim(content);
        if starts_with(body, "---") {
            let lines = lines_of(body);
            let ghost views = slice_views(lines@);
            let mut i: usize = 1;
            while i < lines.len()
                invariant
                    1 <= i,
                    body@ == trimmed(content@),
                    starts_with_text(body@, "---"@),
                    views == slice_views(lines@),
                    views == split_lines(body@),
                    closing_delimiter(views, 1) == closing_delimiter(views, i as int),
                decreases lines.len() - i,
            {
                assert(views[i as int] == lines@[i as int]@);
                if str_eq(trim(lines[i]), "---") {
                    let remaining = join_from(&lines, i + 1, "\n");
                    assert(closing_delimiter(views, i as int) == Some(i as int));
                    return String::from_str(trim_start(remaining.as_str()));
                }
                i += 1;
            }
        }
        String::from_str(body)
    }
}

/// Takes the summary of an article from its text.
pub struct SummaryExtractor;

impl SummaryExtractor {
    /// The first paragraph of a text: its trimmed lines, joined by spaces,
    /// after any leading empty lines and headings.
    pub fn first_paragraph(content: &str) -> (paragraph: String)
        ensures
            paragraph@ == first_paragraph_text(content@),
    {
        let lines = lines_of(content);
        let ghost views = slice_views(lines@);
        let mut paragraph = String::new();
        let mut found = false;
        let mut i: usize = 0;
        assert(paragraph@ =~= Seq::<char>::empty());
        while i < lines.len()
            invariant
                i <= lines.len(),
                views == slice_views(lines@),
                !found ==> paragraph@.len() == 0,
                first_paragraph_text(content@) == gather_paragraph(
                    views,
                    i as int,
                    paragraph@,
                    found,
                ),
            decreases lines.len() - i,
        {
            let line = trim(lines[i]);
            assert(views[i as int] == lines@[i as int]@);
            let heading = line.unicode_len() > 0 && line.get_char(0) == '#';
            if line.unicode_len() == 0 || heading {
                if found {
                    return paragraph;
                }
            } else {
                let ghost start = paragraph@;
                if found {
                    paragraph.append(" ");
                    paragraph.append(line);
                    assert(paragraph@ =~= start + " "@ + line@);
                } else {
                    paragraph.append(line);
                    assert(paragraph@ =~= line@);
                }
                found = true;
                if Self::byte_length(paragraph.as_str()) > SUMMARY_LIMIT {
                    return paragraph;
                }
            }
            i += 1;
        }
        paragraph
    }

    /// The number of bytes of a text.
    pub fn byte_length(text: &str) -> (length: usize)
        ensures
            length == encode_utf8(text@).len(),
    {
        text.as_bytes().len()
    }

    /// Whether a paragraph can be made a summary: it fits the summary
    /// limit, or its cut falls between two characters.
    pub fn fits_or_cuts_cleanly(paragraph: &str) -> (fine: bool)
        ensures
            fine == can_summarize(paragraph@),
    {
        Self::byte_length(paragraph) <= SUMMARY_LIMIT || paragraph.is_char_boundary(SUMMARY_CUT)
    }

    /// The summary of a paragraph that can be made one.
    pub fn cut_summary(paragraph: &str) -> (summary: String)
        requires
            can_summarize(paragraph@),
        ensures
            summary@ == summary_of(paragraph@),
    {
        if Self::byte_length(paragraph) > SUMMARY_LIMIT {
            let (head, _) = paragraph.split_at(SUMMARY_CUT);
            proof {
                vstd::utf8::encode_utf8_decode_utf8(head@);
                assert(head@ == decode_utf8(encode_utf8(paragraph@).subrange(0, SUMMARY_CUT as int)));
            }
            String::from_str(head).concat("...")
        } else {
            String::from_str(paragraph)
        }
    }

    /// The summary of an article: its first paragraph, cut to the summary
    /// limit. `None` where the cut would fall inside a character.
    pub fn try_extract_summary(content: &str) -> (summary: Option<String>)
        ensures
            summary is Some <==> can_summarize(first_paragraph_text(content@)),
            summary matches Some(text) ==> text@ == summary_of(first_paragraph_text(content@)),
    {
        let paragraph = Self::first_paragraph(content);
        if Self::fits_or_cuts_cleanly(paragraph.as_str()) {
            Some(Self::cut_summary(paragraph.as_str()))
        } else {
            None
        }
    }

    /// The summary of an article whose first paragraph can be cut.
    pub fn extract_summary(content: &str) -> (summary: String)
        requires
            can_summarize(first_paragraph_text(content@)),
        ensures
            summary@ == summary_of(first_paragraph_text(content@)),
    {
        let paragraph = Self::first_paragraph(content);
        Self::cut_summary(paragraph.as_str())
    }
}

} // verus!
