//! The manifest format: one entry per line, as
//! `Category|Filename|URL|SHA256`, where the digest may be left out.
//! Whitespace around a line is ignored. Blank lines, lines that start with
//! `#` and lines with fewer than three fields give no entry and no error.

use crate::entry::{entry_views, ModEntry, ModEntryView};
use crate::resolve::ModManager;
use crate::text::{
    chars_of, find_from, is_whitespace, join, lemma_join_ends, lemma_join_split, lemma_split_free,
    lemma_split_head, lemma_split_join, lemma_trim_ends, lemma_trim_fixed, split, trim,
    trim_bounds,
};
use vstd::prelude::*;
use vstd::string::*;

verus! {

/// The character that separates the fields of a line.
pub open spec fn field_separator() -> char {
    '|'
}

/// The character that marks a line as a comment.
pub open spec fn comment_marker() -> char {
    '#'
}

/// The entry that a line of a manifest stands for, if it stands for one.
pub open spec fn parse_line_spec(line: Seq<char>) -> Option<ModEntryView> {
    let trimmed = trim(line);
    if trimmed.len() == 0 || trimmed[0] == comment_marker() {
        None
    } else {
        let fields = split(trimmed, field_separator());
        if fields.len() < 3 {
            None
        } else {
            Some(
                ModEntryView {
                    category: fields[0],
                    filename: fields[1],
                    url: fields[2],
                    sha256: if fields.len() > 3 {
                        Some(fields[3])
                    } else {
                        None
                    },
                },
            )
        }
    }
}

/// The fields of an entry in the order of the format: the digest comes last,
/// and only where the entry has one.
pub open spec fn fields_of(entry: ModEntryView) -> Seq<Seq<char>> {
    match entry.sha256 {
        Some(digest) => seq![entry.category, entry.filename, entry.url, digest],
        None => seq![entry.category, entry.filename, entry.url],
    }
}

/// The line that stands for an entry: its fields, joined by the separator.
pub open spec fn line_of(entry: ModEntryView) -> Seq<char> {
    join(fields_of(entry), field_separator())
}

/// The entries that a sequence of lines stands for, in the order of the
/// lines. A line that stands for no entry is passed over.
pub open spec fn entries_of(lines: Seq<Seq<char>>) -> Seq<ModEntryView>
    decreases lines.len(),
{
    if lines.len() == 0 {
        Seq::empty()
    } else {
        let before = entries_of(lines.drop_last());
        match parse_line_spec(lines.last()) {
            Some(entry) => before.push(entry),
            None => before,
        }
    }
}

/// The entries of a manifest. Its lines end at a line feed; a carriage
/// return before the line feed is whitespace at the end of the line.
pub open spec fn parse_manifest(text: Seq<char>) -> Seq<ModEntryView> {
    entries_of(split(text, '\n'))
}

/// The view of an optional entry.
pub open spec fn entry_view(entry: Option<ModEntry>) -> Option<ModEntryView> {
    match entry {
        Some(e) => Some(e@),
        None => None,
    }
}

/// A line gives no entry exactly when it is blank, is a comment, or has
/// fewer than three fields.
pub proof fn lemma_dropped_lines(line: Seq<char>)
    ensures
        parse_line_spec(line) is None <==> {
            ||| trim(line).len() == 0
            ||| trim(line)[0] == comment_marker()
            ||| split(trim(line), field_separator()).len() < 3
        },
{
}

/// Writing an entry that was read from a line and reading it again gives the
/// same entry. The one exception is a line with more than four fields of
/// which the fourth ends in whitespace: the entry is written without the
/// fields that followed, so that the whitespace ends the line and is trimmed
/// when read again.
pub proof fn lemma_parse_line_round_trip(line: Seq<char>)
    requires
        parse_line_spec(line) is Some,
        ({
            let fields = split(trim(line), field_separator());
            fields.len() > 4 && fields[3].len() > 0 ==> !is_whitespace(fields[3].last())
        }),
    ensures
        parse_line_spec(line_of(parse_line_spec(line)->0)) == parse_line_spec(line),
{
    let sep = field_separator();
    let t = trim(line);
    let all = split(t, sep);
    let entry = parse_line_spec(line)->0;
    let kept = fields_of(entry);
    let written = line_of(entry);
    assert(kept =~= all.take(kept.len() as int));
    lemma_split_free(t, sep);
    lemma_split_join(kept, sep);
    lemma_join_split(t, sep);
    lemma_trim_ends(line);
    lemma_join_ends(kept, sep);
    lemma_join_ends(all, sep);
    if kept.len() == all.len() {
        assert(kept =~= all);
    }
    lemma_trim_fixed(written);
}

/// The part of `line` between the character positions `from` and `to`.
fn field(line: &str, from: usize, to: usize) -> (s: String)
    requires
        from <= to <= line@.len(),
    ensures
        s@ == line@.subrange(from as int, to as int),
{
    line.substring_char(from, to).to_owned()
}

/// Reads one line of a manifest. The result is `None` for a line that stands
/// for no entry: a blank line, a comment, or a line with fewer than three
/// fields.
pub fn parse_line(line: &str) -> (r: Option<ModEntry>)
    ensures
        entry_view(r) == parse_line_spec(line@),
{
    let chars = chars_of(line);
    let (a, b) = trim_bounds(&chars);
    if a == b {
        return None;
    }
    let ghost sep = field_separator();
    let ghost t = trim(line@);
    assert(t[0] == chars@[a as int]);
    if chars[a] == '#' {
        return None;
    }
    let first = find_from(&chars, a, b, '|');
    proof {
        lemma_split_head(t, sep);
    }
    if first == b {
        return None;
    }
    let ghost t1 = t.skip(first - a + 1);
    assert(t1 =~= chars@.subrange(first + 1, b as int));
    let second = find_from(&chars, first + 1, b, '|');
    proof {
        lemma_split_head(t1, sep);
    }
    if second == b {
        return None;
    }
    let ghost t2 = t1.skip(second - first);
    assert(t2 =~= chars@.subrange(second + 1, b as int));
    let third = find_from(&chars, second + 1, b, '|');
    proof {
        lemma_split_head(t2, sep);
        assert(split(t, sep) =~= seq![t.take(first - a), t1.take(second - first - 1)] + split(
            t2,
            sep,
        ));
        assert(t.take(first - a) =~= line@.subrange(a as int, first as int));
        assert(t1.take(second - first - 1) =~= line@.subrange(first + 1, second as int));
        assert(t2.take(third - second - 1) =~= line@.subrange(second + 1, third as int));
    }
    let category = field(line, a, first);
    let filename = field(line, first + 1, second);
    let url = field(line, second + 1, third);
    let sha256 = if third == b {
        None
    } else {
        let ghost t3 = t2.skip(third - second);
        assert(t3 =~= chars@.subrange(third + 1, b as int));
        let fourth = find_from(&chars, third + 1, b, '|');
        proof {
            lemma_split_head(t3, sep);
            assert(t3.take(fourth - third - 1) =~= line@.subrange(third + 1, fourth as int));
        }
        Some(field(line, third + 1, fourth))
    };
    Some(ModEntry { filename, url, sha256, category })
}

impl ModEntry {
    /// Writes the entry as a line of a manifest.
    pub fn to_line(&self) -> (line: String)
        ensures
            line@ == line_of(self@),
    {
        proof {
            reveal_strlit("|");
            reveal_with_fuel(join, 4);
        }
        assert("|"@ =~= seq![field_separator()]);
        let mut line = self.category.clone();
        line.append("|");
        line.append(self.filename.as_str());
        line.append("|");
        line.append(self.url.as_str());
        match &self.sha256 {
            Some(digest) => {
                line.append("|");
                line.append(digest.as_str());
            },
            None => {},
        }
        proof {
            let fields = fields_of(self@);
            assert(fields.drop_first().drop_first().len() >= 1);
            assert(line@ =~= line_of(self@));
        }
        line
    }
}

impl ModManager {
    /// Reads the entries of a manifest, in the order of its lines. Lines
    /// that stand for no entry are passed over in silence: no text is
    /// refused.
    pub fn load_mod_entries(text: &str) -> (entries: Vec<ModEntry>)
        ensures
            entry_views(entries@) == parse_manifest(text@),
    {
        let chars = chars_of(text);
        let n = chars.len();
        let mut entries: Vec<ModEntry> = Vec::new();
        let mut start: usize = 0;
        let ghost mut lines: Seq<Seq<char>> = Seq::empty();
        assert(text@.skip(0) =~= text@);
        assert(lines + split(text@, '\n') =~= split(text@, '\n'));
        loop
            invariant_except_break
                split(text@, '\n') == lines + split(text@.skip(start as int), '\n'),
                entry_views(entries@) == entries_of(lines),
            invariant
                chars@ == text@,
                n == chars.len(),
                start <= n,
            ensures
                entry_views(entries@) == parse_manifest(text@),
            decreases n - start,
        {
            let end = find_from(&chars, start, n, '\n');
            let ghost rest = text@.skip(start as int);
            assert(rest =~= chars@.subrange(start as int, n as int));
            let entry = parse_line(text.substring_char(start, end));
            proof {
                lemma_split_head(rest, '\n');
                let line = rest.take(end - start);
                assert(line =~= text@.subrange(start as int, end as int));
                assert(lines.push(line).drop_last() =~= lines);
                if end < n {
                    assert(rest.skip(end - start + 1) =~= text@.skip(end + 1));
                    assert(lines + (seq![line] + split(text@.skip(end + 1), '\n')) =~= lines.push(
                        line,
                    ) + split(text@.skip(end + 1), '\n'));
                } else {
                    assert(lines + seq![rest] =~= lines.push(line));
                }
                lines = lines.push(line);
            }
            let ghost before = entry_views(entries@);
            match entry {
                Some(e) => {
                    entries.push(e);
                    assert(entry_views(entries@) =~= before.push(e@));
                },
                None => {},
            }
            if end == n {
                assert(lines == split(text@, '\n'));
                break ;
            }
            start = end + 1;
        }
        entries
    }
}

} // verus!
