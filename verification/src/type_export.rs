//! Tidying generated type definitions: each definition comes with the same
//! leading comment, and only the first is kept.

use vstd::prelude::*;
use vstd::string::*;

use crate::primitives::lines_of;
use crate::primitives::split_lines;
use crate::primitives::trim_start;
use crate::primitives::trim_start_of;

verus! {

/// The texts of a sequence of strings.
pub open spec fn texts(lines: Seq<String>) -> Seq<Seq<char>> {
    Seq::new(lines.len(), |i: int| lines[i]@)
}

/// A line is a comment where two slashes follow its leading white space.
pub open spec fn is_comment_line(line: Seq<char>) -> bool {
    let rest = trim_start_of(line);
    rest.len() >= 2 && rest[0] == '/' && rest[1] == '/'
}

/// Some line is a comment.
pub open spec fn has_comment(lines: Seq<Seq<char>>) -> bool {
    exists|i: int| 0 <= i < lines.len() && is_comment_line(#[trigger] lines[i])
}

/// The lines without every comment line but the first. Empty lines and all
/// other lines stay where they are.
pub open spec fn first_comment_only(lines: Seq<Seq<char>>) -> Seq<Seq<char>>
    decreases lines.len(),
{
    if lines.len() == 0 {
        Seq::empty()
    } else if is_comment_line(lines.last()) && has_comment(lines.drop_last()) {
        first_comment_only(lines.drop_last())
    } else {
        first_comment_only(lines.drop_last()).push(lines.last())
    }
}

/// The lines with a line feed between each two.
pub open spec fn join_lines(lines: Seq<Seq<char>>) -> Seq<char>
    decreases lines.len(),
{
    if lines.len() == 0 {
        Seq::empty()
    } else if lines.len() == 1 {
        lines[0]
    } else {
        join_lines(lines.drop_last()) + "\n"@ + lines.last()
    }
}

fn is_comment(line: &str) -> (comment: bool)
    ensures
        comment == is_comment_line(line@),
{
    let rest = trim_start(line);
    rest.unicode_len() >= 2 && rest.get_char(0) == '/' && rest.get_char(1) == '/'
}

/// Joins the lines without every comment line but the first, and ends the
/// text with a line feed.
pub fn keep_first_comment(lines: &Vec<String>) -> (cleaned: String)
    ensures
        cleaned@ == join_lines(first_comment_only(texts(lines@))) + "\n"@,
{
    let ghost all = texts(lines@);
    let mut cleaned = String::new();
    let mut kept_any = false;
    let mut found_first_comment = false;
    let mut i: usize = 0;
    while i < lines.len()
        invariant
            i <= lines@.len(),
            all == texts(lines@),
            cleaned@ == join_lines(first_comment_only(all.take(i as int))),
            kept_any == (first_comment_only(all.take(i as int)).len() > 0),
            found_first_comment == has_comment(all.take(i as int)),
        decreases lines@.len() - i,
    {
        let line = lines[i].as_str();
        let ghost before = all.take(i as int);
        let ghost after = all.take(i + 1);
        proof {
            assert(after.drop_last() =~= before);
            assert(after.last() == line@);
            if has_comment(before) {
                let k = choose|k: int| 0 <= k < before.len() && is_comment_line(#[trigger] before[k]);
                assert(after[k] == before[k]);
            }
            if has_comment(after) && !is_comment_line(line@) {
                let k = choose|k: int| 0 <= k < after.len() && is_comment_line(#[trigger] after[k]);
                assert(before[k] == after[k]);
            }
        }
        let comment = is_comment(line);
        if !(comment && found_first_comment) {
            let ghost kept = first_comment_only(before);
            if kept_any {
                cleaned.append("\n");
            }
            cleaned.append(line);
            proof {
                let next = kept.push(line@);
                assert(next.drop_last() =~= kept);
                assert(next.last() == line@);
                if kept.len() == 0 {
                    assert(next[0] == line@);
                    assert(join_lines(kept) =~= Seq::<char>::empty());
                }
                assert(cleaned@ =~= join_lines(next));
            }
            kept_any = true;
        }
        if comment {
            proof {
                assert(is_comment_line(after[i as int]));
            }
            found_first_comment = true;
        }
        i += 1;
    }
    proof {
        assert(all.take(i as int) =~= all);
    }
    cleaned.append("\n");
    cleaned
}

/// Drops every comment line of a text after the first and ends the text
/// with a line feed.
pub fn remove_duplicate_comments(content: &str) -> (cleaned: String)
    ensures
        cleaned@ == join_lines(first_comment_only(lines_of(content@))) + "\n"@,
{
    let lines = split_lines(content);
    keep_first_comment(&lines)
}

} // verus!
