//! Reading the host's table of network interfaces, to find the index of the
//! TUN device that routes are to go through.

use crate::decimal::{decimal_number, parse_u32};
use vstd::prelude::*;

verus! {

/// Whether `needle` occurs in `text` as a run of consecutive characters.
pub open spec fn contains_text(text: Seq<char>, needle: Seq<char>) -> bool {
    exists|i: int|
        0 <= i <= text.len() - needle.len() && #[trigger] text.subrange(i, i + needle.len())
            == needle
}

/// What `str::lines` makes of a text: its lines in order, without their
/// line endings.
pub uninterp spec fn lines_of(text: Seq<char>) -> Seq<Seq<char>>;

/// What `str::split_whitespace` makes of a line: its words in order, the
/// runs of characters that are not white space.
pub uninterp spec fn words_of(line: Seq<char>) -> Seq<Seq<char>>;

/// The texts that a sequence of strings holds.
pub open spec fn texts(lines: Seq<String>) -> Seq<Seq<char>> {
    lines.map_values(|s: String| s@)
}

/// The index that one line of the table gives for the interface `name`: the
/// number that its first word spells, where the line names the interface.
pub open spec fn index_in_line(line: Seq<char>, name: Seq<char>) -> Option<u32> {
    if contains_text(line, name) && words_of(line).len() > 0 {
        match decimal_number(words_of(line)[0], u32::MAX as nat) {
            Some(n) => Some(n as u32),
            None => None,
        }
    } else {
        None
    }
}

/// The index that the table gives for the interface `name`: that of the
/// first line that gives one.
pub open spec fn index_in_lines(lines: Seq<Seq<char>>, name: Seq<char>) -> Option<u32>
    decreases lines.len(),
{
    if lines.len() == 0 {
        None
    } else {
        match index_in_line(lines[0], name) {
            Some(index) => Some(index),
            None => index_in_lines(lines.drop_first(), name),
        }
    }
}

/// `str::lines`, each line in a string of its own.
#[verifier::external_body]
fn text_lines(text: &str) -> (lines: Vec<String>)
    ensures
        texts(lines@) == lines_of(text@),
{
    text.lines().map(|line| line.to_string()).collect()
}

/// `str::contains` for a text as the pattern: whether the pattern matches
/// a part of the line.
#[verifier::external_body]
fn line_contains(line: &str, needle: &str) -> (found: bool)
    ensures
        found == contains_text(line@, needle@),
{
    line.contains(needle)
}

/// `str::split_whitespace`, each word in a string of its own.
#[verifier::external_body]
fn line_words(line: &str) -> (words: Vec<String>)
    ensures
        texts(words@) == words_of(line@),
{
    line.split_whitespace().map(|word| word.to_string()).collect()
}

/// Reads the index of the interface `interface_name` off the lines of the
/// host's table of interfaces.
pub fn interface_index_in_lines(lines: &Vec<String>, interface_name: &str) -> (r: Option<u32>)
    ensures
        r == index_in_lines(texts(lines@), interface_name@),
{
    let ghost all = texts(lines@);
    assert(all.skip(0) =~= all);
    let mut i: usize = 0;
    while i < lines.len()
        invariant
            i <= lines@.len(),
            all == texts(lines@),
            index_in_lines(all, interface_name@) == index_in_lines(
                all.skip(i as int),
                interface_name@,
            ),
        decreases lines@.len() - i,
    {
        let line: &str = lines[i].as_str();
        assert(all.skip(i as int)[0] == line@);
        assert(all.skip(i as int).drop_first() =~= all.skip(i + 1));
        if line_contains(line, interface_name) {
            let parts = line_words(line);
            if parts.len() > 0 {
                assert(texts(parts@)[0] == parts@[0]@);
                if let Some(index) = parse_u32(parts[0].as_str()) {
                    return Some(index);
                }
            }
        }
        i = i + 1;
    }
    assert(all.skip(i as int).len() == 0);
    None
}

/// Reads the index of the interface `interface_name` off the host's table
/// of interfaces, as the host printed it.
pub fn find_interface_index(output: &str, interface_name: &str) -> (r: Option<u32>)
    ensures
        r == index_in_lines(lines_of(output@), interface_name@),
{
    let lines = text_lines(output);
    interface_index_in_lines(&lines, interface_name)
}

} // verus!
