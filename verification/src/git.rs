//! Reading the short status that git prints for a working tree.

use crate::text::{
    chars_before_byte, lemma_parts_view, lines, lines_of, locate_byte, to_chars, to_text,
    trim_range, trimmed, utf8_bytes,
};
use vstd::prelude::*;

verus! {

/// One changed file: its path, the letter of its state, and whether the
/// change is staged.
#[derive(Clone, Debug)]
pub struct FileStatus {
    pub path: String,
    pub status: String,
    pub staged: bool,
}

/// The changed files of a working tree, staged and not.
#[derive(Clone, Debug)]
pub struct GitStatusResult {
    pub staged: Vec<FileStatus>,
    pub unstaged: Vec<FileStatus>,
}

/// A changed file, as the contracts speak of it.
pub struct FileStatusModel {
    pub path: Seq<char>,
    pub status: Seq<char>,
    pub staged: bool,
}

impl DeepView for FileStatus {
    type V = FileStatusModel;

    open spec fn deep_view(&self) -> FileStatusModel {
        FileStatusModel { path: self.path@, status: self.status@, staged: self.staged }
    }
}

/// What one line of the status says: the letter for the index, the letter
/// for the working tree, and the path, which is what follows the third byte
/// without the white space around it. Lines of fewer than four bytes say
/// nothing, nor do lines whose third byte ends inside a character.
pub open spec fn status_line(line: Seq<char>) -> Option<(char, char, Seq<char>)> {
    if utf8_bytes(line) < 4 {
        None
    } else {
        match chars_before_byte(line, 3) {
            None => None,
            Some(k) => Some(
                (
                    line[0],
                    if line.len() > 1 {
                        line[1]
                    } else {
                        ' '
                    },
                    trimmed(line.skip(k)),
                ),
            ),
        }
    }
}

/// The staged change that a line reports: one if the letter for the index
/// is neither blank nor a question mark.
pub open spec fn staged_entry(line: Seq<char>) -> Seq<FileStatusModel> {
    match status_line(line) {
        Some((x, y, path)) => if x != ' ' && x != '?' {
            seq![FileStatusModel { path, status: seq![x], staged: true }]
        } else {
            Seq::<FileStatusModel>::empty()
        },
        None => Seq::<FileStatusModel>::empty(),
    }
}

/// The unstaged change that a line reports: one if the letter for the
/// working tree is not blank; an untracked file is marked `??`.
pub open spec fn unstaged_entry(line: Seq<char>) -> Seq<FileStatusModel> {
    match status_line(line) {
        Some((x, y, path)) => if y != ' ' {
            seq![
                FileStatusModel {
                    path,
                    status: if x == '?' && y == '?' {
                        "??"@
                    } else {
                        seq![y]
                    },
                    staged: false,
                },
            ]
        } else {
            Seq::<FileStatusModel>::empty()
        },
        None => Seq::<FileStatusModel>::empty(),
    }
}

/// The staged changes of the first `n` lines.
pub open spec fn staged_upto(all: Seq<Seq<char>>, n: int) -> Seq<FileStatusModel>
    decreases n,
{
    if n <= 0 {
        Seq::<FileStatusModel>::empty()
    } else {
        staged_upto(all, n - 1) + staged_entry(all[n - 1])
    }
}

/// The unstaged changes of the first `n` lines.
pub open spec fn unstaged_upto(all: Seq<Seq<char>>, n: int) -> Seq<FileStatusModel>
    decreases n,
{
    if n <= 0 {
        Seq::<FileStatusModel>::empty()
    } else {
        unstaged_upto(all, n - 1) + unstaged_entry(all[n - 1])
    }
}

/// Appends one change to a list.
fn push_change(list: &mut Vec<FileStatus>, change: FileStatus)
    ensures
        final(list).deep_view() == old(list).deep_view().push(change.deep_view()),
{
    let ghost added = change.deep_view();
    list.push(change);
    proof {
        assert(list.deep_view() =~= old(list).deep_view().push(added));
    }
}

/// A text of one character.
fn one_char(c: char) -> (s: String)
    ensures
        s@ == seq![c],
{
    let mut s = String::new();
    s.push(c);
    proof {
        assert(s@ =~= seq![c]);
    }
    s
}

/// `status_line`, computed.
fn read_line(line: &Vec<char>) -> (r: Option<(char, char, String)>)
    ensures
        match r {
            Some(parts) => status_line(line@) == Some((parts.0, parts.1, parts.2@)),
            None => status_line(line@) is None,
        },
{
    let (cut, long_enough) = locate_byte(line.as_slice(), 3, 4);
    if !long_enough {
        return None;
    }
    match cut {
        None => None,
        Some(k) => {
            let (a, b) = trim_range(line.as_slice(), k, line.len());
            let path = to_text(line.as_slice(), a, b);
            let x: char = line[0];
            let y: char = if line.len() > 1 {
                line[1]
            } else {
                ' '
            };
            proof {
                assert(line@.skip(k as int) =~= line@.subrange(k as int, line@.len() as int));
            }
            Some((x, y, path))
        },
    }
}

/// Reads the output of `git status --porcelain`: which files have staged
/// changes and which have changes not staged, each in the order of the lines.
pub fn git_status(output: &str) -> (r: GitStatusResult)
    ensures
        r.staged.deep_view() == staged_upto(lines(output@), lines(output@).len() as int),
        r.unstaged.deep_view() == unstaged_upto(lines(output@), lines(output@).len() as int),
{
    let chars = to_chars(output);
    let all = lines_of(chars.as_slice());
    let mut staged: Vec<FileStatus> = Vec::new();
    let mut unstaged: Vec<FileStatus> = Vec::new();
    let mut i: usize = 0;
    proof {
        assert(staged.deep_view() =~= Seq::<FileStatusModel>::empty());
        assert(unstaged.deep_view() =~= Seq::<FileStatusModel>::empty());
        if all@.len() > 0 {
            lemma_parts_view(all, 0);
        }
    }
    while i < all.len()
        invariant
            i <= all@.len(),
            all.deep_view() == lines(output@),
            all.deep_view().len() == all@.len(),
            staged.deep_view() == staged_upto(all.deep_view(), i as int),
            unstaged.deep_view() == unstaged_upto(all.deep_view(), i as int),
        decreases all@.len() - i,
    {
        proof {
            lemma_parts_view(all, i as int);
        }
        let ghost staged_before = staged.deep_view();
        let ghost unstaged_before = unstaged.deep_view();
        match read_line(&all[i]) {
            None => {
                proof {
                    assert(staged_before + staged_entry(all.deep_view()[i as int])
                        =~= staged_before);
                    assert(unstaged_before + unstaged_entry(all.deep_view()[i as int])
                        =~= unstaged_before);
                }
            },
            Some((x, y, path)) => {
                if x != ' ' && x != '?' {
                    push_change(
                        &mut staged,
                        FileStatus { path: path.clone(), status: one_char(x), staged: true },
                    );
                    proof {
                        assert(staged.deep_view() =~= staged_before + staged_entry(
                            all.deep_view()[i as int],
                        ));
                    }
                } else {
                    proof {
                        assert(staged_before + staged_entry(all.deep_view()[i as int])
                            =~= staged_before);
                    }
                }
                if y != ' ' {
                    let status = if x == '?' && y == '?' {
                        String::from_str("??")
                    } else {
                        one_char(y)
                    };
                    push_change(&mut unstaged, FileStatus { path, status, staged: false });
                    proof {
                        assert(unstaged.deep_view() =~= unstaged_before + unstaged_entry(
                            all.deep_view()[i as int],
                        ));
                    }
                } else {
                    proof {
                        assert(unstaged_before + unstaged_entry(all.deep_view()[i as int])
                            =~= unstaged_before);
                    }
                }
            },
        }
        i = i + 1;
    }
    GitStatusResult { staged, unstaged }
}

/// The name of the current branch as `git rev-parse --abbrev-ref HEAD`
/// prints it: the output without the white space around it.
pub fn git_branch(output: &str) -> (branch: String)
    ensures
        branch@ == trimmed(output@),
{
    let chars = to_chars(output);
    let (a, b) = trim_range(chars.as_slice(), 0, chars.len());
    proof {
        assert(chars@.subrange(0, chars@.len() as int) =~= chars@);
    }
    to_text(chars.as_slice(), a, b)
}

} // verus!
