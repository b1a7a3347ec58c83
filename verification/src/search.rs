//! Searching the text files of a project: which files are looked into, and
//! which of their lines are reported.

use crate::text::{
    contains, holds, lemma_parts_view, lines, lines_of, lowercase, pieces, pieces_of, same_text,
    to_chars, to_lowercase, to_text, trim, trim_range, trimmed,
};
use vstd::prelude::*;

verus! {

#[verifier::external_type_specification]
#[verifier::external_body]
pub struct ExPattern(glob::Pattern);

/// Whether a text is a valid pattern on every platform: it has no opening
/// bracket and no two stars in a row. Only those two can make a pattern
/// invalid; a single star, a question mark and any other character always
/// stand for themselves.
pub open spec fn surely_compiles(text: Seq<char>) -> bool {
    &&& !text.contains('[')
    &&& forall|i: int|
        0 <= i && i + 1 < text.len() ==> !(#[trigger] text[i] == '*' && text[i + 1] == '*')
}

/// `glob::Pattern::new`: the compiled pattern, or `None` where the text is
/// no valid pattern. A text without bracket and without two stars in a row
/// is always compiled. Of other texts nothing is claimed: whether two stars
/// are valid depends on what the platform takes for a path separator.
#[verifier::external_body]
fn compile(text: &str) -> (r: Option<glob::Pattern>)
    ensures
        surely_compiles(text@) ==> r is Some,
{
    glob::Pattern::new(text).ok()
}

/// `glob::Pattern::matches`. The answer depends on what the platform takes
/// for a path separator, so nothing is claimed of it.
#[verifier::external_body]
fn pattern_matches(pattern: &glob::Pattern, text: &str) -> bool {
    pattern.matches(text)
}

/// A pattern for file names and paths: its text, and what the text was
/// compiled to.
#[derive(Debug)]
pub struct FilePattern {
    pub text: String,
    pub compiled: glob::Pattern,
}

/// One line that holds the text searched for.
#[derive(Clone, Debug)]
pub struct SearchResult {
    pub file: String,
    pub line: usize,
    pub content: String,
}

/// A reported line, as the contracts speak of it.
pub struct SearchResultModel {
    pub file: Seq<char>,
    pub line: int,
    pub content: Seq<char>,
}

impl DeepView for SearchResult {
    type V = SearchResultModel;

    open spec fn deep_view(&self) -> SearchResultModel {
        SearchResultModel { file: self.file@, line: self.line as int, content: self.content@ }
    }
}

/// The most results that a search reports.
pub open spec fn result_limit() -> int {
    200
}

/// The patterns among the first `n` pieces of a list: each piece without
/// the white space around it, if anything is left of it.
pub open spec fn pattern_pieces_upto(parts: Seq<Seq<char>>, n: int) -> Seq<Seq<char>>
    decreases n,
{
    if n <= 0 {
        Seq::<Seq<char>>::empty()
    } else if trimmed(parts[n - 1]).len() > 0 {
        pattern_pieces_upto(parts, n - 1).push(trimmed(parts[n - 1]))
    } else {
        pattern_pieces_upto(parts, n - 1)
    }
}

/// The patterns that a list separated by commas names; none if there is no
/// list or it is blank.
pub open spec fn pattern_pieces(input: Option<Seq<char>>) -> Seq<Seq<char>> {
    match input {
        Some(list) => if trimmed(list).len() > 0 {
            pattern_pieces_upto(pieces(list, ','), pieces(list, ',').len() as int)
        } else {
            Seq::<Seq<char>>::empty()
        },
        None => Seq::<Seq<char>>::empty(),
    }
}

/// The optional list, as the contracts speak of it.
pub open spec fn list_model(input: &Option<String>) -> Option<Seq<char>> {
    match input {
        Some(list) => Some(list@),
        None => None,
    }
}

/// Splits a list of patterns separated by commas into the texts of the
/// patterns.
pub fn split_patterns(input: &Option<String>) -> (texts: Vec<String>)
    ensures
        texts.deep_view() == pattern_pieces(list_model(input)),
{
    let mut texts: Vec<String> = Vec::new();
    proof {
        assert(texts.deep_view() =~= Seq::<Seq<char>>::empty());
    }
    let list = match input {
        Some(list) => list,
        None => {
            return texts;
        },
    };
    let chars = to_chars(list.as_str());
    let whole = trim(chars.as_slice());
    if whole.len() == 0 {
        return texts;
    }
    let parts = pieces_of(chars.as_slice(), ',');
    let mut i: usize = 0;
    proof {
        if parts@.len() > 0 {
            lemma_parts_view(parts, 0);
        }
    }
    while i < parts.len()
        invariant
            i <= parts@.len(),
            parts.deep_view() == pieces(list@, ','),
            parts.deep_view().len() == parts@.len(),
            texts.deep_view() == pattern_pieces_upto(parts.deep_view(), i as int),
        decreases parts@.len() - i,
    {
        proof {
            lemma_parts_view(parts, i as int);
        }
        let part = &parts[i];
        let (a, b) = trim_range(part.as_slice(), 0, part.len());
        proof {
            assert(part@.subrange(0, part@.len() as int) =~= part@);
        }
        if a < b {
            let ghost before = texts.deep_view();
            let text = to_text(part.as_slice(), a, b);
            let ghost added = text@;
            texts.push(text);
            proof {
                assert(texts.deep_view() =~= before.push(added));
            }
        }
        i = i + 1;
    }
    texts
}

/// The texts of a list of patterns, in order.
pub open spec fn pattern_texts(patterns: Seq<FilePattern>) -> Seq<Seq<char>> {
    Seq::new(patterns.len(), |i: int| patterns[i].text@)
}

/// `kept` is what compiling leaves of the first `n` texts: the texts in
/// their order, each either kept or left out, and none left out that is
/// valid on every platform.
pub open spec fn selected_from(kept: Seq<Seq<char>>, texts: Seq<Seq<char>>, n: int) -> bool
    decreases n,
{
    if n <= 0 {
        kept.len() == 0
    } else {
        (kept.len() > 0 && kept.last() == texts[n - 1] && selected_from(
            kept.drop_last(),
            texts,
            n - 1,
        )) || (!surely_compiles(texts[n - 1]) && selected_from(kept, texts, n - 1))
    }
}

/// A selection holds every text that is valid on every platform, and
/// nothing but texts of the list, no more of them than the list has.
pub proof fn lemma_selection(kept: Seq<Seq<char>>, texts: Seq<Seq<char>>, n: int)
    requires
        0 <= n <= texts.len(),
        selected_from(kept, texts, n),
    ensures
        kept.len() <= n,
        forall|i: int| 0 <= i < n && surely_compiles(texts[i]) ==> kept.contains(#[trigger] texts[i]),
        forall|k: int| 0 <= k < kept.len() ==> texts.contains(#[trigger] kept[k]),
    decreases n,
{
    if n > 0 {
        if kept.len() > 0 && kept.last() == texts[n - 1] && selected_from(
            kept.drop_last(),
            texts,
            n - 1,
        ) {
            let before = kept.drop_last();
            lemma_selection(before, texts, n - 1);
            assert forall|i: int| 0 <= i < n && surely_compiles(texts[i]) implies kept.contains(
                #[trigger] texts[i],
            ) by {
                if i == n - 1 {
                    assert(kept[kept.len() - 1] == texts[i]);
                } else {
                    let at = choose|at: int| 0 <= at < before.len() && before[at] == texts[i];
                    assert(kept[at] == texts[i]);
                }
            }
            assert forall|k: int| 0 <= k < kept.len() implies texts.contains(
                #[trigger] kept[k],
            ) by {
                if k == kept.len() - 1 {
                    assert(texts[n - 1] == kept[k]);
                } else {
                    assert(before[k] == kept[k]);
                }
            }
        } else {
            lemma_selection(kept, texts, n - 1);
        }
    }
}

/// Compiles the patterns of a list separated by commas: the list is split
/// at the commas, each text is taken without the white space around it,
/// empty texts are passed over, and the others are compiled in order. Texts
/// that are no valid pattern are left out; a text that is valid on every
/// platform never is.
pub fn parse_patterns(input: &Option<String>) -> (patterns: Vec<FilePattern>)
    ensures
        selected_from(
            pattern_texts(patterns@),
            pattern_pieces(list_model(input)),
            pattern_pieces(list_model(input)).len() as int,
        ),
        patterns@.len() <= pattern_pieces(list_model(input)).len(),
        forall|i: int|
            0 <= i < patterns@.len() ==> pattern_pieces(list_model(input)).contains(
                (#[trigger] patterns@[i]).text@,
            ),
{
    let texts = split_patterns(input);
    let mut patterns: Vec<FilePattern> = Vec::new();
    let mut i: usize = 0;
    while i < texts.len()
        invariant
            i <= texts@.len(),
            texts.deep_view() == pattern_pieces(list_model(input)),
            texts.deep_view().len() == texts@.len(),
            patterns@.len() <= i,
            selected_from(pattern_texts(patterns@), texts.deep_view(), i as int),
            forall|k: int|
                0 <= k < patterns@.len() ==> texts.deep_view().contains(
                    (#[trigger] patterns@[k]).text@,
                ),
        decreases texts@.len() - i,
    {
        let ghost before = pattern_texts(patterns@);
        proof {
            assert(texts.deep_view()[i as int] == texts@[i as int]@);
        }
        match compile(texts[i].as_str()) {
            Some(compiled) => {
                patterns.push(FilePattern { text: texts[i].clone(), compiled });
                proof {
                    let after = pattern_texts(patterns@);
                    assert(after.last() == texts.deep_view()[i as int]);
                    assert(after.drop_last() =~= before);
                }
            },
            None => {},
        }
        i = i + 1;
    }
    patterns
}

/// The path with every backslash turned into a slash.
pub open spec fn slashed(path: Seq<char>) -> Seq<char> {
    Seq::new(
        path.len(),
        |i: int|
            if path[i] == '\\' {
                '/'
            } else {
                path[i]
            },
    )
}

/// `slashed`, computed.
pub fn with_slashes(path: &str) -> (out: String)
    ensures
        out@ == slashed(path@),
{
    let chars = to_chars(path);
    let mut out = String::new();
    let mut i: usize = 0;
    while i < chars.len()
        invariant
            i <= chars@.len(),
            chars@ == path@,
            out@ == slashed(path@).take(i as int),
        decreases chars@.len() - i,
    {
        let c: char = if chars[i] == '\\' {
            '/'
        } else {
            chars[i]
        };
        out.push(c);
        proof {
            assert(slashed(path@).take(i + 1) =~= slashed(path@).take(i as int).push(c));
        }
        i = i + 1;
    }
    proof {
        assert(slashed(path@).take(chars@.len() as int) =~= slashed(path@));
    }
    out
}

/// Whether one of the answers is yes.
pub fn any_true(answers: &Vec<bool>) -> (yes: bool)
    ensures
        yes == exists|i: int| 0 <= i < answers@.len() && answers@[i],
{
    let mut i: usize = 0;
    while i < answers.len()
        invariant
            i <= answers@.len(),
            forall|j: int| 0 <= j < i ==> !answers@[j],
        decreases answers@.len() - i,
    {
        if answers[i] {
            return true;
        }
        i = i + 1;
    }
    false
}

/// Asks every pattern whether it matches the file's name, its path, or its
/// path written with slashes: three answers for each pattern.
fn match_answers(file_name: &str, path: &str, patterns: &Vec<FilePattern>) -> (answers: Vec<
    bool,
>)
    ensures
        answers@.len() == 3 * patterns@.len(),
{
    let other = with_slashes(path);
    let mut answers: Vec<bool> = Vec::new();
    let mut i: usize = 0;
    while i < patterns.len()
        invariant
            i <= patterns@.len(),
            answers@.len() == 3 * i,
        decreases patterns@.len() - i,
    {
        answers.push(pattern_matches(&patterns[i].compiled, file_name));
        answers.push(pattern_matches(&patterns[i].compiled, path));
        answers.push(pattern_matches(&patterns[i].compiled, other.as_str()));
        i = i + 1;
    }
    answers
}

/// Whether any of the patterns matches the file, by its name or its path.
/// Without patterns nothing matches.
pub fn matches_any_pattern(file_name: &str, path: &str, patterns: &Vec<FilePattern>) -> (yes:
    bool)
    ensures
        patterns@.len() == 0 ==> !yes,
{
    let answers = match_answers(file_name, path, patterns);
    any_true(&answers)
}

/// The directories that a search never enters.
pub open spec fn is_skipped_dir(name: Seq<char>) -> bool {
    name == "node_modules"@ || name == ".git"@ || name == "target"@ || name == "dist"@ || name
        == "build"@ || name == ".svelte-kit"@ || name == ".next"@ || name == "__pycache__"@
}

/// `is_skipped_dir`, computed.
pub fn skips_dir(name: &str) -> (yes: bool)
    ensures
        yes == is_skipped_dir(name@),
{
    same_text(name, "node_modules") || same_text(name, ".git") || same_text(name, "target")
        || same_text(name, "dist") || same_text(name, "build") || same_text(name, ".svelte-kit")
        || same_text(name, ".next") || same_text(name, "__pycache__")
}

/// The extensions, in lower case, of files that hold no text.
pub open spec fn binary_extensions() -> Seq<Seq<char>> {
    seq![
        "png"@,
        "jpg"@,
        "jpeg"@,
        "gif"@,
        "ico"@,
        "icns"@,
        "woff"@,
        "woff2"@,
        "ttf"@,
        "eot"@,
        "exe"@,
        "dll"@,
        "so"@,
        "dylib"@,
        "pdf"@,
        "zip"@,
        "tar"@,
        "gz"@,
        "webp"@,
        "svg"@,
        "mp3"@,
        "mp4"@,
        "wav"@,
        "avi"@,
    ]
}

/// Whether an extension, already in lower case, is that of a binary file.
pub fn is_binary_lowered(lowered: &str) -> (yes: bool)
    ensures
        yes == binary_extensions().contains(lowered@),
{
    let yes = same_text(lowered, "png") || same_text(lowered, "jpg") || same_text(lowered, "jpeg")
        || same_text(lowered, "gif") || same_text(lowered, "ico") || same_text(lowered, "icns")
        || same_text(lowered, "woff") || same_text(lowered, "woff2") || same_text(lowered, "ttf")
        || same_text(lowered, "eot") || same_text(lowered, "exe") || same_text(lowered, "dll")
        || same_text(lowered, "so") || same_text(lowered, "dylib") || same_text(lowered, "pdf")
        || same_text(lowered, "zip") || same_text(lowered, "tar") || same_text(lowered, "gz")
        || same_text(lowered, "webp") || same_text(lowered, "svg") || same_text(lowered, "mp3")
        || same_text(lowered, "mp4") || same_text(lowered, "wav") || same_text(lowered, "avi");
    proof {
        let all = binary_extensions();
        if yes {
            let at = choose|i: int| 0 <= i < all.len() && all[i] == lowered@;
            assert(all[at] == lowered@);
        } else {
            assert forall|i: int| 0 <= i < all.len() implies all[i] != lowered@ by {}
        }
    }
    yes
}

/// Whether a file is passed over for its extension, whatever its case.
pub fn is_binary_extension(extension: &str) -> (yes: bool)
    ensures
        yes == binary_extensions().contains(lowercase(extension@)),
{
    let lowered = to_lowercase(extension);
    is_binary_lowered(lowered.as_str())
}

/// Whether a file is looked into: it is no binary file, it matches one of
/// the patterns that select files if there are any, and none of those that
/// leave files out.
pub open spec fn is_wanted(binary: bool, selective: bool, selected: bool, left_out: bool) -> bool {
    !binary && (!selective || selected) && !left_out
}

/// `is_wanted`, computed.
pub fn wanted(binary: bool, selective: bool, selected: bool, left_out: bool) -> (yes: bool)
    ensures
        yes == is_wanted(binary, selective, selected, left_out),
{
    !binary && (!selective || selected) && !left_out
}

/// Decides whether a file is looked into, given the patterns that select
/// files and those that leave files out. A binary file never is; without
/// any pattern every other file is. With patterns it depends on what they
/// answer for the file: [`is_wanted`] says how.
pub fn wants_file(
    file_name: &str,
    path: &str,
    extension: &str,
    only: &Vec<FilePattern>,
    except: &Vec<FilePattern>,
) -> (yes: bool)
    ensures
        binary_extensions().contains(lowercase(extension@)) ==> !yes,
        only@.len() == 0 && except@.len() == 0 ==> yes == !binary_extensions().contains(
            lowercase(extension@),
        ),
{
    let binary = is_binary_extension(extension);
    let selected = matches_any_pattern(file_name, path, only);
    let left_out = matches_any_pattern(file_name, path, except);
    wanted(binary, only.len() > 0, selected, left_out)
}

/// The result for line `index` (counted from 0) of a file.
pub open spec fn result_for(file: Seq<char>, index: int, line: Seq<char>) -> SearchResultModel {
    SearchResultModel { file, line: index + 1, content: trimmed(line) }
}

/// The results that the first `n` lines of a file add to `have` earlier
/// ones: one for every line that holds the query, until a result brings the
/// total to the limit.
pub open spec fn found_upto(
    all: Seq<Seq<char>>,
    file: Seq<char>,
    query: Seq<char>,
    have: int,
    n: int,
) -> Seq<SearchResultModel>
    decreases n,
{
    if n <= 0 {
        Seq::<SearchResultModel>::empty()
    } else {
        let earlier = found_upto(all, file, query, have, n - 1);
        if earlier.len() > 0 && have + earlier.len() >= result_limit() {
            earlier
        } else if holds(all[n - 1], query) {
            earlier.push(result_for(file, n - 1, all[n - 1]))
        } else {
            earlier
        }
    }
}

/// Appends to `results` the lines of a file that hold the query, with the
/// file's name, the number of the line and the line without the white space
/// around it. The scan ends with the result that brings the total to 200.
pub fn scan_file(results: &mut Vec<SearchResult>, file: &str, content: &str, query: &str)
    ensures
        final(results).deep_view() == old(results).deep_view() + found_upto(
            lines(content@),
            file@,
            query@,
            old(results)@.len() as int,
            lines(content@).len() as int,
        ),
{
    let chars = to_chars(content);
    let all = lines_of(chars.as_slice());
    let wanted = to_chars(query);
    let ghost have = old(results)@.len() as int;
    let ghost start = old(results).deep_view();
    let mut i: usize = 0;
    let mut added: usize = 0;
    proof {
        if all@.len() > 0 {
            lemma_parts_view(all, 0);
        }
        assert(start + found_upto(all.deep_view(), file@, query@, have, 0) =~= start);
    }
    while i < all.len()
        invariant
            i <= all@.len(),
            wanted@ == query@,
            all.deep_view() == lines(content@),
            all.deep_view().len() == all@.len(),
            start.len() == have,
            start == old(results).deep_view(),
            have == old(results)@.len(),
            added == found_upto(all.deep_view(), file@, query@, have, i as int).len(),
            added <= i,
            results.deep_view() == start + found_upto(
                all.deep_view(),
                file@,
                query@,
                have,
                i as int,
            ),
            results@.len() == have + added,
        decreases all@.len() - i,
    {
        proof {
            lemma_parts_view(all, i as int);
        }
        if added > 0 && results.len() >= 200 {
            proof {
                lemma_found_stays(all.deep_view(), file@, query@, have, i as int, all@.len() as int);
            }
            return ;
        }
        let line = &all[i];
        if contains(line.as_slice(), wanted.as_slice()) {
            let (a, b) = trim_range(line.as_slice(), 0, line.len());
            proof {
                assert(line@.subrange(0, line@.len() as int) =~= line@);
            }
            let ghost before = results.deep_view();
            let result = SearchResult {
                file: String::from_str(file),
                line: i + 1,
                content: to_text(line.as_slice(), a, b),
            };
            let ghost model = result.deep_view();
            results.push(result);
            added = added + 1;
            proof {
                assert(results.deep_view() =~= before.push(model));
                assert(model == result_for(file@, i as int, all.deep_view()[i as int]));
                assert(before.push(model) =~= start + found_upto(
                    all.deep_view(),
                    file@,
                    query@,
                    have,
                    i + 1,
                ));
            }
        }
        i = i + 1;
    }
}

/// Once the limit is reached, further lines add nothing.
pub proof fn lemma_found_stays(
    all: Seq<Seq<char>>,
    file: Seq<char>,
    query: Seq<char>,
    have: int,
    n: int,
    m: int,
)
    requires
        0 <= n <= m,
        found_upto(all, file, query, have, n).len() > 0,
        have + found_upto(all, file, query, have, n).len() >= result_limit(),
    ensures
        found_upto(all, file, query, have, m) == found_upto(all, file, query, have, n),
    decreases m - n,
{
    if n < m {
        lemma_found_stays(all, file, query, have, n, m - 1);
    }
}

/// A file that a search looks into: its path and what it holds, if that
/// could be read as text.
#[derive(Debug)]
pub struct TextFile {
    pub path: String,
    pub content: Option<String>,
}

/// The results of searching the first `n` files, in order: each readable
/// file adds its matching lines, and no file is looked into once the limit
/// is reached.
pub open spec fn found_in(files: Seq<TextFile>, query: Seq<char>, n: int) -> Seq<
    SearchResultModel,
>
    decreases n,
{
    if n <= 0 {
        Seq::<SearchResultModel>::empty()
    } else {
        let earlier = found_in(files, query, n - 1);
        if earlier.len() >= result_limit() {
            earlier
        } else {
            match files[n - 1].content {
                Some(content) => earlier + found_upto(
                    lines(content@),
                    files[n - 1].path@,
                    query,
                    earlier.len() as int,
                    lines(content@).len() as int,
                ),
                None => earlier,
            }
        }
    }
}

/// Searches the given files for the lines that hold the query, up to the
/// limit of 200 results.
pub fn search_in_files(query: &str, files: &Vec<TextFile>) -> (results: Vec<SearchResult>)
    ensures
        results.deep_view() == found_in(files@, query@, files@.len() as int),
{
    let mut results: Vec<SearchResult> = Vec::new();
    let mut i: usize = 0;
    proof {
        assert(results.deep_view() =~= Seq::<SearchResultModel>::empty());
    }
    while i < files.len()
        invariant
            i <= files@.len(),
            results.deep_view().len() == results@.len(),
            results.deep_view() == found_in(files@, query@, i as int),
        decreases files@.len() - i,
    {
        if limit_reached(&results) {
            proof {
                lemma_found_in_stays(files@, query@, i as int, files@.len() as int);
            }
            return results;
        }
        match &files[i].content {
            Some(content) => {
                scan_file(&mut results, files[i].path.as_str(), content.as_str(), query);
            },
            None => {},
        }
        i = i + 1;
    }
    results
}

/// Once the limit is reached, further files add nothing.
pub proof fn lemma_found_in_stays(files: Seq<TextFile>, query: Seq<char>, n: int, m: int)
    requires
        0 <= n <= m,
        found_in(files, query, n).len() >= result_limit(),
    ensures
        found_in(files, query, m) == found_in(files, query, n),
    decreases m - n,
{
    if n < m {
        lemma_found_in_stays(files, query, n, m - 1);
    }
}

/// Whether a search has gathered all the results it reports.
pub fn limit_reached(results: &Vec<SearchResult>) -> (yes: bool)
    ensures
        yes == (results@.len() >= result_limit()),
{
    results.len() >= 200
}

} // verus!
