//! Working with text as sequences of characters.

use vstd::prelude::*;
use vstd::string::StringSliceAdditionalSpecFns;
use vstd::utf8::encode_utf8_decode_utf8;

verus! {

/// The text in lower case, as `str::to_lowercase` gives it: the lower-case
/// mapping of Unicode applied to every character.
pub uninterp spec fn lowercase(s: Seq<char>) -> Seq<char>;

/// `str::to_lowercase`.
#[verifier::external_body]
pub(crate) fn to_lowercase(s: &str) -> (lowered: String)
    ensures
        lowered@ == lowercase(s@),
{
    s.to_lowercase()
}

/// `String::push` appends one character.
pub assume_specification[ String::push ](s: &mut String, c: char)
    ensures
        final(s)@ == old(s)@.push(c),
;

/// The characters of a string, one by one.
pub fn to_chars(s: &str) -> (chars: Vec<char>)
    ensures
        chars@ == s@,
{
    let mut chars: Vec<char> = Vec::new();
    for c in it: s.chars()
        invariant
            it.seq() == s@,
            chars@ == it.seq().take(it.index() as int),
    {
        chars.push(c);
        proof {
            assert(it.seq().take(it.index() + 1) =~= it.seq().take(it.index() as int).push(c));
        }
    }
    proof {
        assert(s@.take(s@.len() as int) =~= s@);
    }
    chars
}

/// The string made of the characters from `from` up to `to`.
pub fn to_text(chars: &[char], from: usize, to: usize) -> (s: String)
    requires
        from <= to <= chars@.len(),
    ensures
        s@ == chars@.subrange(from as int, to as int),
{
    let mut s = String::new();
    let mut i: usize = from;
    while i < to
        invariant
            from <= i <= to <= chars@.len(),
            s@ == chars@.subrange(from as int, i as int),
        decreases to - i,
    {
        s.push(chars[i]);
        proof {
            assert(chars@.subrange(from as int, i + 1) =~= chars@.subrange(
                from as int,
                i as int,
            ).push(chars@[i as int]));
        }
        i = i + 1;
    }
    s
}

/// Whether two strings hold the same characters.
pub fn same_text(a: &str, b: &str) -> (same: bool)
    ensures
        same == (a@ == b@),
{
    let x = a.as_bytes();
    let y = b.as_bytes();
    proof {
        encode_utf8_decode_utf8(a@);
        encode_utf8_decode_utf8(b@);
    }
    if x.len() != y.len() {
        return false;
    }
    let mut i: usize = 0;
    while i < x.len()
        invariant
            i <= x@.len(),
            x@.len() == y@.len(),
            x@ == a.spec_bytes(),
            y@ == b.spec_bytes(),
            forall|j: int| 0 <= j < i ==> x@[j] == y@[j],
        decreases x@.len() - i,
    {
        if x[i] != y[i] {
            return false;
        }
        i = i + 1;
    }
    proof {
        assert(x@ =~= y@);
    }
    true
}

/// Whether `chars` begins with `prefix`.
pub fn starts_with(chars: &[char], prefix: &[char]) -> (yes: bool)
    ensures
        yes == prefix@.is_prefix_of(chars@),
{
    if prefix.len() > chars.len() {
        return false;
    }
    let mut i: usize = 0;
    while i < prefix.len()
        invariant
            i <= prefix@.len() <= chars@.len(),
            forall|j: int| 0 <= j < i ==> prefix@[j] == chars@[j],
        decreases prefix@.len() - i,
    {
        if prefix[i] != chars[i] {
            proof {
                assert(chars@.subrange(0, prefix@.len() as int)[i as int] == chars@[i as int]);
            }
            return false;
        }
        i = i + 1;
    }
    true
}

/// Whether `chars` ends with `suffix`.
pub fn ends_with(chars: &[char], suffix: &[char]) -> (yes: bool)
    ensures
        yes == suffix@.is_suffix_of(chars@),
{
    if suffix.len() > chars.len() {
        return false;
    }
    let total: usize = chars.len();
    let shift: usize = total - suffix.len();
    let mut i: usize = 0;
    while i < suffix.len()
        invariant
            i <= suffix@.len() <= chars@.len(),
            chars@.len() == total,
            shift == chars@.len() - suffix@.len(),
            forall|j: int| 0 <= j < i ==> suffix@[j] == chars@[shift + j],
        decreases suffix@.len() - i,
    {
        if suffix[i] != chars[shift + i] {
            proof {
                assert(chars@.subrange(shift as int, chars@.len() as int)[i as int] == chars@[shift
                    + i]);
            }
            return false;
        }
        i = i + 1;
    }
    true
}

/// The characters with the Unicode property `White_Space`.
pub open spec fn is_space(c: char) -> bool {
    let code = c as u32;
    (0x09 <= code <= 0x0D) || code == 0x20 || code == 0x85 || code == 0xA0 || code == 0x1680 || (
    0x2000 <= code <= 0x200A) || code == 0x2028 || code == 0x2029 || code == 0x202F || code
        == 0x205F || code == 0x3000
}

/// `is_space`, computed.
pub fn is_whitespace(c: char) -> (yes: bool)
    ensures
        yes == is_space(c),
{
    let code: u32 = c as u32;
    (0x09 <= code && code <= 0x0D) || code == 0x20 || code == 0x85 || code == 0xA0 || code
        == 0x1680 || (0x2000 <= code && code <= 0x200A) || code == 0x2028 || code == 0x2029
        || code == 0x202F || code == 0x205F || code == 0x3000
}

/// The text without the white space it begins with.
pub open spec fn trim_start(s: Seq<char>) -> Seq<char>
    decreases s.len(),
{
    if s.len() > 0 && is_space(s[0]) {
        trim_start(s.drop_first())
    } else {
        s
    }
}

/// The text without the white space it ends with.
pub open spec fn trim_end(s: Seq<char>) -> Seq<char>
    decreases s.len(),
{
    if s.len() > 0 && is_space(s.last()) {
        trim_end(s.drop_last())
    } else {
        s
    }
}

/// The text without the white space at either end.
pub open spec fn trimmed(s: Seq<char>) -> Seq<char> {
    trim_end(trim_start(s))
}

/// The part of `chars` between `from` and `to` without the white space at
/// either end, as a range.
pub fn trim_range(chars: &[char], from: usize, to: usize) -> (r: (usize, usize))
    requires
        from <= to <= chars@.len(),
    ensures
        from <= r.0 <= r.1 <= to,
        chars@.subrange(r.0 as int, r.1 as int) == trimmed(chars@.subrange(from as int, to as int)),
{
    let mut a: usize = from;
    while a < to && is_whitespace(chars[a])
        invariant
            from <= a <= to <= chars@.len(),
            trim_start(chars@.subrange(from as int, to as int)) == trim_start(
                chars@.subrange(a as int, to as int),
            ),
        decreases to - a,
    {
        proof {
            assert(chars@.subrange(a as int, to as int).drop_first() =~= chars@.subrange(
                a + 1,
                to as int,
            ));
        }
        a = a + 1;
    }
    let mut b: usize = to;
    while a < b && is_whitespace(chars[b - 1])
        invariant
            a <= b <= to <= chars@.len(),
            trim_end(chars@.subrange(a as int, to as int)) == trim_end(
                chars@.subrange(a as int, b as int),
            ),
        decreases b - a,
    {
        proof {
            assert(chars@.subrange(a as int, b as int).drop_last() =~= chars@.subrange(
                a as int,
                b - 1,
            ));
        }
        b = b - 1;
    }
    (a, b)
}

/// The characters between `from` and `to`, copied.
pub fn slice_chars(chars: &[char], from: usize, to: usize) -> (part: Vec<char>)
    requires
        from <= to <= chars@.len(),
    ensures
        part@ == chars@.subrange(from as int, to as int),
{
    let mut part: Vec<char> = Vec::new();
    let mut i: usize = from;
    while i < to
        invariant
            from <= i <= to <= chars@.len(),
            part@ == chars@.subrange(from as int, i as int),
        decreases to - i,
    {
        part.push(chars[i]);
        proof {
            assert(chars@.subrange(from as int, i + 1) =~= chars@.subrange(
                from as int,
                i as int,
            ).push(chars@[i as int]));
        }
        i = i + 1;
    }
    part
}

/// The text without the white space at either end, copied.
pub fn trim(chars: &[char]) -> (part: Vec<char>)
    ensures
        part@ == trimmed(chars@),
{
    let (a, b) = trim_range(chars, 0, chars.len());
    proof {
        assert(chars@.subrange(0, chars@.len() as int) =~= chars@);
    }
    slice_chars(chars, a, b)
}

/// Appends one part to a list of parts.
pub fn push_part(out: &mut Vec<Vec<char>>, part: Vec<char>)
    ensures
        final(out).deep_view() == old(out).deep_view().push(part@),
        final(out)@.len() == old(out)@.len() + 1,
{
    let ghost added = part;
    proof {
        assert(added.deep_view() =~= added@);
    }
    out.push(part);
    proof {
        assert(out.deep_view() =~= old(out).deep_view().push(added@));
    }
}

/// The text of a list of character vectors is what each of them holds.
pub proof fn lemma_parts_view(parts: Vec<Vec<char>>, i: int)
    requires
        0 <= i < parts@.len(),
    ensures
        parts.deep_view().len() == parts@.len(),
        parts.deep_view()[i] == parts@[i]@,
{
    assert(parts@[i].deep_view() =~= parts@[i]@);
}

/// A line that ended at `end`, without the carriage return before the line feed.
pub open spec fn line_of(s: Seq<char>, start: int, end: int) -> Seq<char> {
    if start < end && s[end - 1] == '\r' {
        s.subrange(start, end - 1)
    } else {
        s.subrange(start, end)
    }
}

/// The lines from position `from` on, where the current line began at `start`.
pub open spec fn split_lines(s: Seq<char>, from: int, start: int) -> Seq<Seq<char>>
    decreases s.len() - from,
{
    if from >= s.len() {
        if start < s.len() {
            seq![s.subrange(start, s.len() as int)]
        } else {
            Seq::<Seq<char>>::empty()
        }
    } else if s[from] == '\n' {
        seq![line_of(s, start, from)] + split_lines(s, from + 1, from + 1)
    } else {
        split_lines(s, from + 1, start)
    }
}

/// The lines of a text: it is cut at every line feed, a carriage return just
/// before the line feed goes with it, and a last line without line feed
/// counts if it is not empty.
pub open spec fn lines(s: Seq<char>) -> Seq<Seq<char>> {
    split_lines(s, 0, 0)
}

/// `lines`, computed.
pub fn lines_of(chars: &[char]) -> (out: Vec<Vec<char>>)
    ensures
        out.deep_view() == lines(chars@),
{
    let mut out: Vec<Vec<char>> = Vec::new();
    let mut start: usize = 0;
    let mut i: usize = 0;
    proof {
        assert(out.deep_view() =~= Seq::<Seq<char>>::empty());
        assert(out.deep_view() + split_lines(chars@, 0, 0) =~= split_lines(chars@, 0, 0));
    }
    while i < chars.len()
        invariant
            start <= i <= chars@.len(),
            lines(chars@) == out.deep_view() + split_lines(chars@, i as int, start as int),
        decreases chars@.len() - i,
    {
        if chars[i] == '\n' {
            let end: usize = if start < i && chars[i - 1] == '\r' {
                i - 1
            } else {
                i
            };
            let line = slice_chars(chars, start, end);
            let ghost before = out.deep_view();
            push_part(&mut out, line);
            proof {
                assert(before + (seq![line_of(chars@, start as int, i as int)] + split_lines(
                    chars@,
                    i + 1,
                    i + 1,
                )) =~= out.deep_view() + split_lines(chars@, i + 1, i + 1));
            }
            start = i + 1;
        }
        i = i + 1;
    }
    if start < chars.len() {
        let line = slice_chars(chars, start, chars.len());
        let ghost before = out.deep_view();
        push_part(&mut out, line);
        proof {
            assert(out.deep_view() =~= before + seq![chars@.subrange(
                start as int,
                chars@.len() as int,
            )]);
        }
    } else {
        proof {
            assert(out.deep_view() + Seq::<Seq<char>>::empty() =~= out.deep_view());
        }
    }
    out
}

/// The words from position `from` on, where the current word began at
/// `start`; `start == from` while no word has begun.
pub open spec fn split_words(s: Seq<char>, from: int, start: int) -> Seq<Seq<char>>
    decreases s.len() - from,
{
    if from >= s.len() {
        if start < s.len() {
            seq![s.subrange(start, s.len() as int)]
        } else {
            Seq::<Seq<char>>::empty()
        }
    } else if is_space(s[from]) {
        (if start < from {
            seq![s.subrange(start, from)]
        } else {
            Seq::<Seq<char>>::empty()
        }) + split_words(s, from + 1, from + 1)
    } else {
        split_words(s, from + 1, start)
    }
}

/// The words of a text: the longest stretches without white space.
pub open spec fn words(s: Seq<char>) -> Seq<Seq<char>> {
    split_words(s, 0, 0)
}

/// `words`, computed.
pub fn words_of(chars: &[char]) -> (out: Vec<Vec<char>>)
    ensures
        out.deep_view() == words(chars@),
{
    let mut out: Vec<Vec<char>> = Vec::new();
    let mut start: usize = 0;
    let mut i: usize = 0;
    proof {
        assert(out.deep_view() =~= Seq::<Seq<char>>::empty());
        assert(out.deep_view() + split_words(chars@, 0, 0) =~= split_words(chars@, 0, 0));
    }
    while i < chars.len()
        invariant
            start <= i <= chars@.len(),
            words(chars@) == out.deep_view() + split_words(chars@, i as int, start as int),
        decreases chars@.len() - i,
    {
        if is_whitespace(chars[i]) {
            if start < i {
                let word = slice_chars(chars, start, i);
                let ghost before = out.deep_view();
                push_part(&mut out, word);
                proof {
                    assert(before + (seq![chars@.subrange(start as int, i as int)] + split_words(
                        chars@,
                        i + 1,
                        i + 1,
                    )) =~= out.deep_view() + split_words(chars@, i + 1, i + 1));
                }
            } else {
                proof {
                    assert(Seq::<Seq<char>>::empty() + split_words(chars@, i + 1, i + 1)
                        =~= split_words(chars@, i + 1, i + 1));
                }
            }
            start = i + 1;
        }
        i = i + 1;
    }
    if start < chars.len() {
        let word = slice_chars(chars, start, chars.len());
        let ghost before = out.deep_view();
        push_part(&mut out, word);
        proof {
            assert(out.deep_view() =~= before + seq![chars@.subrange(
                start as int,
                chars@.len() as int,
            )]);
        }
    } else {
        proof {
            assert(out.deep_view() + Seq::<Seq<char>>::empty() =~= out.deep_view());
        }
    }
    out
}

/// The pieces from position `from` on, where the current piece began at `start`.
pub open spec fn split_on(s: Seq<char>, separator: char, from: int, start: int) -> Seq<Seq<char>>
    decreases s.len() - from,
{
    if from >= s.len() {
        seq![s.subrange(start, s.len() as int)]
    } else if s[from] == separator {
        seq![s.subrange(start, from)] + split_on(s, separator, from + 1, from + 1)
    } else {
        split_on(s, separator, from + 1, start)
    }
}

/// The pieces between the separators, empty ones included: one more than
/// there are separators.
pub open spec fn pieces(s: Seq<char>, separator: char) -> Seq<Seq<char>> {
    split_on(s, separator, 0, 0)
}

/// `pieces`, computed.
pub fn pieces_of(chars: &[char], separator: char) -> (out: Vec<Vec<char>>)
    ensures
        out.deep_view() == pieces(chars@, separator),
{
    let mut out: Vec<Vec<char>> = Vec::new();
    let mut start: usize = 0;
    let mut i: usize = 0;
    proof {
        assert(out.deep_view() =~= Seq::<Seq<char>>::empty());
        assert(out.deep_view() + split_on(chars@, separator, 0, 0) =~= split_on(
            chars@,
            separator,
            0,
            0,
        ));
    }
    while i < chars.len()
        invariant
            start <= i <= chars@.len(),
            pieces(chars@, separator) == out.deep_view() + split_on(
                chars@,
                separator,
                i as int,
                start as int,
            ),
        decreases chars@.len() - i,
    {
        if chars[i] == separator {
            let piece = slice_chars(chars, start, i);
            let ghost before = out.deep_view();
            push_part(&mut out, piece);
            proof {
                assert(before + (seq![chars@.subrange(start as int, i as int)] + split_on(
                    chars@,
                    separator,
                    i + 1,
                    i + 1,
                )) =~= out.deep_view() + split_on(chars@, separator, i + 1, i + 1));
            }
            start = i + 1;
        }
        i = i + 1;
    }
    let piece = slice_chars(chars, start, chars.len());
    let ghost before = out.deep_view();
    push_part(&mut out, piece);
    proof {
        assert(out.deep_view() =~= before + seq![chars@.subrange(
            start as int,
            chars@.len() as int,
        )]);
    }
    out
}

/// Whether `part` occurs in `s` at position `at`.
pub open spec fn occurs_at(s: Seq<char>, part: Seq<char>, at: int) -> bool {
    0 <= at && at + part.len() <= s.len() && s.subrange(at, at + part.len()) == part
}

/// Whether `part` occurs somewhere in `s`.
pub open spec fn holds(s: Seq<char>, part: Seq<char>) -> bool {
    exists|at: int| occurs_at(s, part, at)
}

/// `occurs_at`, computed.
pub fn occurs(chars: &[char], part: &[char], at: usize) -> (yes: bool)
    ensures
        yes == occurs_at(chars@, part@, at as int),
{
    let total: usize = chars.len();
    if at > total || part.len() > total - at {
        return false;
    }
    let mut i: usize = 0;
    while i < part.len()
        invariant
            i <= part@.len(),
            chars@.len() == total,
            at + part@.len() <= chars@.len(),
            forall|j: int| 0 <= j < i ==> part@[j] == chars@[at + j],
        decreases part@.len() - i,
    {
        if part[i] != chars[at + i] {
            proof {
                assert(chars@.subrange(at as int, at + part@.len())[i as int] == chars@[at + i]);
            }
            return false;
        }
        i = i + 1;
    }
    proof {
        assert(chars@.subrange(at as int, at + part@.len()) =~= part@);
    }
    true
}

/// `holds`, computed.
pub fn contains(chars: &[char], part: &[char]) -> (yes: bool)
    ensures
        yes == holds(chars@, part@),
{
    if part.len() > chars.len() {
        return false;
    }
    if part.len() == 0 {
        proof {
            assert(chars@.subrange(0, 0) =~= part@);
            assert(occurs_at(chars@, part@, 0));
        }
        return true;
    }
    let last: usize = chars.len() - part.len();
    let mut at: usize = 0;
    while at <= last
        invariant
            at <= last + 1,
            last < chars@.len() <= usize::MAX,
            last == chars@.len() - part@.len(),
            forall|k: int| 0 <= k < at ==> !occurs_at(chars@, part@, k),
        decreases last + 1 - at,
    {
        if occurs(chars, part, at) {
            return true;
        }
        at = at + 1;
    }
    false
}

/// The text from position `from` on without the occurrences of `part`,
/// which are looked for from left to right and do not overlap.
pub open spec fn remove_from(s: Seq<char>, part: Seq<char>, from: int) -> Seq<char>
    decreases s.len() - from,
{
    if from >= s.len() || from < 0 {
        Seq::<char>::empty()
    } else if part.len() > 0 && occurs_at(s, part, from) {
        remove_from(s, part, from + part.len())
    } else {
        seq![s[from]] + remove_from(s, part, from + 1)
    }
}

/// The text without the occurrences of `part`.
pub open spec fn without(s: Seq<char>, part: Seq<char>) -> Seq<char> {
    remove_from(s, part, 0)
}

/// `without`, computed.
pub fn remove_all(chars: &[char], part: &[char]) -> (out: Vec<char>)
    ensures
        out@ == without(chars@, part@),
{
    let mut out: Vec<char> = Vec::new();
    let mut i: usize = 0;
    proof {
        assert(out@ + remove_from(chars@, part@, 0) =~= remove_from(chars@, part@, 0));
    }
    while i < chars.len()
        invariant
            i <= chars@.len(),
            without(chars@, part@) == out@ + remove_from(chars@, part@, i as int),
        decreases chars@.len() - i,
    {
        if part.len() > 0 && occurs(chars, part, i) {
            i = i + part.len();
        } else {
            let ghost before = out@;
            out.push(chars[i]);
            proof {
                assert(before + (seq![chars@[i as int]] + remove_from(chars@, part@, i + 1))
                    =~= out@ + remove_from(chars@, part@, i + 1));
            }
            i = i + 1;
        }
    }
    proof {
        assert(out@ + Seq::<char>::empty() =~= out@);
    }
    out
}

/// The number of bytes that a character takes in UTF-8.
pub open spec fn utf8_len(c: char) -> int {
    let code = c as u32;
    if code < 0x80 {
        1
    } else if code < 0x800 {
        2
    } else if code < 0x1_0000 {
        3
    } else {
        4
    }
}

/// The number of bytes that a text takes in UTF-8.
pub open spec fn utf8_bytes(s: Seq<char>) -> int
    decreases s.len(),
{
    if s.len() == 0 {
        0
    } else {
        utf8_bytes(s.drop_last()) + utf8_len(s.last())
    }
}

/// The number of characters that end exactly at byte `at` of the text's
/// UTF-8 form; `None` if byte `at` lies inside a character or past the end.
pub open spec fn chars_before_byte(s: Seq<char>, at: int) -> Option<int> {
    if exists|k: int| 0 <= k <= s.len() && utf8_bytes(s.take(k)) == at {
        Some(choose|k: int| 0 <= k <= s.len() && utf8_bytes(s.take(k)) == at)
    } else {
        None
    }
}

/// Every character takes at least one byte.
pub proof fn lemma_utf8_bytes_grow(s: Seq<char>, k: int)
    requires
        0 <= k <= s.len(),
    ensures
        utf8_bytes(s.take(k)) >= k,
        k < s.len() ==> utf8_bytes(s.take(k + 1)) == utf8_bytes(s.take(k)) + utf8_len(s[k]),
        utf8_bytes(s.take(k)) <= utf8_bytes(s),
    decreases s.len() - k,
{
    lemma_utf8_bytes_prefix(s, k);
    if k < s.len() {
        assert(s.take(k + 1).drop_last() =~= s.take(k));
        lemma_utf8_bytes_grow(s, k + 1);
    } else {
        assert(s.take(k) =~= s);
    }
}

/// A prefix of `k` characters takes at least `k` bytes.
proof fn lemma_utf8_bytes_prefix(s: Seq<char>, k: int)
    requires
        0 <= k <= s.len(),
    ensures
        utf8_bytes(s.take(k)) >= k,
    decreases k,
{
    if k > 0 {
        assert(s.take(k).drop_last() =~= s.take(k - 1));
        lemma_utf8_bytes_prefix(s, k - 1);
    }
}

/// `utf8_len`, computed.
pub fn utf8_len_of(c: char) -> (n: usize)
    ensures
        n == utf8_len(c),
{
    let code: u32 = c as u32;
    if code < 0x80 {
        1
    } else if code < 0x800 {
        2
    } else if code < 0x1_0000 {
        3
    } else {
        4
    }
}

/// Finds the character boundary at byte `at`, and tells whether the text
/// has at least `least` bytes.
pub fn locate_byte(chars: &[char], at: usize, least: usize) -> (r: (Option<usize>, bool))
    ensures
        r.1 == (utf8_bytes(chars@) >= least),
        match r.0 {
            Some(k) => chars_before_byte(chars@, at as int) == Some(k as int) && k
                <= chars@.len() && utf8_bytes(chars@.take(k as int)) == at,
            None => chars_before_byte(chars@, at as int) is None,
        },
{
    let mut bytes: u128 = 0;
    let mut found: Option<usize> = None;
    let mut k: usize = 0;
    proof {
        assert(chars@.take(0) =~= Seq::<char>::empty());
    }
    if at == 0 {
        found = Some(0);
    }
    while k < chars.len() && (bytes < least as u128 || bytes < at as u128)
        invariant
            k <= chars@.len(),
            bytes == utf8_bytes(chars@.take(k as int)),
            bytes <= usize::MAX + 4,
            match found {
                Some(j) => j <= k && utf8_bytes(chars@.take(j as int)) == at,
                None => forall|j: int| 0 <= j <= k ==> utf8_bytes(chars@.take(j)) != at,
            },
        decreases chars@.len() - k,
    {
        proof {
            lemma_utf8_bytes_grow(chars@, k as int);
        }
        bytes = bytes + utf8_len_of(chars[k]) as u128;
        k = k + 1;
        if bytes == at as u128 && found.is_none() {
            found = Some(k);
        }
    }
    proof {
        lemma_utf8_bytes_grow(chars@, k as int);
        assert(chars@.take(chars@.len() as int) =~= chars@);
        match found {
            Some(j) => {
                // the boundary is unique: byte counts grow strictly
                let c = choose|c: int| 0 <= c <= chars@.len() && utf8_bytes(chars@.take(c)) == at;
                lemma_utf8_strict(chars@, j as int, c);
                lemma_utf8_strict(chars@, c, j as int);
            },
            None => {
                assert forall|j: int| 0 <= j <= chars@.len() implies utf8_bytes(chars@.take(j))
                    != at by {
                    if j > k {
                        lemma_utf8_strict(chars@, k as int, j);
                    }
                }
            },
        }
    }
    (found, bytes >= least as u128)
}

/// A longer prefix takes more bytes.
pub proof fn lemma_utf8_strict(s: Seq<char>, a: int, b: int)
    requires
        0 <= a <= s.len(),
        0 <= b <= s.len(),
    ensures
        a < b ==> utf8_bytes(s.take(a)) < utf8_bytes(s.take(b)),
    decreases b,
{
    if a < b {
        lemma_utf8_bytes_grow(s, b - 1);
        lemma_utf8_strict(s, a, b - 1);
    }
}

/// The character of a decimal digit.
pub open spec fn digit(d: int) -> char {
    (48 + d) as u8 as char
}

/// A number written in decimal digits, without leading zeros.
pub open spec fn decimal(n: nat) -> Seq<char>
    decreases n,
{
    if n < 10 {
        seq![digit(n as int)]
    } else {
        decimal(n / 10).push(digit((n % 10) as int))
    }
}

/// Appends a number in decimal digits.
pub fn push_decimal(s: &mut String, n: u64)
    ensures
        final(s)@ == old(s)@ + decimal(n as nat),
    decreases n,
{
    if n >= 10 {
        push_decimal(s, n / 10);
    }
    let d: u8 = 48 + (n % 10) as u8;
    s.push(d as char);
    proof {
        if n >= 10 {
            assert(old(s)@ + decimal(n as nat) =~= (old(s)@ + decimal((n / 10) as nat)).push(
                digit((n % 10) as int),
            ));
        } else {
            assert(old(s)@ + decimal(n as nat) =~= old(s)@.push(digit(n as int)));
        }
    }
}

/// A number with its sign, in decimal digits.
pub open spec fn signed_decimal(n: int) -> Seq<char> {
    if n < 0 {
        seq!['-'] + decimal((-n) as nat)
    } else {
        decimal(n as nat)
    }
}

/// Appends a number with its sign.
pub fn push_signed(s: &mut String, n: i32)
    ensures
        final(s)@ == old(s)@ + signed_decimal(n as int),
{
    if n < 0 {
        s.push('-');
        let size: u64 = (-(n as i64)) as u64;
        push_decimal(s, size);
        proof {
            assert(old(s)@.push('-') + decimal(size as nat) =~= old(s)@ + (seq!['-'] + decimal(
                size as nat,
            )));
        }
    } else {
        push_decimal(s, n as u64);
    }
}

/// Whether the character is one of the ten digits.
pub open spec fn is_digit(c: char) -> bool {
    '0' <= c <= '9'
}

/// The number that a text of digits stands for; `None` if the text is empty
/// or holds anything else.
pub open spec fn digits_value(s: Seq<char>) -> Option<int>
    decreases s.len(),
{
    if s.len() == 0 || !is_digit(s.last()) {
        None
    } else if s.len() == 1 {
        Some(s.last() as int - 48)
    } else {
        match digits_value(s.drop_last()) {
            Some(v) => Some(10 * v + (s.last() as int - 48)),
            None => None,
        }
    }
}

/// The digits of a number text, after its sign.
pub open spec fn unsigned_part(s: Seq<char>) -> Seq<char> {
    if s.len() > 0 && (s[0] == '-' || s[0] == '+') {
        s.drop_first()
    } else {
        s
    }
}

/// The 32-bit number that a text stands for: an optional sign and at least
/// one digit, nothing else, and a value within range.
pub open spec fn parse_i32(s: Seq<char>) -> Option<i32> {
    match digits_value(unsigned_part(s)) {
        None => None,
        Some(v) => {
            let n = if s[0] == '-' {
                -v
            } else {
                v
            };
            if i32::MIN <= n <= i32::MAX {
                Some(n as i32)
            } else {
                None
            }
        },
    }
}

/// The value of a text of digits is at least that of any of its beginnings,
/// and every character of it is a digit.
pub proof fn lemma_digits_prefix(s: Seq<char>, k: int)
    requires
        1 <= k <= s.len(),
        digits_value(s) is Some,
    ensures
        digits_value(s.take(k)) is Some,
        0 <= digits_value(s.take(k))->0 <= digits_value(s)->0,
        is_digit(s[k - 1]),
    decreases s.len() - k,
{
    if k == s.len() {
        assert(s.take(k) =~= s);
        lemma_digits_nonnegative(s);
    } else {
        assert(s.drop_last().take(k) =~= s.take(k));
        lemma_digits_prefix(s.drop_last(), k);
    }
}

/// The value of a text of digits is not negative.
pub proof fn lemma_digits_nonnegative(s: Seq<char>)
    requires
        digits_value(s) is Some,
    ensures
        digits_value(s)->0 >= 0,
    decreases s.len(),
{
    if s.len() > 1 {
        lemma_digits_nonnegative(s.drop_last());
    }
}

/// `parse_i32`, computed.
pub fn parse_int(chars: &[char]) -> (r: Option<i32>)
    ensures
        r == parse_i32(chars@),
{
    let n: usize = chars.len();
    let negative: bool = n > 0 && chars[0] == '-';
    let first: usize = if n > 0 && (chars[0] == '-' || chars[0] == '+') {
        1
    } else {
        0
    };
    let ghost body = unsigned_part(chars@);
    proof {
        assert(body =~= chars@.subrange(first as int, n as int));
    }
    if first == n {
        return None;
    }
    let mut value: i64 = 0;
    let mut i: usize = first;
    while i < n
        invariant
            first <= i <= n,
            n == chars@.len(),
            body == chars@.subrange(first as int, n as int),
            body == unsigned_part(chars@),
            0 <= value <= 0x8000_0000,
            i == first ==> value == 0,
            i > first ==> digits_value(body.take(i - first)) == Some(value as int),
        decreases n - i,
    {
        let c: char = chars[i];
        if !(c >= '0' && c <= '9') {
            proof {
                assert(body[i - first] == c);
                if digits_value(body) is Some {
                    lemma_digits_prefix(body, i - first + 1);
                }
            }
            return None;
        }
        let d: i64 = (c as u32 - 48) as i64;
        let grown: i64 = 10 * value + d;
        proof {
            let upto = body.take(i - first + 1);
            assert(upto.last() == c);
            assert(upto.drop_last() =~= body.take(i - first));
            assert(digits_value(upto) == Some(grown as int));
        }
        if grown > 0x8000_0000 {
            proof {
                if digits_value(body) is Some {
                    lemma_digits_prefix(body, i - first + 1);
                }
            }
            return None;
        }
        value = grown;
        i = i + 1;
    }
    proof {
        assert(body.take(n - first) =~= body);
    }
    if negative {
        Some((-value) as i32)
    } else if value > 0x7FFF_FFFF {
        None
    } else {
        Some(value as i32)
    }
}

/// The text without the characters `c` it begins with.
pub open spec fn strip_start(s: Seq<char>, c: char) -> Seq<char>
    decreases s.len(),
{
    if s.len() > 0 && s[0] == c {
        strip_start(s.drop_first(), c)
    } else {
        s
    }
}

/// The text without the characters `c` it ends with.
pub open spec fn strip_end(s: Seq<char>, c: char) -> Seq<char>
    decreases s.len(),
{
    if s.len() > 0 && s.last() == c {
        strip_end(s.drop_last(), c)
    } else {
        s
    }
}

/// The text without the characters `c` at either end.
pub open spec fn stripped(s: Seq<char>, c: char) -> Seq<char> {
    strip_end(strip_start(s, c), c)
}

/// `stripped`, computed.
pub fn strip(chars: &[char], c: char) -> (part: Vec<char>)
    ensures
        part@ == stripped(chars@, c),
{
    let to: usize = chars.len();
    let mut a: usize = 0;
    proof {
        assert(chars@.subrange(0, to as int) =~= chars@);
    }
    while a < to && chars[a] == c
        invariant
            a <= to == chars@.len(),
            strip_start(chars@, c) == strip_start(chars@.subrange(a as int, to as int), c),
        decreases to - a,
    {
        proof {
            assert(chars@.subrange(a as int, to as int).drop_first() =~= chars@.subrange(
                a + 1,
                to as int,
            ));
        }
        a = a + 1;
    }
    let mut b: usize = to;
    while a < b && chars[b - 1] == c
        invariant
            a <= b <= to == chars@.len(),
            strip_end(chars@.subrange(a as int, to as int), c) == strip_end(
                chars@.subrange(a as int, b as int),
                c,
            ),
        decreases b - a,
    {
        proof {
            assert(chars@.subrange(a as int, b as int).drop_last() =~= chars@.subrange(
                a as int,
                b - 1,
            ));
        }
        b = b - 1;
    }
    slice_chars(chars, a, b)
}

/// Appends the characters to the string.
pub fn push_chars(s: &mut String, chars: &[char])
    ensures
        final(s)@ == old(s)@ + chars@,
{
    let mut i: usize = 0;
    proof {
        assert(s@ + chars@.take(0) =~= s@);
    }
    while i < chars.len()
        invariant
            i <= chars@.len(),
            s@ == old(s)@ + chars@.take(i as int),
        decreases chars@.len() - i,
    {
        s.push(chars[i]);
        proof {
            assert(old(s)@ + chars@.take(i + 1) =~= (old(s)@ + chars@.take(i as int)).push(
                chars@[i as int],
            ));
        }
        i = i + 1;
    }
    proof {
        assert(chars@.take(chars@.len() as int) =~= chars@);
    }
}

} // verus!
