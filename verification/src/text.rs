//! Text primitives: the string operations the launcher's rules are written in.
//!
//! Every contract speaks of a string as its sequence of characters.
use vstd::prelude::*;

verus! {

// ---------------------------------------------------------------------------
// Characters and conversion
// ---------------------------------------------------------------------------

/// The characters of `text`, in order.
pub fn chars_of(text: &str) -> (chars: Vec<char>)
    ensures
        chars@ == text@,
{
    let mut chars: Vec<char> = Vec::new();
    for c in it: text.chars()
        invariant
            chars@ == text@.take(it.index()),
            it.seq() == text@,
    {
        chars.push(c);
        assert(text@.take(it.index() + 1) =~= text@.take(it.index()).push(c));
    }
    assert(text@.take(text@.len() as int) =~= text@);
    chars
}

/// The characters `from..to` of `chars` as a string.
pub fn text_of(chars: &Vec<char>, from: usize, to: usize) -> (text: String)
    requires
        from <= to <= chars@.len(),
    ensures
        text@ == chars@.subrange(from as int, to as int),
{
    let mut text = String::new();
    let mut i: usize = from;
    while i < to
        invariant
            from <= i <= to <= chars@.len(),
            text@ == chars@.subrange(from as int, i as int),
        decreases to - i,
    {
        text.push(chars[i]);
        assert(chars@.subrange(from as int, i + 1) =~= chars@.subrange(from as int, i as int).push(
            chars@[i as int],
        ));
        i = i + 1;
    }
    text
}

/// Whether two strings hold the same characters.
pub fn same_text(left: &str, right: &str) -> (same: bool)
    ensures
        same == (left@ == right@),
{
    left.to_owned() == right.to_owned()
}

/// The two strings one after the other.
pub fn concat2(a: &str, b: &str) -> (text: String)
    ensures
        text@ == a@ + b@,
{
    let mut text = a.to_owned();
    text.append(b);
    text
}

/// The three strings one after the other.
pub fn concat3(a: &str, b: &str, c: &str) -> (text: String)
    ensures
        text@ == a@ + b@ + c@,
{
    let mut text = concat2(a, b);
    text.append(c);
    text
}

/// The four strings one after the other.
pub fn concat4(a: &str, b: &str, c: &str, d: &str) -> (text: String)
    ensures
        text@ == a@ + b@ + c@ + d@,
{
    let mut text = concat3(a, b, c);
    text.append(d);
    text
}

/// A copy of a list of strings.
pub fn copy_texts(items: &Vec<String>) -> (copy: Vec<String>)
    ensures
        copy.deep_view() == items.deep_view(),
{
    let mut copy: Vec<String> = Vec::new();
    let mut i: usize = 0;
    while i < items.len()
        invariant
            i <= items@.len(),
            copy.deep_view() == items.deep_view().take(i as int),
        decreases items@.len() - i,
    {
        let ghost before = copy.deep_view();
        copy.push(items[i].clone());
        assert(copy.deep_view() =~= before.push(items.deep_view()[i as int]));
        assert(items.deep_view().take(i + 1) =~= before.push(items.deep_view()[i as int]));
        i = i + 1;
    }
    assert(items.deep_view().take(i as int) =~= items.deep_view());
    copy
}

// ---------------------------------------------------------------------------
// White space
// ---------------------------------------------------------------------------

/// The Unicode `White_Space` property.
pub open spec fn is_white_space(c: char) -> bool {
    ||| '\u{9}' <= c <= '\u{d}'
    ||| c == '\u{20}'
    ||| c == '\u{85}'
    ||| c == '\u{a0}'
    ||| c == '\u{1680}'
    ||| '\u{2000}' <= c <= '\u{200a}'
    ||| c == '\u{2028}'
    ||| c == '\u{2029}'
    ||| c == '\u{202f}'
    ||| c == '\u{205f}'
    ||| c == '\u{3000}'
}

/// Whether `c` is white space.
pub fn white_space(c: char) -> (r: bool)
    ensures
        r == is_white_space(c),
{
    ('\u{9}' <= c && c <= '\u{d}') || c == '\u{20}' || c == '\u{85}' || c == '\u{a0}' || c
        == '\u{1680}' || ('\u{2000}' <= c && c <= '\u{200a}') || c == '\u{2028}' || c == '\u{2029}'
        || c == '\u{202f}' || c == '\u{205f}' || c == '\u{3000}'
}

/// `s` without its leading white space.
pub open spec fn trim_start_text(s: Seq<char>) -> Seq<char>
    decreases s.len(),
{
    if s.len() > 0 && is_white_space(s[0]) {
        trim_start_text(s.skip(1))
    } else {
        s
    }
}

/// `s` without its trailing white space.
pub open spec fn trim_end_text(s: Seq<char>) -> Seq<char>
    decreases s.len(),
{
    if s.len() > 0 && is_white_space(s.last()) {
        trim_end_text(s.drop_last())
    } else {
        s
    }
}

/// `s` without its leading and trailing white space.
pub open spec fn trim_text(s: Seq<char>) -> Seq<char> {
    trim_end_text(trim_start_text(s))
}

/// `text` without its leading and trailing white space.
pub fn trim(text: &str) -> (trimmed: String)
    ensures
        trimmed@ == trim_text(text@),
{
    let chars = chars_of(text);
    let mut from: usize = 0;
    assert(chars@.skip(0) =~= chars@);
    while from < chars.len() && white_space(chars[from])
        invariant
            from <= chars@.len(),
            trim_start_text(chars@) == trim_start_text(chars@.skip(from as int)),
        decreases chars@.len() - from,
    {
        assert(chars@.skip(from as int).skip(1) =~= chars@.skip(from + 1));
        from = from + 1;
    }
    let ghost start = chars@.skip(from as int);
    assert(trim_start_text(chars@) == start);
    let mut to: usize = chars.len();
    assert(chars@.subrange(from as int, to as int) =~= start);
    while from < to && white_space(chars[to - 1])
        invariant
            from <= to <= chars@.len(),
            trim_end_text(start) == trim_end_text(chars@.subrange(from as int, to as int)),
        decreases to - from,
    {
        assert(chars@.subrange(from as int, to as int).drop_last() =~= chars@.subrange(
            from as int,
            to - 1,
        ));
        to = to - 1;
    }
    text_of(&chars, from, to)
}

/// Whether `text` holds nothing but white space.
pub fn is_blank(text: &str) -> (blank: bool)
    ensures
        blank == (trim_text(text@).len() == 0),
{
    let trimmed = trim(text);
    trimmed.as_str().is_empty()
}

// ---------------------------------------------------------------------------
// Searching
// ---------------------------------------------------------------------------

/// Whether `pat` occurs in `s` at position `i`.
pub open spec fn occurs_at(s: Seq<char>, pat: Seq<char>, i: int) -> bool {
    &&& 0 <= i <= s.len() - pat.len()
    &&& s.subrange(i, i + pat.len()) == pat
}

/// Whether `pat` occurs anywhere in `s`.
pub open spec fn contains_text(s: Seq<char>, pat: Seq<char>) -> bool {
    exists|i: int| occurs_at(s, pat, i)
}

/// The position of the first occurrence of `pat` in `s`.
pub open spec fn find_text(s: Seq<char>, pat: Seq<char>) -> Option<nat>
    decreases s.len(),
{
    if pat.is_prefix_of(s) {
        Some(0)
    } else if s.len() == 0 {
        None
    } else {
        match find_text(s.skip(1), pat) {
            Some(k) => Some(k + 1),
            None => None,
        }
    }
}

/// `find_text` finds an occurrence, finds the first one, and fails only when there is none.
pub proof fn lemma_find_text(s: Seq<char>, pat: Seq<char>)
    ensures
        find_text(s, pat) matches Some(k) ==> occurs_at(s, pat, k as int) && forall|j: int|
            0 <= j < k ==> !occurs_at(s, pat, j),
        find_text(s, pat) is Some <==> contains_text(s, pat),
    decreases s.len(),
{
    if pat.is_prefix_of(s) {
        assert(s.subrange(0, pat.len() as int) =~= pat);
        assert(occurs_at(s, pat, 0));
    } else {
        assert(!occurs_at(s, pat, 0)) by {
            if occurs_at(s, pat, 0) {
                assert(s.subrange(0, pat.len() as int) =~= s.subrange(0, 0int + pat.len()));
            }
        }
        if s.len() > 0 {
            let t = s.skip(1);
            lemma_find_text(t, pat);
            assert forall|j: int| #[trigger] occurs_at(s, pat, j) implies occurs_at(t, pat, j - 1) by {
                assert(s.subrange(j, j + pat.len()) =~= t.subrange(j - 1, j - 1 + pat.len()));
            }
            assert forall|j: int| #[trigger] occurs_at(t, pat, j) implies occurs_at(s, pat, j + 1) by {
                assert(s.subrange(j + 1, j + 1 + pat.len()) =~= t.subrange(j, j + pat.len()));
            }
        } else {
            assert forall|i: int| !occurs_at(s, pat, i) by {
                if occurs_at(s, pat, i) {
                    assert(i == 0);
                }
            }
        }
    }
}

/// Whether `pat` occurs in `chars` at position `at`.
pub fn matches_at(chars: &Vec<char>, pat: &Vec<char>, at: usize) -> (r: bool)
    requires
        at <= chars@.len(),
    ensures
        r == pat@.is_prefix_of(chars@.skip(at as int)),
{
    if chars.len() - at < pat.len() {
        return false;
    }
    let mut i: usize = 0;
    while i < pat.len()
        invariant
            i <= pat@.len(),
            at + pat.len() <= chars.len(),
            forall|j: int| 0 <= j < i ==> pat@[j] == chars@[at + j],
        decreases pat@.len() - i,
    {
        if pat[i] != chars[at + i] {
            proof {
                let rest = chars@.skip(at as int);
                if pat@.is_prefix_of(rest) {
                    assert(pat@[i as int] == rest.subrange(0, pat@.len() as int)[i as int]);
                }
            }
            return false;
        }
        i = i + 1;
    }
    assert(chars@.skip(at as int).subrange(0, pat@.len() as int) =~= pat@);
    true
}

/// Whether `text` begins with `prefix`.
pub fn starts_with(text: &str, prefix: &str) -> (r: bool)
    ensures
        r == prefix@.is_prefix_of(text@),
{
    let chars = chars_of(text);
    let pat = chars_of(prefix);
    assert(chars@.skip(0) =~= chars@);
    matches_at(&chars, &pat, 0)
}

/// The position, in characters, of the first occurrence of `pat` in `text`.
pub fn find(text: &str, pat: &str) -> (found: Option<usize>)
    ensures
        found is Some <==> find_text(text@, pat@) is Some,
        found matches Some(i) ==> find_text(text@, pat@) == Some(i as nat),
{
    let chars = chars_of(text);
    let pattern = chars_of(pat);
    let mut i: usize = 0;
    assert(chars@.skip(0) =~= chars@);
    loop
        invariant
            i <= chars@.len(),
            chars@ == text@,
            pattern@ == pat@,
            find_text(chars@, pat@) == (match find_text(chars@.skip(i as int), pat@) {
                Some(k) => Some(i as nat + k),
                None => None,
            }),
        decreases chars@.len() - i,
    {
        if matches_at(&chars, &pattern, i) {
            return Some(i);
        }
        if i == chars.len() {
            return None;
        }
        assert(chars@.skip(i as int).skip(1) =~= chars@.skip(i + 1));
        i = i + 1;
    }
}

/// Whether `pat` occurs in `text`.
pub fn contains(text: &str, pat: &str) -> (r: bool)
    ensures
        r == contains_text(text@, pat@),
{
    proof {
        lemma_find_text(text@, pat@);
    }
    find(text, pat).is_some()
}

// ---------------------------------------------------------------------------
// Splitting and joining
// ---------------------------------------------------------------------------

/// What separates the parts of a split text.
#[derive(Clone, Copy)]
pub enum Separator {
    /// One given character.
    Char(char),
    /// Any white space character.
    WhiteSpace,
}

/// Whether `c` is a separator.
pub open spec fn separates(sep: Separator, c: char) -> bool {
    match sep {
        Separator::Char(x) => c == x,
        Separator::WhiteSpace => is_white_space(c),
    }
}

/// The parts of `s` between separators: always one more part than there are separators in `s`.
pub open spec fn split_text(s: Seq<char>, sep: Separator) -> Seq<Seq<char>>
    decreases s.len(),
{
    if s.len() == 0 {
        seq![Seq::empty()]
    } else {
        let before = split_text(s.drop_last(), sep);
        if separates(sep, s.last()) {
            before.push(Seq::empty())
        } else {
            before.drop_last().push(before.last().push(s.last()))
        }
    }
}

/// A split has at least one part.
pub proof fn lemma_split_nonempty(s: Seq<char>, sep: Separator)
    ensures
        split_text(s, sep).len() > 0,
    decreases s.len(),
{
    if s.len() > 0 {
        lemma_split_nonempty(s.drop_last(), sep);
    }
}

/// The parts of `text` between separators.
pub fn split(text: &str, sep: Separator) -> (parts: Vec<String>)
    ensures
        parts.deep_view() == split_text(text@, sep),
        parts@.len() > 0,
{
    let chars = chars_of(text);
    let mut done: Vec<String> = Vec::new();
    let mut part = String::new();
    let mut i: usize = 0;
    assert(done.deep_view().push(part@) =~= split_text(chars@.take(0), sep));
    while i < chars.len()
        invariant
            i <= chars@.len(),
            done.deep_view().push(part@) == split_text(chars@.take(i as int), sep),
        decreases chars@.len() - i,
    {
        let c = chars[i];
        let is_separator = match sep {
            Separator::Char(x) => c == x,
            Separator::WhiteSpace => white_space(c),
        };
        let ghost old_done = done.deep_view();
        let ghost old_part = part@;
        assert(chars@.take(i + 1).drop_last() =~= chars@.take(i as int));
        assert(old_done.push(old_part).drop_last() =~= old_done);
        if is_separator {
            let mut finished = String::new();
            std::mem::swap(&mut finished, &mut part);
            done.push(finished);
            assert(done.deep_view() =~= old_done.push(old_part));
        } else {
            part.push(c);
        }
        i = i + 1;
    }
    assert(chars@.take(i as int) =~= chars@);
    let ghost old_done = done.deep_view();
    done.push(part);
    assert(done.deep_view() =~= old_done.push(part@));
    done
}

/// The words of `s`: its parts between white space that are not empty.
pub open spec fn words_text(s: Seq<char>) -> Seq<Seq<char>> {
    split_text(s, Separator::WhiteSpace).filter(|w: Seq<char>| w.len() > 0)
}

/// The words of `text`.
pub fn words(text: &str) -> (words: Vec<String>)
    ensures
        words.deep_view() == words_text(text@),
{
    let parts = split(text, Separator::WhiteSpace);
    let mut words: Vec<String> = Vec::new();
    let mut i: usize = 0;
    let ghost wanted = |w: Seq<char>| w.len() > 0;
    let ghost all = parts.deep_view();
    proof {
        reveal(Seq::filter);
        assert(all.take(0).filter(wanted) =~= Seq::<Seq<char>>::empty());
    }
    while i < parts.len()
        invariant
            i <= parts@.len(),
            all == parts.deep_view(),
            wanted == (|w: Seq<char>| w.len() > 0),
            words.deep_view() == all.take(i as int).filter(wanted),
        decreases parts@.len() - i,
    {
        let ghost old_words = words.deep_view();
        proof {
            reveal(Seq::filter);
            assert(all.take(i + 1).drop_last() =~= all.take(i as int));
        }
        if !parts[i].as_str().is_empty() {
            words.push(parts[i].clone());
            assert(words.deep_view() =~= old_words.push(all[i as int]));
        }
        i = i + 1;
    }
    assert(all.take(i as int) =~= all);
    words
}

/// `s` without one trailing carriage return.
pub open spec fn chomp(s: Seq<char>) -> Seq<char> {
    if s.len() > 0 && s.last() == '\r' {
        s.drop_last()
    } else {
        s
    }
}

/// The lines of `s`: a line ends at a line feed, or at a carriage return and a line feed; the last
/// line need not end, and an empty last line is no line.
pub open spec fn lines_text(s: Seq<char>) -> Seq<Seq<char>> {
    let parts = split_text(s, Separator::Char('\n'));
    let ended = parts.drop_last().map_values(|p: Seq<char>| chomp(p));
    if parts.last().len() == 0 {
        ended
    } else {
        ended.push(parts.last())
    }
}

/// The lines of `text`.
pub fn lines(text: &str) -> (lines: Vec<String>)
    ensures
        lines.deep_view() == lines_text(text@),
{
    let mut parts = split(text, Separator::Char('\n'));
    let ghost all = parts.deep_view();
    let mut lines: Vec<String> = Vec::new();
    let mut i: usize = 0;
    let ghost ended = all.drop_last().map_values(|p: Seq<char>| chomp(p));
    while i < parts.len() - 1
        invariant
            i <= parts@.len() - 1,
            all == parts.deep_view(),
            ended == all.drop_last().map_values(|p: Seq<char>| chomp(p)),
            lines.deep_view() == ended.take(i as int),
        decreases parts@.len() - i,
    {
        let ghost old_lines = lines.deep_view();
        let chars = chars_of(parts[i].as_str());
        let mut end: usize = chars.len();
        if end > 0 && chars[end - 1] == '\r' {
            end = end - 1;
        }
        let line = text_of(&chars, 0, end);
        assert(line@ =~= chomp(all[i as int]));
        lines.push(line);
        assert(lines.deep_view() =~= old_lines.push(line@));
        assert(ended.take(i + 1) =~= ended.take(i as int).push(ended[i as int]));
        i = i + 1;
    }
    assert(ended.take(i as int) =~= ended);
    if !parts[i].as_str().is_empty() {
        let ghost old_lines = lines.deep_view();
        lines.push(parts[i].clone());
        assert(lines.deep_view() =~= old_lines.push(all.last()));
    }
    lines
}

/// The `parts` with `sep` between each two.
pub open spec fn join_text(parts: Seq<Seq<char>>, sep: Seq<char>) -> Seq<char>
    decreases parts.len(),
{
    if parts.len() == 0 {
        Seq::empty()
    } else if parts.len() == 1 {
        parts[0]
    } else {
        join_text(parts.drop_last(), sep) + sep + parts.last()
    }
}

/// The `parts` with `sep` between each two.
pub fn join(parts: &Vec<String>, sep: &str) -> (text: String)
    ensures
        text@ == join_text(parts.deep_view(), sep@),
{
    let mut text = String::new();
    let mut i: usize = 0;
    let ghost all = parts.deep_view();
    while i < parts.len()
        invariant
            i <= parts@.len(),
            all == parts.deep_view(),
            text@ == join_text(all.take(i as int), sep@),
        decreases parts@.len() - i,
    {
        assert(all.take(i + 1).drop_last() =~= all.take(i as int));
        if i > 0 {
            text.append(sep);
        }
        let ghost head = text@;
        text.append(parts[i].as_str());
        assert(i == 0 ==> text@ =~= all[0]);
        i = i + 1;
    }
    assert(all.take(i as int) =~= all);
    text
}

// ---------------------------------------------------------------------------
// Replacing
// ---------------------------------------------------------------------------

/// `s` with every occurrence of `pat`, from left to right and without overlap, replaced by `to`.
pub open spec fn replace_text(s: Seq<char>, pat: Seq<char>, to: Seq<char>) -> Seq<char>
    decreases s.len(),
{
    if s.len() == 0 || pat.len() == 0 {
        s
    } else if pat.is_prefix_of(s) {
        to + replace_text(s.skip(pat.len() as int), pat, to)
    } else {
        seq![s[0]] + replace_text(s.skip(1), pat, to)
    }
}

/// `text` with every occurrence of `pat` replaced by `to`.
pub fn replace(text: &str, pat: &str, to: &str) -> (out: String)
    requires
        pat@.len() > 0,
    ensures
        out@ == replace_text(text@, pat@, to@),
{
    let chars = chars_of(text);
    let pattern = chars_of(pat);
    let mut out = String::new();
    let mut i: usize = 0;
    assert(chars@.skip(0) =~= chars@);
    while i < chars.len()
        invariant
            i <= chars@.len(),
            pattern@ == pat@,
            pat@.len() > 0,
            replace_text(chars@, pat@, to@) == out@ + replace_text(
                chars@.skip(i as int),
                pat@,
                to@,
            ),
        decreases chars@.len() - i,
    {
        let ghost rest = chars@.skip(i as int);
        if matches_at(&chars, &pattern, i) {
            assert(rest.skip(pat@.len() as int) =~= chars@.skip(i + pat@.len()));
            out.append(to);
            i = i + pattern.len();
        } else {
            assert(rest.skip(1) =~= chars@.skip(i + 1));
            let ghost old_out = out@;
            out.push(chars[i]);
            assert(out@ =~= old_out + seq![rest[0]]);
            i = i + 1;
        }
        assert(replace_text(chars@, pat@, to@) =~= out@ + replace_text(
            chars@.skip(i as int),
            pat@,
            to@,
        ));
    }
    assert(out@ + chars@.skip(i as int) =~= out@);
    out
}

// ---------------------------------------------------------------------------
// ASCII case
// ---------------------------------------------------------------------------

/// `c` with an ASCII capital made small.
pub open spec fn ascii_lower_char(c: char) -> char {
    if 'A' <= c <= 'Z' {
        (c as int + 32) as char
    } else {
        c
    }
}

/// `s` with every ASCII capital made small.
pub open spec fn ascii_lower_text(s: Seq<char>) -> Seq<char> {
    s.map_values(|c: char| ascii_lower_char(c))
}

/// Whether every character is an ASCII one.
pub open spec fn is_ascii_text(s: Seq<char>) -> bool {
    forall|i: int| 0 <= i < s.len() ==> (#[trigger] s[i] as int) < 0x80
}

/// `text` with every ASCII capital made small.
pub fn ascii_lower(text: &str) -> (lowered: String)
    ensures
        lowered@ == ascii_lower_text(text@),
{
    let chars = chars_of(text);
    let mut lowered = String::new();
    let mut i: usize = 0;
    while i < chars.len()
        invariant
            i <= chars@.len(),
            lowered@ == ascii_lower_text(chars@).take(i as int),
        decreases chars@.len() - i,
    {
        let c = chars[i];
        let small = if 'A' <= c && c <= 'Z' {
            (c as u8 + 32) as char
        } else {
            c
        };
        lowered.push(small);
        assert(ascii_lower_text(chars@).take(i + 1) =~= ascii_lower_text(chars@).take(
            i as int,
        ).push(ascii_lower_char(c)));
        i = i + 1;
    }
    assert(ascii_lower_text(chars@).take(i as int) =~= ascii_lower_text(chars@));
    lowered
}

/// Whether two strings are equal up to ASCII case.
pub fn same_ignoring_ascii_case(left: &str, right: &str) -> (same: bool)
    ensures
        same == (ascii_lower_text(left@) == ascii_lower_text(right@)),
{
    let a = ascii_lower(left);
    let b = ascii_lower(right);
    same_text(a.as_str(), b.as_str())
}

// ---------------------------------------------------------------------------
// Laws
// ---------------------------------------------------------------------------

/// Trimming takes off white space at both ends, all of it, and nothing else.
pub proof fn law_trim_takes_white_space_off_both_ends(s: Seq<char>)
    ensures
        exists|from: int, to: int|
            #![trigger s.subrange(from, to)]
            {
                &&& 0 <= from <= to <= s.len()
                &&& trim_text(s) == s.subrange(from, to)
                &&& forall|k: int| 0 <= k < from ==> is_white_space(#[trigger] s[k])
                &&& forall|k: int| to <= k < s.len() ==> is_white_space(#[trigger] s[k])
                &&& from < to ==> !is_white_space(s[from]) && !is_white_space(s[to - 1])
            },
{
    let from = lemma_trim_start(s);
    let start = s.skip(from);
    let kept = lemma_trim_end(start);
    let to = from + kept;
    assert(start.take(kept) =~= s.subrange(from, to));
    assert forall|k: int| to <= k < s.len() implies is_white_space(#[trigger] s[k]) by {
        assert(start[k - from] == s[k]);
    }
    if from < to {
        assert(start[kept - 1] == s[to - 1]);
    }
    assert(trim_text(s) == s.subrange(from, to));
}

proof fn lemma_trim_start(s: Seq<char>) -> (from: int)
    ensures
        0 <= from <= s.len(),
        trim_start_text(s) == s.skip(from),
        forall|k: int| 0 <= k < from ==> is_white_space(#[trigger] s[k]),
        from < s.len() ==> !is_white_space(s[from]),
    decreases s.len(),
{
    if s.len() > 0 && is_white_space(s[0]) {
        let rest = s.skip(1);
        let from = lemma_trim_start(rest);
        assert(rest.skip(from) =~= s.skip(from + 1));
        assert forall|k: int| 0 <= k < from + 1 implies is_white_space(#[trigger] s[k]) by {
            if k > 0 {
                assert(rest[k - 1] == s[k]);
            }
        }
        from + 1
    } else {
        assert(s.skip(0) =~= s);
        0
    }
}

proof fn lemma_trim_end(s: Seq<char>) -> (to: int)
    ensures
        0 <= to <= s.len(),
        trim_end_text(s) == s.take(to),
        forall|k: int| to <= k < s.len() ==> is_white_space(#[trigger] s[k]),
        to > 0 ==> !is_white_space(s[to - 1]),
    decreases s.len(),
{
    if s.len() > 0 && is_white_space(s.last()) {
        let init = s.drop_last();
        let to = lemma_trim_end(init);
        assert(init.take(to) =~= s.take(to));
        assert forall|k: int| to <= k < s.len() implies is_white_space(#[trigger] s[k]) by {
            if k < init.len() {
                assert(init[k] == s[k]);
            }
        }
        to
    } else {
        assert(s.take(s.len() as int) =~= s);
        s.len() as int
    }
}

/// A text is blank exactly if every character of it is white space.
pub proof fn law_blank_is_all_white_space(s: Seq<char>)
    ensures
        trim_text(s).len() == 0 <==> forall|k: int|
            0 <= k < s.len() ==> is_white_space(#[trigger] s[k]),
{
    law_trim_takes_white_space_off_both_ends(s);
    let (from, to) = choose|from: int, to: int|
        #![trigger s.subrange(from, to)]
        {
            &&& 0 <= from <= to <= s.len()
            &&& trim_text(s) == s.subrange(from, to)
            &&& forall|k: int| 0 <= k < from ==> is_white_space(#[trigger] s[k])
            &&& forall|k: int| to <= k < s.len() ==> is_white_space(#[trigger] s[k])
            &&& from < to ==> !is_white_space(s[from]) && !is_white_space(s[to - 1])
        };
    assert(trim_text(s).len() == to - from);
}

/// Text without a separator is one part.
pub proof fn law_text_without_separator_is_one_part(s: Seq<char>, sep: Separator)
    requires
        forall|k: int| 0 <= k < s.len() ==> !separates(sep, #[trigger] s[k]),
    ensures
        split_text(s, sep) == seq![s],
    decreases s.len(),
{
    if s.len() > 0 {
        let init = s.drop_last();
        assert forall|k: int| 0 <= k < init.len() implies !separates(sep, #[trigger] init[k]) by {
            assert(init[k] == s[k]);
        }
        law_text_without_separator_is_one_part(init, sep);
        assert(!separates(sep, s[s.len() - 1]));
        assert(init.push(s.last()) =~= s);
        assert(seq![init].last() == init);
        assert(seq![init].drop_last() =~= Seq::empty());
        assert(split_text(s, sep) =~= seq![s]);
    } else {
        assert(s =~= Seq::empty());
    }
}

/// A separator divides a text: the parts are those before it, then those behind it.
pub proof fn law_separator_divides(left: Seq<char>, c: char, right: Seq<char>, sep: Separator)
    requires
        separates(sep, c),
    ensures
        split_text(left.push(c) + right, sep) == split_text(left, sep) + split_text(right, sep),
    decreases right.len(),
{
    let whole = left.push(c) + right;
    lemma_split_nonempty(left, sep);
    lemma_split_nonempty(right, sep);
    if right.len() == 0 {
        assert(whole =~= left.push(c));
        assert(whole.drop_last() =~= left);
    } else {
        let init = right.drop_last();
        assert(whole.drop_last() =~= left.push(c) + init);
        assert(whole.last() == right.last());
        law_separator_divides(left, c, init, sep);
        lemma_split_nonempty(init, sep);
        let a = split_text(left, sep);
        let b = split_text(init, sep);
        assert((a + b).last() == b.last());
        assert((a + b).drop_last() =~= a + b.drop_last());
    }
    assert(split_text(whole, sep) =~= split_text(left, sep) + split_text(right, sep));
}

/// The separators that a rule knows: the one character, or white space.
pub proof fn law_what_separates(x: char, c: char)
    ensures
        separates(Separator::Char(x), c) <==> c == x,
        separates(Separator::WhiteSpace, c) <==> is_white_space(c),
{
}

/// A text without white space is one word, unless it is empty.
pub proof fn law_text_without_white_space_is_one_word(s: Seq<char>)
    requires
        forall|k: int| 0 <= k < s.len() ==> !is_white_space(#[trigger] s[k]),
    ensures
        s.len() > 0 ==> words_text(s) == seq![s],
        s.len() == 0 ==> words_text(s) == Seq::<Seq<char>>::empty(),
{
    law_text_without_separator_is_one_part(s, Separator::WhiteSpace);
    reveal(Seq::filter);
    let one = seq![s];
    assert(one.drop_last() =~= Seq::empty());
    assert(one.last() == s);
    let wanted = |w: Seq<char>| w.len() > 0;
    assert(Seq::<Seq<char>>::empty().filter(wanted) =~= Seq::empty());
    if s.len() > 0 {
        assert(words_text(s) =~= seq![s]);
    } else {
        assert(words_text(s) =~= Seq::empty());
    }
}

/// White space divides words: those before it, then those behind it.
pub proof fn law_white_space_divides_words(left: Seq<char>, c: char, right: Seq<char>)
    requires
        is_white_space(c),
    ensures
        words_text(left.push(c) + right) == words_text(left) + words_text(right),
{
    law_separator_divides(left, c, right, Separator::WhiteSpace);
    Seq::filter_distributes_over_add(
        split_text(left, Separator::WhiteSpace),
        split_text(right, Separator::WhiteSpace),
        |w: Seq<char>| w.len() > 0,
    );
}

/// The first line is what stands before the first line feed, without one carriage return before
/// it; the other lines are those of the rest.
pub proof fn law_line_feed_ends_a_line(line: Seq<char>, rest: Seq<char>)
    requires
        !line.contains('\n'),
    ensures
        lines_text(line.push('\n') + rest) == seq![
            if line.len() > 0 && line.last() == '\r' {
                line.drop_last()
            } else {
                line
            },
        ] + lines_text(rest),
{
    let sep = Separator::Char('\n');
    assert forall|k: int| 0 <= k < line.len() implies !separates(sep, #[trigger] line[k]) by {
        assert(line.contains(line[k]));
    }
    law_text_without_separator_is_one_part(line, sep);
    law_separator_divides(line, '\n', rest, sep);
    lemma_split_nonempty(rest, sep);
    let whole = seq![line] + split_text(rest, sep);
    let parts = split_text(rest, sep);
    assert(whole.drop_last() =~= seq![line] + parts.drop_last());
    assert(whole.last() == parts.last());
    let cut = |p: Seq<char>| chomp(p);
    assert(whole.drop_last().map_values(cut) =~= seq![chomp(line)] + parts.drop_last().map_values(
        cut,
    ));
    assert(lines_text(line.push('\n') + rest) =~= seq![chomp(line)] + lines_text(rest));
}

/// A text without a line feed is one line as it is, unless it is empty.
pub proof fn law_text_without_line_feed_is_one_line(s: Seq<char>)
    requires
        !s.contains('\n'),
    ensures
        s.len() > 0 ==> lines_text(s) == seq![s],
        s.len() == 0 ==> lines_text(s) == Seq::<Seq<char>>::empty(),
{
    let sep = Separator::Char('\n');
    assert forall|k: int| 0 <= k < s.len() implies !separates(sep, #[trigger] s[k]) by {
        assert(s.contains(s[k]));
    }
    law_text_without_separator_is_one_part(s, sep);
    assert(seq![s].drop_last() =~= Seq::empty());
    if s.len() > 0 {
        assert(lines_text(s) =~= seq![s]);
    } else {
        assert(lines_text(s) =~= Seq::empty());
    }
}

/// Joining puts the separator between the parts and nowhere else.
pub proof fn law_join_puts_separators_between(
    left: Seq<Seq<char>>,
    right: Seq<Seq<char>>,
    part: Seq<char>,
    sep: Seq<char>,
)
    ensures
        join_text(Seq::empty(), sep) == Seq::<char>::empty(),
        join_text(seq![part], sep) == part,
        left.len() > 0 && right.len() > 0 ==> join_text(left + right, sep) == join_text(left, sep)
            + sep + join_text(right, sep),
    decreases right.len(),
{
    if left.len() > 0 && right.len() > 0 {
        let whole = left + right;
        let init = right.drop_last();
        assert(whole.drop_last() =~= left + init);
        assert(whole.last() == right.last());
        if init.len() == 0 {
            assert(left + init =~= left);
            assert(right[0] == right.last());
        } else {
            law_join_puts_separators_between(left, init, part, sep);
            assert(join_text(left, sep) + sep + join_text(init, sep) + sep + right.last()
                =~= join_text(left, sep) + sep + (join_text(init, sep) + sep + right.last()));
        }
    }
}

/// Splitting at a character and joining with it gives the text back.
pub proof fn law_join_undoes_split(s: Seq<char>, c: char)
    ensures
        join_text(split_text(s, Separator::Char(c)), seq![c]) == s,
    decreases s.len(),
{
    let sep = Separator::Char(c);
    if s.len() > 0 {
        let init = s.drop_last();
        law_join_undoes_split(init, c);
        lemma_split_nonempty(init, sep);
        let parts = split_text(init, sep);
        if s.last() == c {
            assert(parts.push(Seq::empty()).drop_last() =~= parts);
        } else {
            let grown = parts.drop_last().push(parts.last().push(s.last()));
            assert(grown.drop_last() =~= parts.drop_last());
            if parts.len() == 1 {
                assert(grown[0] == parts[0].push(s.last()));
            }
        }
        assert(init.push(s.last()) =~= s);
        assert(join_text(split_text(s, sep), seq![c]) =~= s);
    } else {
        assert(join_text(split_text(s, sep), seq![c]) =~= s);
    }
}

/// A text in which the pattern does not occur stays as it is.
pub proof fn law_replace_leaves_the_rest(s: Seq<char>, pat: Seq<char>, to: Seq<char>)
    requires
        forall|i: int| !(0 <= i <= s.len() - pat.len() && #[trigger] s.subrange(i, i + pat.len())
            == pat),
    ensures
        replace_text(s, pat, to) == s,
    decreases s.len(),
{
    if s.len() > 0 && pat.len() > 0 {
        assert(!pat.is_prefix_of(s)) by {
            if pat.is_prefix_of(s) {
                assert(s.subrange(0, 0int + pat.len()) =~= pat);
            }
        }
        let rest = s.skip(1);
        assert forall|i: int|
            !(0 <= i <= rest.len() - pat.len() && #[trigger] rest.subrange(i, i + pat.len())
                == pat) by {
            if 0 <= i <= rest.len() - pat.len() && rest.subrange(i, i + pat.len()) == pat {
                assert(s.subrange(i + 1, i + 1 + pat.len()) =~= rest.subrange(i, i + pat.len()));
            }
        }
        law_replace_leaves_the_rest(rest, pat, to);
        assert(seq![s[0]] + rest =~= s);
    }
}

/// The first occurrence is replaced, and what follows it is treated in the same way: so every
/// occurrence is replaced, from left to right.
pub proof fn law_replace_replaces_every_occurrence(
    s: Seq<char>,
    pat: Seq<char>,
    to: Seq<char>,
    at: int,
)
    requires
        pat.len() > 0,
        0 <= at <= s.len() - pat.len(),
        s.subrange(at, at + pat.len()) == pat,
        forall|i: int| 0 <= i < at ==> #[trigger] s.subrange(i, i + pat.len()) != pat,
    ensures
        replace_text(s, pat, to) == s.take(at) + to + replace_text(
            s.skip(at + pat.len()),
            pat,
            to,
        ),
    decreases at,
{
    if at == 0 {
        assert(pat.is_prefix_of(s));
        assert(s.take(0) + to =~= to);
    } else {
        assert(!pat.is_prefix_of(s)) by {
            if pat.is_prefix_of(s) {
                assert(s.subrange(0, 0int + pat.len()) =~= pat);
            }
        }
        let rest = s.skip(1);
        assert(rest.subrange(at - 1, at - 1 + pat.len()) =~= pat);
        assert forall|i: int| 0 <= i < at - 1 implies #[trigger] rest.subrange(i, i + pat.len())
            != pat by {
            assert(rest.subrange(i, i + pat.len()) =~= s.subrange(i + 1, i + 1 + pat.len()));
        }
        law_replace_replaces_every_occurrence(rest, pat, to, at - 1);
        assert(rest.skip(at - 1 + pat.len()) =~= s.skip(at + pat.len()));
        let tail = replace_text(s.skip(at + pat.len()), pat, to);
        assert(seq![s[0]] + (rest.take(at - 1) + to + tail) =~= s.take(at) + to + tail);
    }
}

/// Replacing one character by another changes it everywhere, and nothing else.
pub proof fn law_replace_of_one_character(s: Seq<char>, from: char, to: char)
    ensures
        replace_text(s, seq![from], seq![to]).len() == s.len(),
        forall|i: int|
            0 <= i < s.len() ==> #[trigger] replace_text(s, seq![from], seq![to])[i] == (if s[i]
                == from {
                to
            } else {
                s[i]
            }),
    decreases s.len(),
{
    if s.len() > 0 {
        let rest = s.skip(1);
        law_replace_of_one_character(rest, from, to);
        let done = replace_text(rest, seq![from], seq![to]);
        let whole = replace_text(s, seq![from], seq![to]);
        if s[0] == from {
            assert(seq![from].is_prefix_of(s)) by {
                assert(s.take(1) =~= seq![from]);
            }
            assert(whole =~= seq![to] + done);
        } else {
            assert(!seq![from].is_prefix_of(s)) by {
                if seq![from].is_prefix_of(s) {
                    assert(seq![from][0] == s[0]);
                }
            }
            assert(whole =~= seq![s[0]] + done);
        }
        assert forall|i: int| 0 <= i < s.len() implies #[trigger] whole[i] == (if s[i] == from {
            to
        } else {
            s[i]
        }) by {
            if i > 0 {
                assert(whole[i] == done[i - 1]);
                assert(rest[i - 1] == s[i]);
            }
        }
    }
}

/// A pattern is found in a text exactly if the text is something, the pattern, and something more.
pub proof fn law_contains_is_being_a_part(s: Seq<char>, pat: Seq<char>, left: Seq<char>, right: Seq<
    char,
>)
    ensures
        contains_text(left + pat + right, pat),
        contains_text(s, pat) <==> exists|i: int|
            0 <= i <= s.len() - pat.len() && #[trigger] s.subrange(i, i + pat.len()) == pat,
{
    let whole = left + pat + right;
    assert(whole.subrange(left.len() as int, (left.len() + pat.len()) as int) =~= pat);
    assert(occurs_at(whole, pat, left.len() as int));
    if exists|i: int| 0 <= i <= s.len() - pat.len() && #[trigger] s.subrange(i, i + pat.len())
        == pat {
        let i = choose|i: int|
            0 <= i <= s.len() - pat.len() && #[trigger] s.subrange(i, i + pat.len()) == pat;
        assert(occurs_at(s, pat, i));
    }
}

/// Lower case changes capitals `A` to `Z` to the letters 32 places on, and nothing else.
pub proof fn law_ascii_lower_changes_capitals_only(s: Seq<char>)
    ensures
        ascii_lower_text(s).len() == s.len(),
        forall|i: int|
            0 <= i < s.len() ==> (#[trigger] ascii_lower_text(s)[i] as int) == (if 65 <= s[i] as int
                <= 90 {
                s[i] as int + 32
            } else {
                s[i] as int
            }),
{
}

/// Trimming takes away white space around a text, and nothing of a text that neither begins nor ends
/// in white space.
pub proof fn law_trim_leaves_what_is_between(
    before: Seq<char>,
    kept: Seq<char>,
    after: Seq<char>,
)
    requires
        forall|k: int| 0 <= k < before.len() ==> is_white_space(#[trigger] before[k]),
        forall|k: int| 0 <= k < after.len() ==> is_white_space(#[trigger] after[k]),
        kept.len() > 0 ==> !is_white_space(kept[0]) && !is_white_space(kept[kept.len() - 1]),
    ensures
        trim_text(before + kept + after) == kept,
{
    let s = before + kept + after;
    law_trim_takes_white_space_off_both_ends(s);
    law_blank_is_all_white_space(s);
    let (from, to) = choose|from: int, to: int|
        #![trigger s.subrange(from, to)]
        {
            &&& 0 <= from <= to <= s.len()
            &&& trim_text(s) == s.subrange(from, to)
            &&& forall|k: int| 0 <= k < from ==> is_white_space(#[trigger] s[k])
            &&& forall|k: int| to <= k < s.len() ==> is_white_space(#[trigger] s[k])
            &&& from < to ==> !is_white_space(s[from]) && !is_white_space(s[to - 1])
        };
    if kept.len() == 0 {
        assert forall|k: int| 0 <= k < s.len() implies is_white_space(#[trigger] s[k]) by {
            if k < before.len() {
                assert(s[k] == before[k]);
            } else {
                assert(s[k] == after[k - before.len()]);
            }
        }
        assert(trim_text(s) =~= kept);
    } else {
        let start = before.len() as int;
        let end = start + kept.len();
        assert(s[start] == kept[0]);
        assert(s[end - 1] == kept[kept.len() - 1]);
        assert(from <= start);
        assert(to >= end);
        if from < start {
            assert(s[from] == before[from]);
        }
        if to > end {
            assert(s[to - 1] == after[to - 1 - end]);
        }
        assert(s.subrange(from, to) =~= kept);
    }
}

/// Which characters are white space, by their code points.
pub proof fn law_which_characters_are_white_space(c: char)
    ensures
        is_white_space(c) <==> {
            let n = c as int;
            ||| 9 <= n <= 13
            ||| n == 32 || n == 133 || n == 160 || n == 5760
            ||| 8192 <= n <= 8202
            ||| n == 8232 || n == 8233 || n == 8239 || n == 8287 || n == 12288
        },
{
}

/// Whether a text is ASCII: no character above code point 127.
pub proof fn law_which_texts_are_ascii(s: Seq<char>)
    ensures
        is_ascii_text(s) <==> forall|i: int| 0 <= i < s.len() ==> (#[trigger] s[i] as int) <= 127,
{
}

/// What is found is the first place where the pattern stands; nothing is found exactly where it
/// stands nowhere.
pub proof fn law_first_occurrence_is_found(s: Seq<char>, pat: Seq<char>, at: nat)
    ensures
        find_text(s, pat) == Some(at) <==> {
            &&& at + pat.len() <= s.len()
            &&& s.subrange(at as int, (at + pat.len()) as int) == pat
            &&& forall|j: int| 0 <= j < at ==> #[trigger] s.subrange(j, j + pat.len()) != pat
        },
        find_text(s, pat) is None <==> forall|j: int|
            0 <= j <= s.len() - pat.len() ==> #[trigger] s.subrange(j, j + pat.len()) != pat,
{
    lemma_find_text(s, pat);
    assert forall|j: int| 0 <= j <= s.len() - pat.len() implies (#[trigger] s.subrange(
        j,
        j + pat.len(),
    ) == pat <==> occurs_at(s, pat, j)) by {}
    if find_text(s, pat) is None {
        assert forall|j: int| 0 <= j <= s.len() - pat.len() implies #[trigger] s.subrange(
            j,
            j + pat.len(),
        ) != pat by {
            assert(!occurs_at(s, pat, j));
        }
    } else {
        let k = find_text(s, pat)->Some_0 as int;
        assert(occurs_at(s, pat, k));
        assert(s.subrange(k, k + pat.len()) == pat);
        assert forall|j: int| 0 <= j < k implies #[trigger] s.subrange(j, j + pat.len()) != pat by {
            assert(!occurs_at(s, pat, j));
        }
    }
}

} // verus!
