//! Character sequences: trimming, searching, comparing, and the `KEY=value`
//! lines that the configuration and state files are made of.

use vstd::prelude::*;

verus! {

/// `String::push` appends one character at the end of the string.
pub assume_specification[ String::push ](s: &mut String, c: char)
    ensures
        final(s)@ == old(s)@.push(c),
;

/// The upper case form that Unicode gives to a text.
pub uninterp spec fn unicode_uppercase(s: Seq<char>) -> Seq<char>;

/// The lower case form that Unicode gives to a text.
pub uninterp spec fn unicode_lowercase(s: Seq<char>) -> Seq<char>;

/// `str::to_uppercase` maps a text by the Unicode tables. The claim is that its
/// result is a function of the text alone; what the tables hold is not stated.
#[verifier::external_body]
fn unicode_to_uppercase(s: &str) -> (r: String)
    ensures
        r@ == unicode_uppercase(s@),
{
    s.to_uppercase()
}

/// `str::to_lowercase` maps a text by the Unicode tables. The claim is that its
/// result is a function of the text alone; what the tables hold is not stated.
#[verifier::external_body]
fn unicode_to_lowercase(s: &str) -> (r: String)
    ensures
        r@ == unicode_lowercase(s@),
{
    s.to_lowercase()
}

// ---------------------------------------------------------------- characters

/// The characters with the Unicode property `White_Space`.
pub open spec fn is_space(c: char) -> bool {
    ||| '\u{9}' <= c <= '\u{d}'
    ||| c == ' '
    ||| c == '\u{85}'
    ||| c == '\u{a0}'
    ||| c == '\u{1680}'
    ||| '\u{2000}' <= c <= '\u{200a}'
    ||| c == '\u{2028}'
    ||| c == '\u{2029}'
    ||| c == '\u{202f}'
    ||| c == '\u{205f}'
    ||| c == '\u{3000}'
}

/// A letter `A` to `Z` becomes `a` to `z`; every other character stays.
pub open spec fn ascii_lower(c: char) -> char {
    if 'A' <= c <= 'Z' {
        (c as u32 + 32) as char
    } else {
        c
    }
}

/// A letter `a` to `z` becomes `A` to `Z`; every other character stays.
pub open spec fn ascii_upper(c: char) -> char {
    if 'a' <= c <= 'z' {
        (c as u32 - 32) as char
    } else {
        c
    }
}

fn space(c: char) -> (r: bool)
    ensures
        r == is_space(c),
{
    ('\u{9}' <= c && c <= '\u{d}') || c == ' ' || c == '\u{85}' || c == '\u{a0}' || c
        == '\u{1680}' || ('\u{2000}' <= c && c <= '\u{200a}') || c == '\u{2028}' || c == '\u{2029}'
        || c == '\u{202f}' || c == '\u{205f}' || c == '\u{3000}'
}

fn lower_char(c: char) -> (r: char)
    ensures
        r == ascii_lower(c),
{
    if 'A' <= c && c <= 'Z' {
        ((c as u8) + 32) as char
    } else {
        c
    }
}

fn upper_char(c: char) -> (r: char)
    ensures
        r == ascii_upper(c),
{
    if 'a' <= c && c <= 'z' {
        ((c as u8) - 32) as char
    } else {
        c
    }
}

// ------------------------------------------------------------ specifications

/// All characters are below U+0080.
pub open spec fn all_ascii(s: Seq<char>) -> bool {
    forall|i: int| 0 <= i < s.len() ==> (#[trigger] s[i] as u32) < 128
}

/// The text in upper case.
pub open spec fn uppercase(s: Seq<char>) -> Seq<char> {
    if all_ascii(s) {
        s.map_values(|c: char| ascii_upper(c))
    } else {
        unicode_uppercase(s)
    }
}

/// The text in lower case.
pub open spec fn lowercase(s: Seq<char>) -> Seq<char> {
    if all_ascii(s) {
        s.map_values(|c: char| ascii_lower(c))
    } else {
        unicode_lowercase(s)
    }
}

/// The two texts differ at most in the case of ASCII letters.
pub open spec fn same_ignoring_ascii_case(a: Seq<char>, b: Seq<char>) -> bool {
    &&& a.len() == b.len()
    &&& forall|i: int| 0 <= i < a.len() ==> ascii_lower(#[trigger] a[i]) == ascii_lower(b[i])
}

/// The text without the white space at its start.
pub open spec fn trim_start(s: Seq<char>) -> Seq<char>
    decreases s.len(),
{
    if s.len() > 0 && is_space(s[0]) {
        trim_start(s.drop_first())
    } else {
        s
    }
}

/// The text without the white space at its end.
pub open spec fn trim_end(s: Seq<char>) -> Seq<char>
    decreases s.len(),
{
    if s.len() > 0 && is_space(s.last()) {
        trim_end(s.drop_last())
    } else {
        s
    }
}

/// The text without the white space at both ends.
pub open spec fn trim(s: Seq<char>) -> Seq<char> {
    trim_end(trim_start(s))
}

/// There is no white space to trim at either end.
pub open spec fn is_trimmed(s: Seq<char>) -> bool {
    s.len() > 0 ==> !is_space(s[0]) && !is_space(s.last())
}

/// The position of the first `c`, or the length of the text if it has none.
pub open spec fn first_index(s: Seq<char>, c: char) -> int
    decreases s.len(),
{
    if s.len() == 0 || s[0] == c {
        0
    } else {
        1 + first_index(s.drop_first(), c)
    }
}

/// What one line says: nothing if it is blank, a comment (`#`) or holds no
/// `=`; else the key before the first `=` and the value after it, both trimmed.
pub open spec fn line_entry(line: Seq<char>) -> Option<(Seq<char>, Seq<char>)> {
    let t = trim(line);
    let n = first_index(t, '=');
    if t.len() == 0 || t[0] == '#' || n == t.len() {
        None
    } else {
        Some((trim(t.take(n)), trim(t.skip(n + 1))))
    }
}

/// What the lines of a text say, in their order.
pub open spec fn text_entries(text: Seq<char>) -> Seq<(Seq<char>, Seq<char>)>
    decreases text.len(),
    via text_entries_decreases
{
    let n = first_index(text, '\n');
    let rest = if n < text.len() {
        text_entries(text.skip(n + 1))
    } else {
        Seq::empty()
    };
    match line_entry(text.take(n)) {
        Some(entry) => seq![entry] + rest,
        None => rest,
    }
}

#[via_fn]
proof fn text_entries_decreases(text: Seq<char>) {
    lemma_first_index(text, '\n');
}

/// The texts joined with one separator between neighbours.
pub open spec fn joined(parts: Seq<Seq<char>>, separator: Seq<char>) -> Seq<char>
    decreases parts.len(),
{
    if parts.len() == 0 {
        Seq::empty()
    } else if parts.len() == 1 {
        parts[0]
    } else {
        joined(parts.drop_last(), separator) + separator + parts.last()
    }
}

/// The texts of a vector of strings.
pub open spec fn texts(parts: Seq<String>) -> Seq<Seq<char>> {
    parts.map_values(|part: String| part@)
}

/// The text of an optional string.
pub open spec fn opt_text(s: Option<String>) -> Option<Seq<char>> {
    match s {
        Some(s) => Some(s@),
        None => None,
    }
}

/// The text of an optional string slice.
pub open spec fn opt_str(s: Option<&str>) -> Option<Seq<char>> {
    match s {
        Some(s) => Some(s@),
        None => None,
    }
}

/// `a` stands before `b`, or is `b`, in the order of code points.
pub open spec fn text_le(a: Seq<char>, b: Seq<char>) -> bool
    decreases a.len(),
{
    if a.len() == 0 {
        true
    } else if b.len() == 0 {
        false
    } else if a[0] == b[0] {
        text_le(a.drop_first(), b.drop_first())
    } else {
        a[0] < b[0]
    }
}

// -------------------------------------------------------------------- lemmas

/// The order of texts is total.
pub proof fn lemma_text_le_total(a: Seq<char>, b: Seq<char>)
    ensures
        text_le(a, b) || text_le(b, a),
    decreases a.len(),
{
    if a.len() > 0 && b.len() > 0 && a[0] == b[0] {
        lemma_text_le_total(a.drop_first(), b.drop_first());
    }
}

/// The order of texts is transitive.
pub proof fn lemma_text_le_transitive(a: Seq<char>, b: Seq<char>, c: Seq<char>)
    requires
        text_le(a, b),
        text_le(b, c),
    ensures
        text_le(a, c),
    decreases a.len(),
{
    if a.len() > 0 && a[0] == b[0] && b[0] == c[0] {
        lemma_text_le_transitive(a.drop_first(), b.drop_first(), c.drop_first());
    }
}

/// Texts that stand before each other are the same.
pub proof fn lemma_text_le_antisymmetric(a: Seq<char>, b: Seq<char>)
    requires
        text_le(a, b),
        text_le(b, a),
    ensures
        a == b,
    decreases a.len(),
{
    if a.len() > 0 && b.len() > 0 {
        lemma_text_le_antisymmetric(a.drop_first(), b.drop_first());
        assert(a =~= seq![a[0]] + a.drop_first());
        assert(b =~= seq![b[0]] + b.drop_first());
    }
    assert(a =~= b);
}

pub proof fn lemma_first_index(s: Seq<char>, c: char)
    ensures
        0 <= first_index(s, c) <= s.len(),
        forall|i: int| 0 <= i < first_index(s, c) ==> s[i] != c,
        first_index(s, c) < s.len() ==> s[first_index(s, c)] == c,
    decreases s.len(),
{
    if s.len() > 0 && s[0] != c {
        lemma_first_index(s.drop_first(), c);
        assert forall|i: int| 0 <= i < first_index(s, c) implies s[i] != c by {
            if i > 0 {
                assert(s[i] == s.drop_first()[i - 1]);
            }
        }
    }
}

/// The first occurrence is where a `c` follows characters that are not `c`.
pub proof fn lemma_first_index_is(s: Seq<char>, c: char, n: int)
    requires
        0 <= n <= s.len(),
        forall|i: int| 0 <= i < n ==> s[i] != c,
        n < s.len() ==> s[n] == c,
    ensures
        first_index(s, c) == n,
{
    lemma_first_index(s, c);
    let m = first_index(s, c);
    if m < n {
        assert(s[m] != c);
    } else if n < m {
        assert(s[n] != c);
    }
}

pub proof fn lemma_trim_start(s: Seq<char>)
    ensures
        trim_start(s).len() <= s.len(),
        trim_start(s) == s.skip(s.len() - trim_start(s).len()),
        forall|i: int| 0 <= i < s.len() - trim_start(s).len() ==> is_space(#[trigger] s[i]),
        trim_start(s).len() > 0 ==> !is_space(trim_start(s)[0]),
    decreases s.len(),
{
    if s.len() > 0 && is_space(s[0]) {
        let t = s.drop_first();
        lemma_trim_start(t);
        assert(trim_start(s) =~= s.skip(s.len() - trim_start(s).len()));
        assert forall|i: int| 0 <= i < s.len() - trim_start(s).len() implies is_space(
            #[trigger] s[i],
        ) by {
            if i > 0 {
                assert(s[i] == t[i - 1]);
            }
        }
    } else {
        assert(s =~= s.skip(0));
    }
}

pub proof fn lemma_trim_end(s: Seq<char>)
    ensures
        trim_end(s).len() <= s.len(),
        trim_end(s) == s.take(trim_end(s).len() as int),
        forall|i: int| trim_end(s).len() <= i < s.len() ==> is_space(#[trigger] s[i]),
        trim_end(s).len() > 0 ==> !is_space(trim_end(s).last()),
    decreases s.len(),
{
    if s.len() > 0 && is_space(s.last()) {
        let t = s.drop_last();
        lemma_trim_end(t);
        assert(trim_end(s) =~= s.take(trim_end(s).len() as int));
        assert forall|i: int| trim_end(s).len() <= i < s.len() implies is_space(
            #[trigger] s[i],
        ) by {
            if i < t.len() {
                assert(s[i] == t[i]);
            }
        }
    } else {
        assert(s =~= s.take(s.len() as int));
    }
}

/// Trimming takes off white space at both ends, and all of it.
pub proof fn lemma_trim(s: Seq<char>)
    ensures
        is_trimmed(trim(s)),
        trim(s).len() <= s.len(),
        forall|c: char| !s.contains(c) ==> !trim(s).contains(c),
{
    let t = trim_start(s);
    lemma_trim_start(s);
    lemma_trim_end(t);
    assert forall|c: char| !s.contains(c) implies !trim(s).contains(c) by {
        if trim(s).contains(c) {
            let i = choose|i: int| 0 <= i < trim(s).len() && trim(s)[i] == c;
            assert(t[i] == c);
            assert(s[i + (s.len() - t.len())] == c);
        }
    }
}

pub proof fn lemma_trim_fixed(s: Seq<char>)
    requires
        is_trimmed(s),
    ensures
        trim(s) == s,
{
}

// ------------------------------------------------------- writing entries down

/// The line that sets a key to a value.
pub open spec fn entry_line(entry: (Seq<char>, Seq<char>)) -> Seq<char> {
    entry.0 + "="@ + entry.1
}

/// The lines that set keys to values.
pub open spec fn entry_lines(entries: Seq<(Seq<char>, Seq<char>)>) -> Seq<Seq<char>> {
    entries.map_values(|entry: (Seq<char>, Seq<char>)| entry_line(entry))
}

/// The key and the value can be told apart and found again in a line: the key
/// is no comment and holds no `=`, and neither has a line break or outer white
/// space.
pub open spec fn is_storable_entry(entry: (Seq<char>, Seq<char>)) -> bool {
    &&& entry.0.len() > 0
    &&& entry.0[0] != '#'
    &&& is_trimmed(entry.0)
    &&& !entry.0.contains('=')
    &&& !entry.0.contains('\n')
    &&& is_trimmed(entry.1)
    &&& !entry.1.contains('\n')
}

/// Lines that each end in a line break.
pub open spec fn unlines(lines: Seq<Seq<char>>) -> Seq<char>
    decreases lines.len(),
{
    if lines.len() == 0 {
        Seq::empty()
    } else {
        lines[0] + "\n"@ + unlines(lines.drop_first())
    }
}

proof fn lemma_unlines_push(lines: Seq<Seq<char>>, line: Seq<char>)
    ensures
        unlines(lines.push(line)) == unlines(lines) + line + "\n"@,
    decreases lines.len(),
{
    let all = lines.push(line);
    if lines.len() == 0 {
        assert(unlines(all.drop_first()).len() == 0);
        assert(unlines(all) =~= unlines(lines) + line + "\n"@);
    } else {
        assert(all.drop_first() =~= lines.drop_first().push(line));
        lemma_unlines_push(lines.drop_first(), line);
        assert(unlines(all) =~= unlines(lines) + line + "\n"@);
    }
}

proof fn lemma_joined_lines(lines: Seq<Seq<char>>)
    requires
        lines.len() > 0,
    ensures
        joined(lines, "\n"@) + "\n"@ == unlines(lines),
    decreases lines.len(),
{
    assert(lines.drop_last().push(lines.last()) =~= lines);
    lemma_unlines_push(lines.drop_last(), lines.last());
    if lines.len() == 1 {
        assert(lines.drop_last() =~= Seq::empty());
        assert(joined(lines, "\n"@) + "\n"@ =~= unlines(lines));
    } else {
        lemma_joined_lines(lines.drop_last());
        assert(joined(lines, "\n"@) + "\n"@ =~= unlines(lines));
    }
}

proof fn lemma_entry_line(entry: (Seq<char>, Seq<char>))
    requires
        is_storable_entry(entry),
    ensures
        line_entry(entry_line(entry)) == Some(entry),
        !entry_line(entry).contains('\n'),
{
    reveal_strlit("=");
    let (key, value) = entry;
    let line = entry_line(entry);
    let n = key.len() as int;
    assert(line.last() == if value.len() > 0 {
        value.last()
    } else {
        '='
    });
    assert(line[0] == key[0]);
    assert(line[n] == '=');
    assert forall|i: int| 0 <= i < n implies line[i] != '=' by {
        assert(line[i] == key[i]);
        assert(key.contains(key[i]));
    }
    lemma_trim_fixed(line);
    lemma_first_index_is(line, '=', n);
    assert(line.take(n) =~= key);
    assert(line.skip(n + 1) =~= value);
    lemma_trim_fixed(key);
    lemma_trim_fixed(value);
    if line.contains('\n') {
        let i = choose|i: int| 0 <= i < line.len() && line[i] == '\n';
        if i < n {
            assert(key[i] == '\n');
        } else if i > n {
            assert(value[i - n - 1] == '\n');
        }
    }
}

/// Lines stand for themselves: what a text says whose first line is `line` is
/// what that line says and then what the rest says.
pub proof fn law_lines_are_independent(line: Seq<char>, rest: Seq<char>)
    requires
        !line.contains('\n'),
    ensures
        text_entries(line + "\n"@ + rest) == (match line_entry(line) {
            Some(entry) => seq![entry],
            None => Seq::empty(),
        }) + text_entries(rest),
{
    reveal_strlit("\n");
    let all = line + "\n"@ + rest;
    let n = line.len() as int;
    assert forall|i: int| 0 <= i < n implies all[i] != '\n' by {
        assert(all[i] == line[i]);
        assert(line.contains(line[i]));
    }
    assert(all[n] == '\n');
    lemma_first_index_is(all, '\n', n);
    assert(all.take(n) =~= line);
    assert(all.skip(n + 1) =~= rest);
    assert(Seq::<(Seq<char>, Seq<char>)>::empty() + text_entries(rest) =~= text_entries(rest));
}

proof fn lemma_unlined_entries(entries: Seq<(Seq<char>, Seq<char>)>)
    requires
        forall|i: int| 0 <= i < entries.len() ==> is_storable_entry(#[trigger] entries[i]),
    ensures
        text_entries(unlines(entry_lines(entries))) == entries,
    decreases entries.len(),
{
    let lines = entry_lines(entries);
    if entries.len() == 0 {
        lemma_first_index(Seq::empty(), '\n');
        lemma_trim(Seq::empty());
        assert(text_entries(unlines(lines)) =~= entries);
    } else {
        let rest = entries.drop_first();
        assert forall|i: int| 0 <= i < rest.len() implies is_storable_entry(
            #[trigger] rest[i],
        ) by {
            assert(rest[i] == entries[i + 1]);
        }
        lemma_unlined_entries(rest);
        assert(lines.drop_first() =~= entry_lines(rest));
        lemma_entry_line(entries[0]);
        law_lines_are_independent(lines[0], unlines(entry_lines(rest)));
        assert(text_entries(unlines(lines)) =~= entries);
    }
}

/// Entries written one to a line, with a line break at the end, read back as
/// themselves.
pub proof fn law_entries_round_trip(entries: Seq<(Seq<char>, Seq<char>)>)
    requires
        forall|i: int| 0 <= i < entries.len() ==> is_storable_entry(#[trigger] entries[i]),
    ensures
        text_entries(joined(entry_lines(entries), "\n"@) + "\n"@) == entries,
{
    let lines = entry_lines(entries);
    if entries.len() == 0 {
        let nothing = Seq::<char>::empty();
        assert(joined(lines, "\n"@) + "\n"@ =~= nothing + "\n"@ + nothing);
        law_lines_are_independent(nothing, nothing);
        lemma_unlined_entries(entries);
        assert(unlines(lines) =~= nothing);
        assert(line_entry(nothing) is None) by {
            lemma_trim(nothing);
        }
        assert(text_entries(nothing + "\n"@ + nothing) =~= entries);
    } else {
        lemma_joined_lines(lines);
        lemma_unlined_entries(entries);
    }
}

/// What is read from a text has no outer white space and no line break.
pub proof fn lemma_entries_are_trimmed(text: Seq<char>)
    ensures
        forall|i: int|
            0 <= i < text_entries(text).len() ==> is_trimmed(#[trigger] text_entries(text)[i].1)
                && !text_entries(text)[i].1.contains('\n'),
    decreases text.len(),
{
    let n = first_index(text, '\n');
    lemma_first_index(text, '\n');
    let line = text.take(n);
    assert(!line.contains('\n'));
    let t = trim(line);
    lemma_trim(line);
    let m = first_index(t, '=');
    lemma_first_index(t, '=');
    if n < text.len() {
        lemma_entries_are_trimmed(text.skip(n + 1));
    }
    if line_entry(line) is Some {
        let value = t.skip(m + 1);
        assert(!value.contains('\n')) by {
            if value.contains('\n') {
                let i = choose|i: int| 0 <= i < value.len() && value[i] == '\n';
                assert(t[i + m + 1] == '\n');
            }
        }
        lemma_trim(value);
    }
    let rest = if n < text.len() {
        text_entries(text.skip(n + 1))
    } else {
        Seq::empty()
    };
    assert forall|i: int| 0 <= i < text_entries(text).len() implies is_trimmed(
        #[trigger] text_entries(text)[i].1,
    ) && !text_entries(text)[i].1.contains('\n') by {
        if line_entry(line) is Some {
            if i > 0 {
                assert(text_entries(text)[i] == rest[i - 1]);
            }
        } else {
            assert(text_entries(text)[i] == rest[i]);
        }
    }
}

// ---------------------------------------------------------------- executable

/// The characters of a text.
pub fn chars_of(s: &str) -> (r: Vec<char>)
    ensures
        r@ == s@,
{
    let mut out: Vec<char> = Vec::new();
    for c in it: s.chars()
        invariant
            it.seq() == s@,
            out@ == s@.take(it.index() as int),
    {
        out.push(c);
        assert(out@ =~= s@.take(it.index() as int + 1));
    }
    assert(s@.take(s@.len() as int) =~= s@);
    out
}

/// The text that the characters make.
pub fn string_of(chars: &[char]) -> (r: String)
    ensures
        r@ == chars@,
{
    let mut out = String::new();
    let mut i: usize = 0;
    while i < chars.len()
        invariant
            i <= chars.len(),
            out@ == chars@.take(i as int),
        decreases chars.len() - i,
    {
        out.push(chars[i]);
        i += 1;
        assert(out@ =~= chars@.take(i as int));
    }
    assert(chars@.take(i as int) =~= chars@);
    out
}

/// Whether the two texts are the same.
pub fn same_text(a: &str, b: &str) -> (r: bool)
    ensures
        r == (a@ == b@),
{
    a.to_owned() == b.to_owned()
}

/// The characters without the white space at both ends.
pub fn trim_chars(chars: &[char]) -> (r: &[char])
    ensures
        r@ == trim(chars@),
{
    let mut start: usize = 0;
    assert(chars@.skip(0) =~= chars@);
    while start < chars.len() && space(chars[start])
        invariant
            start <= chars.len(),
            trim_start(chars@) == trim_start(chars@.skip(start as int)),
        decreases chars.len() - start,
    {
        assert(chars@.skip(start as int).drop_first() =~= chars@.skip(start as int + 1));
        start += 1;
    }
    let ghost t = chars@.skip(start as int);
    assert(trim_start(chars@) == t);
    let mut end: usize = chars.len();
    assert(t.take(t.len() as int) =~= t);
    while end > start && space(chars[end - 1])
        invariant
            start <= end <= chars.len(),
            t == chars@.skip(start as int),
            trim_end(t) == trim_end(t.take(end - start)),
        decreases end,
    {
        assert(t.take(end - start).last() == chars[end - 1]);
        assert(t.take(end - start).drop_last() =~= t.take(end - start - 1));
        end -= 1;
    }
    assert(end > start ==> t.take(end - start).last() == chars[end - 1]);
    assert(trim_end(t) == t.take(end - start));
    assert(chars@.subrange(start as int, end as int) =~= t.take(end - start));
    vstd::slice::slice_subrange(chars, start, end)
}

/// The text without the white space at both ends.
pub fn trim_text(s: &str) -> (r: String)
    ensures
        r@ == trim(s@),
{
    let chars = chars_of(s);
    string_of(trim_chars(&chars))
}

/// The position of the first `c`, or the number of characters.
pub fn find_char(chars: &[char], c: char) -> (r: usize)
    ensures
        r == first_index(chars@, c),
        r <= chars@.len(),
{
    let mut i: usize = 0;
    while i < chars.len() && chars[i] != c
        invariant
            i <= chars.len(),
            forall|j: int| 0 <= j < i ==> chars@[j] != c,
        decreases chars.len() - i,
    {
        i += 1;
    }
    proof {
        lemma_first_index_is(chars@, c, i as int);
    }
    i
}

/// Whether the text begins with the prefix.
pub fn starts_with(s: &str, prefix: &str) -> (r: bool)
    ensures
        r == prefix@.is_prefix_of(s@),
{
    let chars = chars_of(s);
    let wanted = chars_of(prefix);
    if wanted.len() > chars.len() {
        return false;
    }
    let mut i: usize = 0;
    while i < wanted.len()
        invariant
            chars@ == s@,
            wanted@ == prefix@,
            i <= wanted.len() <= chars.len(),
            forall|j: int| 0 <= j < i ==> wanted@[j] == chars@[j],
        decreases wanted.len() - i,
    {
        if wanted[i] != chars[i] {
            assert(wanted@[i as int] != chars@.subrange(0, wanted@.len() as int)[i as int]);
            return false;
        }
        i += 1;
    }
    assert(wanted@ =~= chars@.subrange(0, wanted@.len() as int));
    true
}

/// Whether the two texts differ at most in the case of ASCII letters.
pub fn eq_ignore_ascii_case(a: &str, b: &str) -> (r: bool)
    ensures
        r == same_ignoring_ascii_case(a@, b@),
{
    let left = chars_of(a);
    let right = chars_of(b);
    if left.len() != right.len() {
        return false;
    }
    let mut i: usize = 0;
    while i < left.len()
        invariant
            left@ == a@,
            right@ == b@,
            i <= left.len() == right.len(),
            forall|j: int| 0 <= j < i ==> ascii_lower(#[trigger] a@[j]) == ascii_lower(b@[j]),
        decreases left.len() - i,
    {
        if lower_char(left[i]) != lower_char(right[i]) {
            return false;
        }
        i += 1;
    }
    true
}

fn is_ascii_text(chars: &[char]) -> (r: bool)
    ensures
        r == all_ascii(chars@),
{
    let mut i: usize = 0;
    while i < chars.len()
        invariant
            i <= chars.len(),
            forall|j: int| 0 <= j < i ==> (#[trigger] chars@[j] as u32) < 128,
        decreases chars.len() - i,
    {
        if chars[i] as u32 >= 128 {
            return false;
        }
        i += 1;
    }
    true
}

/// The text in upper case.
pub fn to_uppercase(s: &str) -> (r: String)
    ensures
        r@ == uppercase(s@),
{
    let chars = chars_of(s);
    if !is_ascii_text(&chars) {
        return unicode_to_uppercase(s);
    }
    let mut out = String::new();
    let mut i: usize = 0;
    while i < chars.len()
        invariant
            i <= chars.len(),
            out@ == chars@.take(i as int).map_values(|c: char| ascii_upper(c)),
        decreases chars.len() - i,
    {
        out.push(upper_char(chars[i]));
        i += 1;
        assert(out@ =~= chars@.take(i as int).map_values(|c: char| ascii_upper(c)));
    }
    assert(chars@.take(i as int) =~= chars@);
    out
}

/// The text in lower case.
pub fn to_lowercase(s: &str) -> (r: String)
    ensures
        r@ == lowercase(s@),
{
    let chars = chars_of(s);
    if !is_ascii_text(&chars) {
        return unicode_to_lowercase(s);
    }
    let mut out = String::new();
    let mut i: usize = 0;
    while i < chars.len()
        invariant
            i <= chars.len(),
            out@ == chars@.take(i as int).map_values(|c: char| ascii_lower(c)),
        decreases chars.len() - i,
    {
        out.push(lower_char(chars[i]));
        i += 1;
        assert(out@ =~= chars@.take(i as int).map_values(|c: char| ascii_lower(c)));
    }
    assert(chars@.take(i as int) =~= chars@);
    out
}

fn parse_line(line: &[char]) -> (r: Option<(String, String)>)
    ensures
        match (r, line_entry(line@)) {
            (Some(entry), Some(e)) => entry.0@ == e.0 && entry.1@ == e.1,
            (None, None) => true,
            _ => false,
        },
{
    let t = trim_chars(line);
    if t.len() == 0 || t[0] == '#' {
        return None;
    }
    let n = find_char(t, '=');
    if n == t.len() {
        return None;
    }
    assert(t@.subrange(0, n as int) =~= t@.take(n as int));
    assert(t@.subrange(n + 1, t@.len() as int) =~= t@.skip(n + 1));
    let key = trim_chars(vstd::slice::slice_subrange(t, 0, n));
    let value = trim_chars(vstd::slice::slice_subrange(t, n + 1, t.len()));
    Some((string_of(key), string_of(value)))
}

/// The texts of key and value pairs.
pub open spec fn pairs(entries: Seq<(String, String)>) -> Seq<(Seq<char>, Seq<char>)> {
    entries.map_values(|e: (String, String)| (e.0@, e.1@))
}

/// What the lines of a text say, in their order.
pub fn parse_entries(text: &str) -> (r: Vec<(String, String)>)
    ensures
        pairs(r@) == text_entries(text@),
{
    let chars = chars_of(text);
    let mut out: Vec<(String, String)> = Vec::new();
    let mut start: usize = 0;
    let mut more = true;
    assert(chars@.skip(0) =~= chars@);
    assert(pairs(out@) + text_entries(chars@) =~= text_entries(chars@));
    while more
        invariant
            start <= chars.len(),
            more ==> text_entries(text@) == pairs(out@) + text_entries(chars@.skip(start as int)),
            !more ==> text_entries(text@) == pairs(out@),
        decreases (if more { chars.len() - start + 1 } else { 0 }),
    {
        let ghost tail = chars@.skip(start as int);
        let ghost before = out@;
        let rest = vstd::slice::slice_subrange(chars.as_slice(), start, chars.len());
        assert(rest@ =~= tail);
        let n = find_char(rest, '\n');
        let line = vstd::slice::slice_subrange(rest, 0, n);
        assert(line@ =~= tail.take(n as int));
        let ghost after = if n < tail.len() {
            text_entries(tail.skip(n + 1))
        } else {
            Seq::empty()
        };
        match parse_line(line) {
            Some(entry) => {
                let ghost e = (entry.0@, entry.1@);
                out.push(entry);
                assert(pairs(out@) =~= pairs(before) + seq![e]);
                assert(pairs(out@) + after =~= pairs(before) + (seq![e] + after));
            },
            None => {},
        }
        if n < rest.len() {
            start = start + n + 1;
            assert(chars@.skip(start as int) =~= tail.skip(n + 1));
        } else {
            more = false;
            assert(pairs(out@) + after =~= pairs(out@));
        }
    }
    out
}

/// The strings joined with one separator between neighbours.
pub fn join(parts: &[String], separator: &str) -> (r: String)
    ensures
        r@ == joined(texts(parts@), separator@),
{
    let mut out = String::new();
    let mut i: usize = 0;
    let ghost all = texts(parts@);
    assert(all.take(0).len() == 0);
    while i < parts.len()
        invariant
            i <= parts.len(),
            all == texts(parts@),
            out@ == joined(all.take(i as int), separator@),
        decreases parts.len() - i,
    {
        let ghost now = all.take(i as int + 1);
        assert(now.drop_last() =~= all.take(i as int));
        assert(now.last() == parts@[i as int]@);
        if i > 0 {
            out.append(separator);
        }
        out.append(parts[i].as_str());
        assert(i == 0 ==> out@ =~= now[0]);
        i += 1;
    }
    assert(all.take(i as int) =~= all);
    out
}

/// Whether `a` stands before `b`, or is `b`, in the order of code points.
pub fn text_at_most(a: &str, b: &str) -> (r: bool)
    ensures
        r == text_le(a@, b@),
{
    let left = chars_of(a);
    let right = chars_of(b);
    let mut i: usize = 0;
    assert(a@.skip(0) =~= a@);
    assert(b@.skip(0) =~= b@);
    while i < left.len() && i < right.len()
        invariant
            left@ == a@,
            right@ == b@,
            i <= left.len(),
            i <= right.len(),
            text_le(a@, b@) == text_le(a@.skip(i as int), b@.skip(i as int)),
        decreases left.len() - i,
    {
        assert(a@.skip(i as int)[0] == a@[i as int]);
        assert(b@.skip(i as int)[0] == b@[i as int]);
        if left[i] != right[i] {
            return left[i] < right[i];
        }
        assert(a@.skip(i as int).drop_first() =~= a@.skip(i as int + 1));
        assert(b@.skip(i as int).drop_first() =~= b@.skip(i as int + 1));
        i += 1;
    }
    i == left.len()
}

} // verus!
