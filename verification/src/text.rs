//! String building blocks: white space, words, joining and decimal digits.

use vstd::prelude::*;

verus! {

/// `<str as PartialEq>::eq`: two string slices are equal exactly when they hold
/// the same characters.
pub assume_specification[ <str as PartialEq>::eq ](a: &str, b: &str) -> (r: bool)
    ensures
        r == (a@ == b@),
;

/// `String::push`: appends one character.
pub assume_specification[ String::push ](s: &mut String, c: char)
    ensures
        final(s)@ == old(s)@.push(c),
;

/// Whether two strings hold the same characters.
pub fn same(a: &str, b: &str) -> (r: bool)
    ensures
        r == (a@ == b@),
{
    a.eq(b)
}

/// One more element of a prefix.
pub proof fn lemma_take_push<T>(s: Seq<T>, k: int)
    requires
        0 <= k < s.len(),
    ensures
        s.take(k + 1) == s.take(k).push(s[k]),
{
    assert(s.take(k + 1) =~= s.take(k).push(s[k]));
}

/// The characters of each string.
pub open spec fn views(strings: Seq<String>) -> Seq<Seq<char>> {
    Seq::new(strings.len(), |i: int| strings[i]@)
}

/// Appending a string appends its characters.
pub broadcast proof fn lemma_views_push(strings: Seq<String>, s: String)
    ensures
        #[trigger] views(strings.push(s)) == views(strings).push(s@),
{
    assert(views(strings.push(s)) =~= views(strings).push(s@));
}

/// The characters of an optional string.
pub open spec fn opt_view(s: Option<String>) -> Option<Seq<char>> {
    match s {
        Some(s) => Some(s@),
        None => None,
    }
}

/// Copies an optional string.
pub fn copy_opt(s: &Option<String>) -> (r: Option<String>)
    ensures
        opt_view(r) == opt_view(*s),
{
    match s {
        Some(s) => Some(s.clone()),
        None => None,
    }
}

// ---------------------------------------------------------------------------
// White space
// ---------------------------------------------------------------------------

/// The characters with the Unicode property `White_Space`.
pub open spec fn white_space(c: char) -> bool {
    ||| '\u{9}' <= c <= '\u{d}'
    ||| c == ' '
    ||| c == '\u{85}'
    ||| c == '\u{a0}'
    ||| c == '\u{1680}'
    ||| '\u{2000}' <= c <= '\u{200a}'
    ||| c == '\u{2028}'
    ||| c == '\u{2029}'
    ||| c == '\u{202f}'
    ||| c == '\u{205f}'
    ||| c == '\u{3000}'
}

/// Whether a character is white space.
pub fn is_white_space(c: char) -> (r: bool)
    ensures
        r == white_space(c),
{
    ('\u{9}' <= c && c <= '\u{d}') || c == ' ' || c == '\u{85}' || c == '\u{a0}' || c == '\u{1680}'
        || ('\u{2000}' <= c && c <= '\u{200a}') || c == '\u{2028}' || c == '\u{2029}'
        || c == '\u{202f}' || c == '\u{205f}' || c == '\u{3000}'
}

/// Whether every character is white space.
pub open spec fn blank(s: Seq<char>) -> bool {
    forall|i: int| 0 <= i < s.len() ==> white_space(#[trigger] s[i])
}

/// Whether a string holds nothing but white space.
pub fn is_blank(s: &str) -> (r: bool)
    ensures
        r == blank(s@),
{
    for c in it: s.chars()
        invariant
            it.seq() == s@,
            forall|i: int| 0 <= i < it.index() ==> white_space(#[trigger] s@[i]),
    {
        if !is_white_space(c) {
            return false;
        }
    }
    true
}

/// The string without the white space at its start.
pub open spec fn trim_start(s: Seq<char>) -> Seq<char>
    decreases s.len(),
{
    if s.len() > 0 && white_space(s[0]) {
        trim_start(s.drop_first())
    } else {
        s
    }
}

/// The string without the white space at its end.
pub open spec fn trim_end(s: Seq<char>) -> Seq<char>
    decreases s.len(),
{
    if s.len() > 0 && white_space(s.last()) {
        trim_end(s.drop_last())
    } else {
        s
    }
}

/// The string without the white space at both ends.
pub open spec fn trimmed(s: Seq<char>) -> Seq<char> {
    trim_end(trim_start(s))
}

proof fn lemma_trim_start(s: Seq<char>, k: int)
    requires
        0 <= k <= s.len(),
        blank(s.take(k)),
        k < s.len() ==> !white_space(s[k]),
    ensures
        trim_start(s) == s.skip(k),
    decreases s.len(),
{
    if k == 0 {
        assert(s.skip(0) =~= s);
    } else {
        assert(s.take(k)[0] == s[0]);
        let rest = s.drop_first();
        assert forall|i: int| 0 <= i < k - 1 implies white_space(#[trigger] rest.take(k - 1)[i]) by {
            assert(rest.take(k - 1)[i] == s.take(k)[i + 1]);
        }
        lemma_trim_start(rest, k - 1);
        assert(rest.skip(k - 1) =~= s.skip(k));
    }
}

proof fn lemma_trim_end(s: Seq<char>, k: int)
    requires
        0 <= k <= s.len(),
        blank(s.skip(k)),
        k > 0 ==> !white_space(s[k - 1]),
    ensures
        trim_end(s) == s.take(k),
    decreases s.len(),
{
    if k == s.len() {
        assert(s.take(k) =~= s);
    } else {
        assert(s.skip(k).last() == s.last());
        let rest = s.drop_last();
        assert forall|i: int| 0 <= i < rest.skip(k).len() implies white_space(
            #[trigger] rest.skip(k)[i],
        ) by {
            assert(rest.skip(k)[i] == s.skip(k)[i]);
        }
        lemma_trim_end(rest, k);
        assert(rest.take(k) =~= s.take(k));
    }
}

/// Removes the white space at both ends.
pub fn trim(s: &str) -> (r: &str)
    ensures
        r@ == trimmed(s@),
{
    let mut start: usize = 0;
    let mut end: usize = 0;
    let mut seen: bool = false;
    let mut i: usize = 0;
    let len: usize = s.unicode_len();
    for c in it: s.chars()
        invariant
            it.seq() == s@,
            len == s@.len(),
            i == it.index(),
            i <= len,
            start <= end <= i,
            seen ==> start < end && !white_space(s@[start as int]) && !white_space(s@[end - 1]),
            !seen ==> start == 0 && end == 0,
            forall|k: int| 0 <= k < start ==> white_space(#[trigger] s@[k]),
            forall|k: int| end <= k < i ==> white_space(#[trigger] s@[k]),
    {
        if !is_white_space(c) {
            if !seen {
                start = i;
                seen = true;
            }
            end = i + 1;
        }
        i = i + 1;
    }
    proof {
        if seen {
            lemma_trim_start(s@, start as int);
            let rest = s@.skip(start as int);
            lemma_trim_end(rest, end - start);
            assert(rest.take(end - start) =~= s@.subrange(start as int, end as int));
        } else {
            lemma_trim_start(s@, s@.len() as int);
            assert(s@.skip(s@.len() as int) =~= s@.subrange(0, 0));
            assert(trim_end(s@.subrange(0, 0)) =~= s@.subrange(0, 0));
        }
    }
    s.substring_char(start, end)
}

/// A string is blank exactly when nothing is left of it after trimming.
pub proof fn lemma_blank_trims_to_nothing(s: Seq<char>)
    ensures
        blank(s) <==> trimmed(s).len() == 0,
    decreases s.len(),
{
    if s.len() > 0 && white_space(s[0]) {
        lemma_blank_trims_to_nothing(s.drop_first());
        assert(blank(s) <==> blank(s.drop_first())) by {
            assert forall|i: int| blank(s.drop_first()) && 0 <= i < s.len() implies white_space(
                #[trigger] s[i],
            ) by {
                if i > 0 {
                    assert(s.drop_first()[i - 1] == s[i]);
                }
            }
        }
    } else if s.len() > 0 {
        lemma_trim_end_keeps_start(s);
    }
}

/// Whether a character breaks a line.
pub open spec fn line_break(c: char) -> bool {
    c == '\n' || c == '\r'
}

/// A text on one line: each line break becomes a blank.
pub open spec fn one_line(s: Seq<char>) -> Seq<char> {
    Seq::new(
        s.len(),
        |i: int|
            if line_break(s[i]) {
                ' '
            } else {
                s[i]
            },
    )
}

/// Puts a text on one line.
pub fn single_line(s: &str) -> (r: String)
    ensures
        r@ == one_line(s@),
{
    let ghost whole = one_line(s@);
    let mut out: String = String::new();
    assert(out@ =~= whole.take(0));
    for c in it: s.chars()
        invariant
            it.seq() == s@,
            whole == one_line(s@),
            out@ == whole.take(it.index() as int),
    {
        proof {
            lemma_take_push(whole, it.index() as int);
        }
        if c == '\n' || c == '\r' {
            out.push(' ');
        } else {
            out.push(c);
        }
    }
    assert(whole.take(s@.len() as int) =~= whole);
    out
}

/// What is left after trimming does not start with white space.
pub proof fn lemma_trimmed_starts_solid(s: Seq<char>)
    ensures
        trimmed(s).len() > 0 ==> !white_space(trimmed(s)[0]),
    decreases s.len(),
{
    if s.len() > 0 && white_space(s[0]) {
        lemma_trimmed_starts_solid(s.drop_first());
    } else if s.len() > 0 {
        lemma_trim_end_keeps_start(s);
    }
}

proof fn lemma_trim_end_keeps_start(s: Seq<char>)
    requires
        s.len() > 0,
        !white_space(s[0]),
    ensures
        trim_end(s).len() > 0,
        trim_end(s)[0] == s[0],
    decreases s.len(),
{
    if white_space(s.last()) {
        lemma_trim_end_keeps_start(s.drop_last());
    }
}

// ---------------------------------------------------------------------------
// Words
// ---------------------------------------------------------------------------

/// How many characters stand before the first white space.
pub open spec fn word_len(s: Seq<char>) -> nat
    decreases s.len(),
{
    if s.len() == 0 || white_space(s[0]) {
        0
    } else {
        1 + word_len(s.drop_first())
    }
}

/// The first word is part of the string.
pub proof fn lemma_word_len(s: Seq<char>)
    ensures
        word_len(s) <= s.len(),
    decreases s.len(),
{
    if s.len() > 0 && !white_space(s[0]) {
        lemma_word_len(s.drop_first());
    }
}

/// The runs of characters that are not white space, in order.
pub open spec fn words(s: Seq<char>) -> Seq<Seq<char>>
    decreases s.len(),
{
    if s.len() == 0 {
        Seq::empty()
    } else if white_space(s[0]) {
        words(s.drop_first())
    } else {
        proof {
            lemma_word_len(s);
        }
        let n = word_len(s) as int;
        seq![s.take(n)] + words(s.skip(n))
    }
}

proof fn lemma_word_break(word: Seq<char>, rest: Seq<char>)
    requires
        forall|i: int| 0 <= i < word.len() ==> !white_space(#[trigger] word[i]),
        rest.len() > 0 ==> white_space(rest[0]),
    ensures
        word_len(word + rest) == word.len(),
        word.len() > 0 ==> words(word + rest) == seq![word] + words(rest),
        word.len() == 0 ==> words(word + rest) == words(rest),
    decreases word.len(),
{
    let s = word + rest;
    if word.len() == 0 {
        assert(s =~= rest);
    } else {
        assert(s[0] == word[0]);
        assert(s.drop_first() =~= word.drop_first() + rest);
        lemma_word_break(word.drop_first(), rest);
        let n = word.len() as int;
        assert(s.take(n) =~= word);
        assert(s.skip(n) =~= rest);
    }
}

/// Splits a string at its white space.
pub fn split_words(s: &str) -> (r: Vec<String>)
    ensures
        views(r@) == words(s@),
{
    broadcast use lemma_views_push;

    let mut out: Vec<String> = Vec::new();
    let mut word: String = String::new();
    assert(word@ + s@.skip(0) =~= s@);
    assert(views(out@) + words(s@) =~= words(s@));
    for c in it: s.chars()
        invariant
            it.seq() == s@,
            forall|i: int| 0 <= i < word@.len() ==> !white_space(#[trigger] word@[i]),
            views(out@) + words(word@ + s@.skip(it.index() as int)) == words(s@),
    {
        let ghost k = it.index() as int;
        let ghost rest = s@.skip(k + 1);
        assert(s@.skip(k) =~= seq![c] + rest);
        if is_white_space(c) {
            proof {
                lemma_word_break(word@, s@.skip(k));
                assert(s@.skip(k).drop_first() =~= rest);
            }
            if !word.as_str().is_empty() {
                let ghost before = views(out@);
                let ghost done = word@;
                out.push(word);
                word = String::new();
                assert(views(out@) =~= before.push(done));
                assert(before + (seq![done] + words(rest)) =~= before.push(done) + words(rest));
            }
            assert(word@ + rest =~= rest);
        } else {
            let ghost before = word@;
            word.push(c);
            assert(before + s@.skip(k) =~= word@ + rest);
        }
    }
    let ghost none = Seq::<char>::empty();
    proof {
        assert(s@.skip(s@.len() as int) =~= none);
        lemma_word_break(word@, none);
        assert(words(none) =~= Seq::empty());
    }
    if !word.as_str().is_empty() {
        let ghost before = views(out@);
        let ghost done = word@;
        out.push(word);
        assert(before + (seq![done] + words(none)) =~= before.push(done));
    } else {
        assert(views(out@) + words(none) =~= views(out@));
    }
    out
}

// ---------------------------------------------------------------------------
// Joining
// ---------------------------------------------------------------------------

/// The parts one after the other, with a separator between each two.
pub open spec fn join(parts: Seq<Seq<char>>, sep: Seq<char>) -> Seq<char>
    decreases parts.len(),
{
    if parts.len() == 0 {
        Seq::empty()
    } else if parts.len() == 1 {
        parts[0]
    } else {
        join(parts.drop_last(), sep) + sep + parts.last()
    }
}

/// Joins strings with a separator.
pub fn join_strings(parts: &Vec<String>, sep: &str) -> (r: String)
    ensures
        r@ == join(views(parts@), sep@),
{
    let ghost all = views(parts@);
    let mut out: String = String::new();
    let mut i: usize = 0;
    while i < parts.len()
        invariant
            i <= parts.len(),
            all == views(parts@),
            out@ == join(all.take(i as int), sep@),
        decreases parts.len() - i,
    {
        proof {
            assert(all.take(i + 1).drop_last() =~= all.take(i as int));
            assert(all.take(i + 1).last() == parts@[i as int]@);
        }
        if i > 0 {
            out.append(sep);
        }
        out.append(parts[i].as_str());
        assert(out@ =~= join(all.take(i + 1), sep@));
        i = i + 1;
    }
    assert(all.take(i as int) =~= all);
    out
}

// ---------------------------------------------------------------------------
// Decimal digits
// ---------------------------------------------------------------------------

/// The character of a decimal digit.
pub open spec fn digit(d: nat) -> char {
    if d == 0 {
        '0'
    } else if d == 1 {
        '1'
    } else if d == 2 {
        '2'
    } else if d == 3 {
        '3'
    } else if d == 4 {
        '4'
    } else if d == 5 {
        '5'
    } else if d == 6 {
        '6'
    } else if d == 7 {
        '7'
    } else if d == 8 {
        '8'
    } else {
        '9'
    }
}

/// The decimal digits of a number, without leading zeros.
pub open spec fn decimal(n: nat) -> Seq<char>
    decreases n,
{
    if n < 10 {
        seq![digit(n)]
    } else {
        decimal(n / 10).push(digit(n % 10))
    }
}

/// The character of a decimal digit.
pub fn digit_char(d: u64) -> (c: char)
    requires
        d < 10,
    ensures
        c == digit(d as nat),
{
    match d {
        0 => '0',
        1 => '1',
        2 => '2',
        3 => '3',
        4 => '4',
        5 => '5',
        6 => '6',
        7 => '7',
        8 => '8',
        _ => '9',
    }
}

/// Writes a number in decimal.
pub fn decimal_string(n: u64) -> (r: String)
    ensures
        r@ == decimal(n as nat),
    decreases n,
{
    if n < 10 {
        let mut s = String::new();
        s.push(digit_char(n));
        assert(s@ =~= seq![digit(n as nat)]);
        s
    } else {
        let mut s = decimal_string(n / 10);
        s.push(digit_char(n % 10));
        s
    }
}

// ---------------------------------------------------------------------------
// Laws
// ---------------------------------------------------------------------------

/// Trimming takes white space off both ends and nothing else: what is left stands
/// in the string between two blank parts, and neither starts nor ends with white
/// space.
pub proof fn law_trimming_takes_only_the_blank_ends(s: Seq<char>)
    ensures
        exists|a: Seq<char>, b: Seq<char>|
            blank(a) && blank(b) && s == #[trigger] (a + trimmed(s) + b),
        trimmed(s).len() > 0 ==> !white_space(trimmed(s)[0]) && !white_space(trimmed(s).last()),
{
    let head = lemma_start_is_blank(s);
    let tail = lemma_end_is_blank(trim_start(s));
    assert(s =~= head + trimmed(s) + tail);
    lemma_trimmed_starts_solid(s);
}

proof fn lemma_start_is_blank(s: Seq<char>) -> (head: Seq<char>)
    ensures
        blank(head),
        s == head + trim_start(s),
    decreases s.len(),
{
    if s.len() > 0 && white_space(s[0]) {
        let rest = lemma_start_is_blank(s.drop_first());
        let head = seq![s[0]] + rest;
        assert forall|i: int| 0 <= i < head.len() implies white_space(#[trigger] head[i]) by {
            if i > 0 {
                assert(head[i] == rest[i - 1]);
            }
        }
        let left = trim_start(s);
        assert(s.drop_first() == rest + left);
        assert(s =~= seq![s[0]] + s.drop_first());
        assert(s =~= head + left);
        head
    } else {
        assert(s =~= Seq::<char>::empty() + s);
        Seq::empty()
    }
}

proof fn lemma_end_is_blank(s: Seq<char>) -> (tail: Seq<char>)
    ensures
        blank(tail),
        s == trim_end(s) + tail,
        trim_end(s).len() > 0 ==> !white_space(trim_end(s).last()),
    decreases s.len(),
{
    if s.len() > 0 && white_space(s.last()) {
        let rest = lemma_end_is_blank(s.drop_last());
        let tail = rest.push(s.last());
        assert forall|i: int| 0 <= i < tail.len() implies white_space(#[trigger] tail[i]) by {
            if i < rest.len() {
                assert(tail[i] == rest[i]);
            }
        }
        let left = trim_end(s);
        assert(s.drop_last() == left + rest);
        assert(s =~= s.drop_last().push(s.last()));
        assert(s =~= left + tail);
        tail
    } else {
        assert(s =~= s + Seq::<char>::empty());
        Seq::empty()
    }
}

/// White space parts words and belongs to none.
pub proof fn law_white_space_parts_words(a: Seq<char>, c: char, b: Seq<char>)
    requires
        white_space(c),
    ensures
        words(a.push(c) + b) == words(a) + words(b),
    decreases a.len(),
{
    let s = a.push(c) + b;
    if a.len() == 0 {
        assert(s.drop_first() =~= b);
        assert(s[0] == c);
        assert(words(a) + words(b) =~= words(b));
    } else if white_space(a[0]) {
        assert(s.drop_first() =~= a.drop_first().push(c) + b);
        assert(s[0] == a[0]);
        law_white_space_parts_words(a.drop_first(), c, b);
    } else {
        lemma_first_word(a);
        let n = word_len(a) as int;
        let word = a.take(n);
        let rest = a.skip(n);
        assert(a =~= word + rest);
        assert(s =~= word + (rest.push(c) + b));
        lemma_word_break(word, rest);
        lemma_word_break(word, rest.push(c) + b);
        law_white_space_parts_words(rest, c, b);
        assert(words(s) =~= words(a) + words(b));
    }
}

proof fn lemma_first_word(s: Seq<char>)
    ensures
        word_len(s) <= s.len(),
        forall|i: int|
            0 <= i < word_len(s) ==> !white_space(#[trigger] s.take(word_len(s) as int)[i]),
        word_len(s) < s.len() ==> white_space(s.skip(word_len(s) as int)[0]),
        s.len() > 0 && !white_space(s[0]) ==> word_len(s) > 0,
    decreases s.len(),
{
    if s.len() > 0 && !white_space(s[0]) {
        let rest = s.drop_first();
        lemma_first_word(rest);
        let n = word_len(s) as int;
        assert forall|i: int| 0 <= i < n implies !white_space(#[trigger] s.take(n)[i]) by {
            if i > 0 {
                assert(s.take(n)[i] == rest.take(n - 1)[i - 1]);
            }
        }
        if n < s.len() {
            assert(s.skip(n)[0] == rest.skip(n - 1)[0]);
        }
    }
}

/// A text without white space is one word, unless it is empty.
pub proof fn law_solid_text_is_one_word(word: Seq<char>)
    requires
        forall|i: int| 0 <= i < word.len() ==> !white_space(#[trigger] word[i]),
    ensures
        words(word) == (if word.len() > 0 {
            seq![word]
        } else {
            Seq::empty()
        }),
{
    let none = Seq::<char>::empty();
    lemma_word_break(word, none);
    assert(word + none =~= word);
    assert(words(none) =~= Seq::empty());
    assert(seq![word] + words(none) =~= seq![word]);
}

/// Joining puts the separator between each two parts, and changes no part: one
/// part is itself, and two lists are joined by joining each.
pub proof fn law_joining_keeps_the_parts(
    part: Seq<char>,
    a: Seq<Seq<char>>,
    b: Seq<Seq<char>>,
    sep: Seq<char>,
)
    ensures
        join(Seq::empty(), sep) == Seq::<char>::empty(),
        join(seq![part], sep) == part,
        a.len() > 0 && b.len() > 0 ==> join(a + b, sep) == join(a, sep) + sep + join(b, sep),
    decreases b.len(),
{
    if a.len() > 0 && b.len() > 0 {
        let all = a + b;
        let rest = b.drop_last();
        assert(all.drop_last() =~= a + rest);
        assert(all.last() == b.last());
        if rest.len() == 0 {
            assert(a + rest =~= a);
        } else {
            law_joining_keeps_the_parts(part, a, rest, sep);
            assert(join(all, sep) =~= join(a, sep) + sep + join(b, sep));
        }
    }
}

/// Whether a text holds another one.
pub open spec fn holds(s: Seq<char>, part: Seq<char>) -> bool {
    exists|k: int|
        0 <= k && k + part.len() <= s.len() && #[trigger] s.subrange(k, k + part.len()) == part
}

/// Every part stands in the joined text, character for character.
pub proof fn law_joined_text_holds_every_part(parts: Seq<Seq<char>>, sep: Seq<char>, i: int)
    requires
        0 <= i < parts.len(),
    ensures
        holds(join(parts, sep), parts[i]),
    decreases parts.len(),
{
    let whole = join(parts, sep);
    let part = parts[i];
    if parts.len() == 1 {
        assert(whole.subrange(0int, 0int + part.len()) =~= part);
    } else if i == parts.len() - 1 {
        let k = whole.len() - part.len();
        assert(whole.subrange(k, k + part.len()) =~= part);
    } else {
        let before = parts.drop_last();
        law_joined_text_holds_every_part(before, sep, i);
        let short = join(before, sep);
        let k = choose|k: int|
            0 <= k && k + part.len() <= short.len() && #[trigger] short.subrange(
                k,
                k + part.len(),
            ) == part;
        assert(whole.subrange(k, k + part.len()) =~= short.subrange(k, k + part.len()));
    }
}

/// The number that decimal digits write.
pub open spec fn number_of(digits: Seq<char>) -> int
    decreases digits.len(),
{
    if digits.len() == 0 {
        0
    } else {
        10 * number_of(digits.drop_last()) + (digits.last() as int - '0' as int)
    }
}

/// A number is written in decimal digits that read as that number, without
/// leading zeros.
pub proof fn law_decimal_digits_read_back(n: nat)
    ensures
        number_of(decimal(n)) == n,
        decimal(n).len() > 0,
        forall|i: int| 0 <= i < decimal(n).len() ==> '0' <= #[trigger] decimal(n)[i] <= '9',
        n > 0 ==> decimal(n)[0] != '0',
        n < 10 ==> decimal(n).len() == 1,
    decreases n,
{
    if n < 10 {
        assert(decimal(n).drop_last() =~= Seq::empty());
        assert(number_of(decimal(n).drop_last()) == 0);
    } else {
        law_decimal_digits_read_back(n / 10);
        assert(decimal(n).drop_last() =~= decimal(n / 10));
    }
}

/// On one line a text keeps its length and every character but the line breaks,
/// which become blanks.
pub proof fn law_one_line_changes_only_breaks(s: Seq<char>)
    ensures
        one_line(s).len() == s.len(),
        forall|i: int|
            0 <= i < s.len() ==> #[trigger] one_line(s)[i] == (if s[i] == '\n' || s[i] == '\r' {
                ' '
            } else {
                s[i]
            }),
{
}

/// A text is blank exactly when each of its characters is white space, so that a
/// text with a letter, a digit or a mark in it is not.
pub proof fn law_blank_text_is_all_white_space(s: Seq<char>)
    ensures
        blank(s) <==> forall|i: int| 0 <= i < s.len() ==> white_space(#[trigger] s[i]),
        forall|c: char| '!' <= c <= '~' ==> !#[trigger] white_space(c),
        white_space(' ') && white_space('\n') && white_space('\t') && white_space('\r'),
{
}

/// The views of strings are the characters of each, in order; so is that of a
/// string that may be missing.
pub proof fn law_views_are_the_characters(strings: Seq<String>, s: Option<String>)
    ensures
        views(strings).len() == strings.len(),
        forall|i: int| 0 <= i < strings.len() ==> #[trigger] views(strings)[i] == strings[i]@,
        s matches Some(t) ==> opt_view(s) == Some(t@),
        s is None ==> opt_view(s) is None,
{
}

} // verus!
