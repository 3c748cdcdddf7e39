//! Operations on text, stated over the sequence of characters a string holds.

use vstd::prelude::*;

verus! {

/// `String::push` appends the given character to the end of the string.
pub assume_specification[ String::push ](s: &mut String, c: char)
    ensures
        final(s)@ == old(s)@.push(c),
;

/// The characters of `s`, in order.
pub fn chars_of(s: &str) -> (chars: Vec<char>)
    ensures
        chars@ == s@,
{
    let mut chars: Vec<char> = Vec::new();
    for c in it: s.chars()
        invariant
            chars@.len() == it.index(),
            it.seq() == s@,
            forall|i: int| 0 <= i < chars@.len() ==> chars@[i] == s@[i],
    {
        chars.push(c);
    }
    chars
}

/// Characters with the Unicode `White_Space` property.
pub open spec fn is_white(c: char) -> bool {
    ||| '\u{9}' <= c <= '\u{d}'
    ||| c == ' '
    ||| c == '\u{85}'
    ||| c == '\u{a0}'
    ||| c == '\u{1680}'
    ||| '\u{2000}' <= c <= '\u{200a}'
    ||| c == '\u{2028}'
    ||| c == '\u{2029}'
    ||| c == '\u{202f}'
    ||| c == '\u{205f}'
    ||| c == '\u{3000}'
}

/// Whether `c` is white space.
pub fn is_whitespace(c: char) -> (r: bool)
    ensures
        r == is_white(c),
{
    ('\u{9}' <= c && c <= '\u{d}') || c == ' ' || c == '\u{85}' || c == '\u{a0}'
        || c == '\u{1680}' || ('\u{2000}' <= c && c <= '\u{200a}') || c == '\u{2028}'
        || c == '\u{2029}' || c == '\u{202f}' || c == '\u{205f}' || c == '\u{3000}'
}

/// `s` without the white space it starts with.
pub open spec fn trim_start(s: Seq<char>) -> Seq<char>
    decreases s.len(),
{
    if s.len() > 0 && is_white(s[0]) {
        trim_start(s.skip(1))
    } else {
        s
    }
}

/// `s` without the white space it ends with.
pub open spec fn trim_end(s: Seq<char>) -> Seq<char>
    decreases s.len(),
{
    if s.len() > 0 && is_white(s.last()) {
        trim_end(s.drop_last())
    } else {
        s
    }
}

/// `s` without the white space around it.
pub open spec fn trimmed(s: Seq<char>) -> Seq<char> {
    trim_end(trim_start(s))
}

/// The characters of `chars` from `from` up to, not including, `to`.
pub fn string_of(chars: &Vec<char>, from: usize, to: usize) -> (s: String)
    requires
        from <= to <= chars@.len(),
    ensures
        s@ == chars@.subrange(from as int, to as int),
{
    let mut s: String = String::new();
    let mut i: usize = from;
    while i < to
        invariant
            from <= i <= to <= chars@.len(),
            s@ == chars@.subrange(from as int, i as int),
        decreases to - i,
    {
        s.push(chars[i]);
        i += 1;
        assert(s@ =~= chars@.subrange(from as int, i as int));
    }
    s
}

/// `s` with leading and trailing white space removed.
pub fn trim(s: &str) -> (r: String)
    ensures
        r@ == trimmed(s@),
{
    let chars: Vec<char> = chars_of(s);
    let mut a: usize = 0;
    assert(s@.skip(0) =~= s@);
    while a < chars.len() && is_whitespace(chars[a])
        invariant
            a <= chars@.len(),
            chars@ == s@,
            trim_start(s@) == trim_start(s@.skip(a as int)),
        decreases chars@.len() - a,
    {
        assert(s@.skip(a as int).skip(1) =~= s@.skip(a as int + 1));
        a += 1;
    }
    let mut b: usize = chars.len();
    assert(s@.skip(a as int) =~= s@.subrange(a as int, b as int));
    assert(trim_start(s@) == s@.skip(a as int));
    while b > a && is_whitespace(chars[b - 1])
        invariant
            a <= b <= chars@.len(),
            chars@ == s@,
            trim_end(trim_start(s@)) == trim_end(s@.subrange(a as int, b as int)),
        decreases b,
    {
        assert(s@.subrange(a as int, b as int).drop_last() =~= s@.subrange(a as int, b - 1));
        b -= 1;
    }
    string_of(&chars, a, b)
}

/// Whether `s` holds nothing but white space.
pub open spec fn blank(s: Seq<char>) -> bool {
    forall|i: int| 0 <= i < s.len() ==> is_white(#[trigger] s[i])
}

/// Whether `s` is empty or holds nothing but white space.
pub fn is_blank(s: &str) -> (r: bool)
    ensures
        r == blank(s@),
{
    let chars: Vec<char> = chars_of(s);
    let mut i: usize = 0;
    while i < chars.len()
        invariant
            i <= chars@.len(),
            chars@ == s@,
            forall|k: int| 0 <= k < i ==> is_white(#[trigger] s@[k]),
        decreases chars@.len() - i,
    {
        if !is_whitespace(chars[i]) {
            assert(!is_white(s@[i as int]));
            return false;
        }
        i += 1;
    }
    true
}

/// Trimming leaves nothing of a blank text, and something of any other.
pub proof fn law_blank_trims_to_nothing(s: Seq<char>)
    ensures
        trimmed(s).len() == 0 <==> blank(s),
    decreases s.len(),
{
    if s.len() > 0 && is_white(s[0]) {
        law_blank_trims_to_nothing(s.skip(1));
        if blank(s.skip(1)) {
            assert forall|i: int| 0 <= i < s.len() implies is_white(#[trigger] s[i]) by {
                if i > 0 {
                    assert(s[i] == s.skip(1)[i - 1]);
                }
            }
        }
        if blank(s) {
            assert forall|i: int| 0 <= i < s.skip(1).len() implies is_white(
                #[trigger] s.skip(1)[i],
            ) by {
                assert(s.skip(1)[i] == s[i + 1]);
            }
        }
    } else if s.len() > 0 {
        lemma_trim_end_keeps(s);
    }
}

proof fn lemma_trim_end_keeps(s: Seq<char>)
    requires
        s.len() > 0,
        !is_white(s[0]),
    ensures
        trim_end(s).len() > 0,
        trim_end(s)[0] == s[0],
    decreases s.len(),
{
    if is_white(s.last()) {
        lemma_trim_end_keeps(s.drop_last());
    }
}

/// A trimmed text has no white space at its ends, so trimming it again changes
/// nothing.
pub proof fn law_trimming_twice(s: Seq<char>)
    ensures
        trimmed(trimmed(s)) == trimmed(s),
        trimmed(s).len() > 0 ==> !is_white(trimmed(s)[0]) && !is_white(trimmed(s).last()),
{
    lemma_trim_start_stops(s);
    lemma_trim_end_stops(trim_start(s));
    let t = trim_start(s);
    if t.len() > 0 {
        lemma_trim_end_keeps(t);
    }
}

proof fn lemma_trim_start_stops(s: Seq<char>)
    ensures
        trim_start(s).len() > 0 ==> !is_white(trim_start(s)[0]),
    decreases s.len(),
{
    if s.len() > 0 && is_white(s[0]) {
        lemma_trim_start_stops(s.skip(1));
    }
}

proof fn lemma_trim_end_stops(s: Seq<char>)
    ensures
        trim_end(s).len() > 0 ==> !is_white(trim_end(s).last()),
    decreases s.len(),
{
    if s.len() > 0 && is_white(s.last()) {
        lemma_trim_end_stops(s.drop_last());
    }
}

/// `c` in lower case where it is one of the letters A to Z.
pub open spec fn lower(c: char) -> char {
    if 'A' <= c <= 'Z' {
        (c as u8 + 32) as char
    } else {
        c
    }
}

/// `s` with the letters A to Z in lower case.
pub open spec fn lowered(s: Seq<char>) -> Seq<char> {
    s.map_values(|c: char| lower(c))
}

/// `s` with the letters A to Z in lower case.
pub fn to_ascii_lowercase(s: &str) -> (r: String)
    ensures
        r@ == lowered(s@),
{
    let chars: Vec<char> = chars_of(s);
    let mut r: String = String::new();
    let mut i: usize = 0;
    while i < chars.len()
        invariant
            i <= chars@.len(),
            chars@ == s@,
            r@ == lowered(s@.take(i as int)),
        decreases chars@.len() - i,
    {
        let c: char = chars[i];
        let d: char = if 'A' <= c && c <= 'Z' {
            (c as u8 + 32) as char
        } else {
            c
        };
        r.push(d);
        i += 1;
        assert(r@ =~= lowered(s@.take(i as int)));
    }
    assert(s@.take(i as int) =~= s@);
    r
}

/// Whether `a` and `b` hold the same characters.
pub fn equal(a: &str, b: &str) -> (r: bool)
    ensures
        r == (a@ == b@),
{
    a.to_owned() == b.to_owned()
}

/// `s` with `from` replaced by `to` wherever it stands.
pub open spec fn replaced(s: Seq<char>, from: char, to: Seq<char>) -> Seq<char>
    decreases s.len(),
{
    if s.len() == 0 {
        Seq::empty()
    } else if s.last() == from {
        replaced(s.drop_last(), from, to) + to
    } else {
        replaced(s.drop_last(), from, to).push(s.last())
    }
}

/// `s` with `from` replaced by `to` wherever it stands.
pub fn replace(s: &str, from: char, to: &str) -> (r: String)
    ensures
        r@ == replaced(s@, from, to@),
{
    let chars: Vec<char> = chars_of(s);
    let mut r: String = String::new();
    let mut i: usize = 0;
    while i < chars.len()
        invariant
            i <= chars@.len(),
            chars@ == s@,
            r@ == replaced(s@.take(i as int), from, to@),
        decreases chars@.len() - i,
    {
        if chars[i] == from {
            r.append(to);
        } else {
            r.push(chars[i]);
        }
        i += 1;
        assert(s@.take(i as int).drop_last() =~= s@.take(i - 1));
    }
    assert(s@.take(i as int) =~= s@);
    r
}

/// Replacing what does not occur changes nothing.
pub proof fn law_replacing_absent(s: Seq<char>, from: char, to: Seq<char>)
    requires
        forall|i: int| 0 <= i < s.len() ==> #[trigger] s[i] != from,
    ensures
        replaced(s, from, to) == s,
    decreases s.len(),
{
    if s.len() > 0 {
        law_replacing_absent(s.drop_last(), from, to);
        assert(s.drop_last().push(s.last()) =~= s);
    } else {
        assert(replaced(s, from, to) =~= s);
    }
}

/// Replacing one character by another goes character by character.
pub proof fn law_replacing_by_one(s: Seq<char>, from: char, to: char)
    ensures
        replaced(s, from, seq![to]) == s.map_values(
            |c: char|
                if c == from {
                    to
                } else {
                    c
                },
        ),
    decreases s.len(),
{
    let f = |c: char|
        if c == from {
            to
        } else {
            c
        };
    if s.len() > 0 {
        law_replacing_by_one(s.drop_last(), from, to);
        assert(replaced(s, from, seq![to]) =~= s.map_values(f));
    } else {
        assert(replaced(s, from, seq![to]) =~= s.map_values(f));
    }
}

/// Trimming commutes with whatever changes characters one by one and leaves white
/// space, and only that, white space.
pub proof fn law_trimming_commutes(s: Seq<char>, f: spec_fn(char) -> char)
    requires
        forall|c: char| is_white(#[trigger] f(c)) == is_white(c),
    ensures
        trimmed(s.map_values(f)) == trimmed(s).map_values(f),
{
    lemma_trim_start_commutes(s, f);
    lemma_trim_end_commutes(trim_start(s), f);
}

proof fn lemma_trim_start_commutes(s: Seq<char>, f: spec_fn(char) -> char)
    requires
        forall|c: char| is_white(#[trigger] f(c)) == is_white(c),
    ensures
        trim_start(s.map_values(f)) == trim_start(s).map_values(f),
    decreases s.len(),
{
    if s.len() > 0 && is_white(s[0]) {
        lemma_trim_start_commutes(s.skip(1), f);
        assert(s.map_values(f).skip(1) =~= s.skip(1).map_values(f));
    }
}

proof fn lemma_trim_end_commutes(s: Seq<char>, f: spec_fn(char) -> char)
    requires
        forall|c: char| is_white(#[trigger] f(c)) == is_white(c),
    ensures
        trim_end(s.map_values(f)) == trim_end(s).map_values(f),
    decreases s.len(),
{
    if s.len() > 0 && is_white(s.last()) {
        lemma_trim_end_commutes(s.drop_last(), f);
        assert(s.map_values(f).drop_last() =~= s.drop_last().map_values(f));
    }
}

/// The words of `s`: its longest runs of characters other than white space.
pub open spec fn words(s: Seq<char>) -> Seq<Seq<char>>
    decreases s.len(),
{
    if s.len() == 0 {
        Seq::empty()
    } else {
        let before = words(s.drop_last());
        if is_white(s.last()) {
            before
        } else if s.len() == 1 || is_white(s[s.len() - 2]) {
            before.push(seq![s.last()])
        } else {
            before.drop_last().push(before.last().push(s.last()))
        }
    }
}

/// The words of `s`, in order.
pub fn split_whitespace(s: &str) -> (r: Vec<String>)
    ensures
        r.deep_view() == words(s@),
{
    let chars: Vec<char> = chars_of(s);
    let mut r: Vec<String> = Vec::new();
    let mut word: String = String::new();
    let mut i: usize = 0;
    assert(words(s@.take(0)) =~= Seq::empty());
    assert(r.deep_view() =~= Seq::empty());
    while i < chars.len()
        invariant
            i <= chars@.len(),
            chars@ == s@,
            word@.len() > 0 <==> (i > 0 && !is_white(s@[i - 1])),
            words(s@.take(i as int)) == if word@.len() > 0 {
                r.deep_view().push(word@)
            } else {
                r.deep_view()
            },
        decreases chars@.len() - i,
    {
        let ghost so_far = r.deep_view();
        let ghost start = word@;
        assert(s@.take(i + 1).drop_last() =~= s@.take(i as int));
        if !is_whitespace(chars[i]) {
            word.push(chars[i]);
            proof {
                if start.len() > 0 {
                    assert(so_far.push(start).drop_last() =~= so_far);
                    assert(so_far.push(start).last() == start);
                } else {
                    assert(word@ =~= seq![s@[i as int]]);
                }
            }
        } else if !word.as_str().is_empty() {
            r.push(word);
            assert(r.deep_view() =~= so_far.push(start));
            word = String::new();
        }
        i += 1;
    }
    assert(s@.take(i as int) =~= s@);
    if !word.as_str().is_empty() {
        let ghost so_far = r.deep_view();
        r.push(word);
        assert(r.deep_view() =~= so_far.push(word@));
    }
    r
}

/// The parts one after the other, with `sep` between each two.
pub open spec fn joined(parts: Seq<Seq<char>>, sep: Seq<char>) -> Seq<char>
    decreases parts.len(),
{
    if parts.len() == 0 {
        Seq::empty()
    } else if parts.len() == 1 {
        parts[0]
    } else {
        joined(parts.drop_last(), sep) + sep + parts.last()
    }
}

/// The parts one after the other, with `sep` between each two.
pub fn join(parts: &Vec<String>, sep: &str) -> (r: String)
    ensures
        r@ == joined(parts.deep_view(), sep@),
{
    let mut r: String = String::new();
    let mut i: usize = 0;
    while i < parts.len()
        invariant
            i <= parts@.len(),
            r@ == joined(parts.deep_view().take(i as int), sep@),
        decreases parts@.len() - i,
    {
        if i > 0 {
            r.append(sep);
        }
        r.append(parts[i].as_str());
        i += 1;
        proof {
            let now = parts.deep_view().take(i as int);
            assert(now.drop_last() =~= parts.deep_view().take(i - 1));
            assert(now.last() == parts@[i - 1]@);
            if i == 1 {
                assert(r@ =~= now[0]);
            }
        }
    }
    assert(parts.deep_view().take(i as int) =~= parts.deep_view());
    r
}

/// The pieces of `s` between the occurrences of `sep`.
pub open spec fn pieces(s: Seq<char>, sep: char) -> Seq<Seq<char>>
    decreases s.len(),
{
    if s.len() == 0 {
        seq![Seq::empty()]
    } else {
        let before = pieces(s.drop_last(), sep);
        if s.last() == sep {
            before.push(Seq::empty())
        } else {
            before.drop_last().push(before.last().push(s.last()))
        }
    }
}

proof fn lemma_pieces_push(s: Seq<char>, sep: char, part: Seq<char>)
    requires
        forall|i: int| 0 <= i < part.len() ==> #[trigger] part[i] != sep,
    ensures
        pieces(s, sep).len() > 0,
        pieces(s + part, sep) == pieces(s, sep).drop_last().push(pieces(s, sep).last() + part),
    decreases s.len() + part.len(),
{
    if part.len() == 0 {
        if s.len() > 0 {
            lemma_pieces_push(s.drop_last(), sep, part);
        }
        assert(s + part =~= s);
        let last = pieces(s, sep).last();
        assert(last + part =~= last);
        assert(pieces(s, sep).drop_last().push(last) =~= pieces(s, sep));
    } else {
        let front = part.drop_last();
        assert forall|i: int| 0 <= i < front.len() implies #[trigger] front[i] != sep by {
            assert(front[i] == part[i]);
        }
        lemma_pieces_push(s, sep, front);
        assert((s + part).drop_last() =~= s + front);
        assert((s + part).last() == part[part.len() - 1]);
        let before = pieces(s, sep).drop_last();
        let last = pieces(s, sep).last();
        assert(before.push(last + front).drop_last() =~= before);
        assert((last + front).push(part.last()) =~= last + part);
    }
}

/// Parts joined by a character that none of them holds come apart again.
pub proof fn law_joined_parts_come_apart(parts: Seq<Seq<char>>, sep: char)
    requires
        parts.len() > 0,
        forall|k: int, i: int|
            0 <= k < parts.len() && 0 <= i < parts[k].len() ==> #[trigger] parts[k][i] != sep,
    ensures
        pieces(joined(parts, seq![sep]), sep) == parts,
    decreases parts.len(),
{
    let none = Seq::<char>::empty();
    if parts.len() == 1 {
        assert forall|i: int| 0 <= i < parts[0].len() implies #[trigger] parts[0][i] != sep by {}
        lemma_pieces_push(none, sep, parts[0]);
        assert(none + parts[0] =~= parts[0]);
        assert(pieces(none, sep).drop_last().push(pieces(none, sep).last() + parts[0]) =~= parts);
    } else {
        let front = parts.drop_last();
        assert forall|k: int, i: int|
            0 <= k < front.len() && 0 <= i < front[k].len() implies #[trigger] front[k][i]
            != sep by {
            assert(front[k] == parts[k]);
            assert(parts[k][i] != sep);
        }
        law_joined_parts_come_apart(front, sep);
        let head = joined(front, seq![sep]);
        let ended = head + seq![sep];
        assert(ended.drop_last() =~= head);
        assert(pieces(ended, sep) == front.push(none));
        let last = parts[parts.len() - 1];
        assert forall|i: int| 0 <= i < last.len() implies #[trigger] last[i] != sep by {
            assert(parts[parts.len() - 1][i] != sep);
        }
        lemma_pieces_push(ended, sep, last);
        assert(front.push(none).drop_last() =~= front);
        assert(none + last =~= last);
        assert(front.push(last) =~= parts);
    }
}

/// Whether `s` is a word: not empty, and without white space.
pub open spec fn is_word(s: Seq<char>) -> bool {
    s.len() > 0 && forall|i: int| 0 <= i < s.len() ==> !is_white(#[trigger] s[i])
}

/// The words of a text are words.
pub proof fn law_words_are_words(s: Seq<char>)
    ensures
        forall|k: int| 0 <= k < words(s).len() ==> is_word(#[trigger] words(s)[k]),
        s.len() > 0 && !is_white(s.last()) ==> words(s).len() > 0,
    decreases s.len(),
{
    if s.len() > 0 {
        law_words_are_words(s.drop_last());
        let before = words(s.drop_last());
        if !is_white(s.last()) && s.len() > 1 && !is_white(s[s.len() - 2]) {
            assert(s.drop_last().last() == s[s.len() - 2]);
            assert(is_word(before.last()));
        }
    }
}

proof fn lemma_words_push_word(s: Seq<char>, w: Seq<char>)
    requires
        s.len() == 0 || is_white(s.last()),
        is_word(w),
    ensures
        words(s + w) == words(s).push(w),
    decreases w.len(),
{
    let both = s + w;
    assert(both.drop_last() =~= s + w.drop_last());
    assert(both.last() == w.last());
    if w.len() == 1 {
        assert(s + w.drop_last() =~= s);
        assert(w =~= seq![w.last()]);
    } else {
        assert(is_word(w.drop_last())) by {
            assert forall|i: int| 0 <= i < w.drop_last().len() implies !is_white(
                #[trigger] w.drop_last()[i],
            ) by {
                assert(w.drop_last()[i] == w[i]);
            }
        }
        lemma_words_push_word(s, w.drop_last());
        assert(both[both.len() - 2] == w[w.len() - 2]);
        let before = words(s).push(w.drop_last());
        assert(before.drop_last() =~= words(s));
        assert(w.drop_last().push(w.last()) =~= w);
    }
}

/// Words joined by a single space split into the same words.
pub proof fn law_joined_words_split_back(parts: Seq<Seq<char>>)
    requires
        forall|k: int| 0 <= k < parts.len() ==> is_word(#[trigger] parts[k]),
    ensures
        words(joined(parts, seq![' '])) == parts,
    decreases parts.len(),
{
    if parts.len() == 0 {
        assert(words(joined(parts, seq![' '])) =~= parts);
    } else if parts.len() == 1 {
        let none = Seq::<char>::empty();
        lemma_words_push_word(none, parts[0]);
        assert(none + parts[0] =~= parts[0]);
        assert(words(none).push(parts[0]) =~= parts);
    } else {
        let front = parts.drop_last();
        assert forall|k: int| 0 <= k < front.len() implies is_word(#[trigger] front[k]) by {
            assert(front[k] == parts[k]);
        }
        law_joined_words_split_back(front);
        let head = joined(front, seq![' ']);
        let spaced = head + seq![' '];
        assert(spaced.drop_last() =~= head);
        assert(words(spaced) == front);
        lemma_words_push_word(spaced, parts.last());
        assert(front.push(parts.last()) =~= parts);
    }
}

/// Joining two lists of parts is joining each, with the separator between them.
pub proof fn law_joined_in_two(front: Seq<Seq<char>>, back: Seq<Seq<char>>, sep: Seq<char>)
    requires
        front.len() > 0,
        back.len() > 0,
    ensures
        joined(front + back, sep) == joined(front, sep) + sep + joined(back, sep),
    decreases back.len(),
{
    let all = front + back;
    assert(all.drop_last() =~= front + back.drop_last());
    if back.len() == 1 {
        assert(all.drop_last() =~= front);
    } else {
        law_joined_in_two(front, back.drop_last(), sep);
        assert(joined(all, sep) =~= joined(front, sep) + sep + joined(back, sep));
    }
}

/// Where the first white space of `s` from `i` on stands, or its end.
pub open spec fn first_white(s: Seq<char>, i: int) -> int
    decreases s.len() - i,
{
    if 0 <= i < s.len() && !is_white(s[i]) {
        first_white(s, i + 1)
    } else {
        i
    }
}

/// Splits `s` at its first white space, which goes to neither part. `None` where
/// it has none.
pub fn split_once_whitespace(s: &str) -> (r: Option<(String, String)>)
    ensures
        match r {
            Some((head, tail)) => {
                let at = first_white(s@, 0);
                &&& at < s@.len()
                &&& head@ == s@.take(at)
                &&& tail@ == s@.skip(at + 1)
            },
            None => first_white(s@, 0) == s@.len(),
        },
{
    let chars: Vec<char> = chars_of(s);
    let mut at: usize = 0;
    while at < chars.len() && !is_whitespace(chars[at])
        invariant
            at <= chars@.len(),
            chars@ == s@,
            first_white(s@, 0) == first_white(s@, at as int),
        decreases chars@.len() - at,
    {
        at += 1;
    }
    if at == chars.len() {
        return None;
    }
    let head: String = string_of(&chars, 0, at);
    let tail: String = string_of(&chars, at + 1, chars.len());
    assert(s@.subrange(0, at as int) =~= s@.take(at as int));
    assert(s@.subrange(at + 1, s@.len() as int) =~= s@.skip(at + 1));
    Some((head, tail))
}

/// Whether `s` ends with `suffix`.
pub open spec fn has_suffix(s: Seq<char>, suffix: Seq<char>) -> bool {
    suffix.len() <= s.len() && s.skip(s.len() - suffix.len()) == suffix
}

/// Whether `s` ends with `suffix`.
pub fn ends_with(s: &str, suffix: &str) -> (r: bool)
    ensures
        r == has_suffix(s@, suffix@),
{
    let chars: Vec<char> = chars_of(s);
    let tail: Vec<char> = chars_of(suffix);
    if tail.len() > chars.len() {
        return false;
    }
    let from: usize = chars.len() - tail.len();
    let mut i: usize = 0;
    while i < tail.len()
        invariant
            chars@ == s@,
            tail@ == suffix@,
            from + tail.len() == chars.len(),
            i <= tail@.len(),
            forall|k: int| 0 <= k < i ==> s@[from + k] == #[trigger] suffix@[k],
        decreases tail@.len() - i,
    {
        if chars[from + i] != tail[i] {
            assert(s@.skip(from as int)[i as int] != suffix@[i as int]);
            return false;
        }
        i += 1;
    }
    assert(s@.skip(from as int) =~= suffix@);
    true
}

/// The digit for `n`, which is less than ten.
pub open spec fn digit(n: nat) -> char {
    (48 + n) as char
}

/// `n` in decimal.
pub open spec fn decimal(n: nat) -> Seq<char>
    decreases n,
{
    if n < 10 {
        seq![digit(n)]
    } else {
        decimal(n / 10).push(digit(n % 10))
    }
}

/// `n` in decimal.
pub fn decimal_of(n: u64) -> (r: String)
    ensures
        r@ == decimal(n as nat),
    decreases n,
{
    let mut r: String = if n < 10 {
        String::new()
    } else {
        decimal_of(n / 10)
    };
    let d: u8 = (n % 10) as u8;
    r.push((48 + d) as char);
    assert(r@ =~= decimal(n as nat));
    r
}

/// Whether `c` is one of the digits 0 to 9.
pub open spec fn is_digit(c: char) -> bool {
    '0' <= c <= '9'
}

/// Whether `s` holds nothing but digits.
pub open spec fn all_digits(s: Seq<char>) -> bool {
    forall|i: int| 0 <= i < s.len() ==> is_digit(#[trigger] s[i])
}

/// The number that the digits `s` stand for in decimal.
pub open spec fn decimal_value(s: Seq<char>) -> nat
    decreases s.len(),
{
    if s.len() == 0 {
        0
    } else {
        decimal_value(s.drop_last()) * 10 + (s.last() as nat - 48) as nat
    }
}

/// The number that `s` writes down: an optional plus sign and at least one digit,
/// nothing else, and a value that fits. `None` for any other text.
pub open spec fn u32_value(s: Seq<char>) -> Option<u32> {
    let digits = if s.len() > 0 && s[0] == '+' {
        s.skip(1)
    } else {
        s
    };
    if digits.len() > 0 && all_digits(digits) && decimal_value(digits) <= u32::MAX {
        Some(decimal_value(digits) as u32)
    } else {
        None
    }
}

proof fn lemma_decimal_value_grows(s: Seq<char>, i: int)
    requires
        0 <= i <= s.len(),
    ensures
        decimal_value(s.take(i)) <= decimal_value(s),
    decreases s.len(),
{
    if i < s.len() {
        lemma_decimal_value_grows(s.drop_last(), i);
        assert(s.drop_last().take(i) =~= s.take(i));
    } else {
        assert(s.take(i) =~= s);
    }
}

/// Reads a `u32` in decimal.
pub fn parse_u32(s: &str) -> (r: Option<u32>)
    ensures
        r == u32_value(s@),
{
    let chars: Vec<char> = chars_of(s);
    let from: usize = if chars.len() > 0 && chars[0] == '+' {
        1
    } else {
        0
    };
    let ghost digits = s@.skip(from as int);
    assert(s@.skip(0) =~= s@);
    if from == chars.len() {
        return None;
    }
    let mut value: u64 = 0;
    let mut i: usize = from;
    assert(decimal_value(digits.take(0)) == 0);
    while i < chars.len()
        invariant
            from <= i <= chars@.len(),
            from < chars@.len(),
            chars@ == s@,
            digits == s@.skip(from as int),
            from == if s@.len() > 0 && s@[0] == '+' {
                1int
            } else {
                0int
            },
            s@.skip(0) == s@,
            forall|k: int| 0 <= k < i - from ==> is_digit(#[trigger] digits[k]),
            value == decimal_value(digits.take(i - from)),
            value <= u32::MAX,
        decreases chars@.len() - i,
    {
        let c: char = chars[i];
        let ghost k = i - from;
        assert(digits[k] == c);
        if c < '0' || '9' < c {
            assert(!is_digit(digits[k]));
            return None;
        }
        value = value * 10 + (c as u64 - 48);
        i += 1;
        assert(digits.take(k + 1).drop_last() =~= digits.take(k));
        if value > 0xffff_ffff {
            proof {
                lemma_decimal_value_grows(digits, k + 1);
            }
            return None;
        }
    }
    assert(digits.take(i - from) =~= digits);
    Some(value as u32)
}

/// A number that is written down in decimal is read back.
pub proof fn law_decimal_reads_back(n: u32)
    ensures
        u32_value(decimal(n as nat)) == Some(n),
{
    lemma_decimal_value(n as nat);
    assert(is_digit(decimal(n as nat)[0]));
}

pub(crate) proof fn lemma_decimal_value(n: nat)
    ensures
        decimal(n).len() > 0,
        all_digits(decimal(n)),
        decimal_value(decimal(n)) == n,
    decreases n,
{
    if n < 10 {
        let s = seq![digit(n)];
        assert(decimal_value(s.drop_last()) == 0);
    } else {
        lemma_decimal_value(n / 10);
        let s = decimal(n);
        assert(s.drop_last() =~= decimal(n / 10));
        assert forall|i: int| 0 <= i < s.len() implies is_digit(#[trigger] s[i]) by {
            if i < s.len() - 1 {
                assert(s[i] == decimal(n / 10)[i]);
            }
        }
    }
}

} // verus!
