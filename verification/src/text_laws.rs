//! What the operations on text are for, in terms of the characters that go in and
//! come out.

use vstd::prelude::*;

use crate::text;

verus! {

/// Among the characters of ASCII, the space and those from tab to carriage return
/// are white space and nothing else is. Beyond ASCII it is the next line, the no-break
/// space, and the separators of the Unicode blocks that have any.
pub proof fn law_white_space(c: char)
    ensures
        (c as u32) < 0x80 ==> (text::is_white(c) <==> c as u32 == 0x20 || 9 <= c as u32 <= 13),
        (c as u32) >= 0x80 ==> (text::is_white(c) <==> {
            ||| c as u32 == 0x85
            ||| c as u32 == 0xa0
            ||| c as u32 == 0x1680
            ||| 0x2000 <= c as u32 <= 0x200a
            ||| 0x2028 <= c as u32 <= 0x2029
            ||| c as u32 == 0x202f
            ||| c as u32 == 0x205f
            ||| c as u32 == 0x3000
        }),
{
}

/// Whether a text has no white space at its ends.
pub open spec fn is_tight(s: Seq<char>) -> bool {
    s.len() > 0 ==> !text::is_white(s[0]) && !text::is_white(s[s.len() - 1])
}

/// Trimming takes away the white space around a text, all of it and nothing else.
pub proof fn law_trimming_takes_the_white_space_around(
    before: Seq<char>,
    s: Seq<char>,
    after: Seq<char>,
)
    requires
        forall|i: int| 0 <= i < before.len() ==> text::is_white(#[trigger] before[i]),
        forall|i: int| 0 <= i < after.len() ==> text::is_white(#[trigger] after[i]),
        is_tight(s),
    ensures
        text::trimmed(before + s + after) == s,
{
    lemma_trim_start_of(before, s + after, s.len() > 0);
    assert(before + s + after =~= before + (s + after));
    if s.len() > 0 {
        lemma_trim_end_of(s, after);
    } else {
        assert(s + after =~= after);
        lemma_trim_start_of(after, s, true);
        assert(after + s =~= after);
        assert(text::trim_start(s) == s);
    }
}

proof fn lemma_trim_start_of(before: Seq<char>, s: Seq<char>, stops: bool)
    requires
        forall|i: int| 0 <= i < before.len() ==> text::is_white(#[trigger] before[i]),
        stops ==> s.len() == 0 || !text::is_white(s[0]),
    ensures
        text::trim_start(before + s) == text::trim_start(s),
        stops ==> text::trim_start(s) == s,
    decreases before.len(),
{
    if before.len() > 0 {
        let rest = before.skip(1);
        assert forall|i: int| 0 <= i < rest.len() implies text::is_white(#[trigger] rest[i]) by {
            assert(rest[i] == before[i + 1]);
        }
        lemma_trim_start_of(rest, s, stops);
        assert((before + s)[0] == before[0]);
        assert((before + s).skip(1) =~= rest + s);
    } else {
        assert(before + s =~= s);
    }
}

proof fn lemma_trim_end_of(s: Seq<char>, after: Seq<char>)
    requires
        forall|i: int| 0 <= i < after.len() ==> text::is_white(#[trigger] after[i]),
        s.len() > 0,
        !text::is_white(s[s.len() - 1]),
    ensures
        text::trim_end(s + after) == s,
    decreases after.len(),
{
    if after.len() > 0 {
        let rest = after.drop_last();
        assert forall|i: int| 0 <= i < rest.len() implies text::is_white(#[trigger] rest[i]) by {
            assert(rest[i] == after[i]);
        }
        lemma_trim_end_of(s, rest);
        assert((s + after).last() == after[after.len() - 1]);
        assert((s + after).drop_last() =~= s + rest);
    } else {
        assert(s + after =~= s);
    }
}

/// White space around a text makes no difference to what trimming leaves.
pub proof fn law_trimming_forgets_padding(before: Seq<char>, s: Seq<char>, after: Seq<char>)
    requires
        forall|i: int| 0 <= i < before.len() ==> text::is_white(#[trigger] before[i]),
        forall|i: int| 0 <= i < after.len() ==> text::is_white(#[trigger] after[i]),
    ensures
        text::trimmed(before + s + after) == text::trimmed(s),
{
    let (a, b) = lemma_trimmed_splits(s);
    let t = text::trimmed(s);
    text::law_trimming_twice(s);
    assert(s == a + t + b);
    let front = before + a;
    let back = b + after;
    assert forall|i: int| 0 <= i < front.len() implies text::is_white(#[trigger] front[i]) by {
        if i < before.len() {
            assert(front[i] == before[i]);
        } else {
            assert(front[i] == a[i - before.len()]);
        }
    }
    assert forall|i: int| 0 <= i < back.len() implies text::is_white(#[trigger] back[i]) by {
        if i < b.len() {
            assert(back[i] == b[i]);
        } else {
            assert(back[i] == after[i - b.len()]);
        }
    }
    assert(before + s + after =~= front + t + back);
    law_trimming_takes_the_white_space_around(front, t, back);
}

pub(crate) proof fn lemma_trimmed_splits(s: Seq<char>) -> (r: (Seq<char>, Seq<char>))
    ensures
        s == r.0 + text::trimmed(s) + r.1,
        forall|i: int| 0 <= i < r.0.len() ==> text::is_white(#[trigger] r.0[i]),
        forall|i: int| 0 <= i < r.1.len() ==> text::is_white(#[trigger] r.1[i]),
{
    let a = lemma_trim_start_splits(s);
    let b = lemma_trim_end_splits(text::trim_start(s));
    assert(s =~= a + text::trimmed(s) + b);
    (a, b)
}

proof fn lemma_trim_start_splits(s: Seq<char>) -> (r: Seq<char>)
    ensures
        s == r + text::trim_start(s),
        forall|i: int| 0 <= i < r.len() ==> text::is_white(#[trigger] r[i]),
    decreases s.len(),
{
    if s.len() > 0 && text::is_white(s[0]) {
        let r = lemma_trim_start_splits(s.skip(1));
        let whole = seq![s[0]] + r;
        assert(s =~= seq![s[0]] + s.skip(1));
        assert(s =~= whole + text::trim_start(s));
        assert forall|i: int| 0 <= i < whole.len() implies text::is_white(#[trigger] whole[i]) by {
            if i > 0 {
                assert(whole[i] == r[i - 1]);
            }
        }
        whole
    } else {
        let r = Seq::<char>::empty();
        assert(s =~= r + s);
        r
    }
}

proof fn lemma_trim_end_splits(s: Seq<char>) -> (r: Seq<char>)
    ensures
        s == text::trim_end(s) + r,
        forall|i: int| 0 <= i < r.len() ==> text::is_white(#[trigger] r[i]),
    decreases s.len(),
{
    if s.len() > 0 && text::is_white(s.last()) {
        let r = lemma_trim_end_splits(s.drop_last());
        let whole = r.push(s.last());
        assert(s =~= s.drop_last().push(s.last()));
        assert(s =~= text::trim_end(s) + whole);
        assert forall|i: int| 0 <= i < whole.len() implies text::is_white(#[trigger] whole[i]) by {
            if i < r.len() {
                assert(whole[i] == r[i]);
            }
        }
        whole
    } else {
        let r = Seq::<char>::empty();
        assert(s =~= s + r);
        r
    }
}

/// Lowering the case moves the letters A to Z to a to z and keeps every other
/// character, each in its place.
pub proof fn law_lowering_moves_the_capitals(s: Seq<char>)
    ensures
        text::lowered(s).len() == s.len(),
        forall|i: int|
            0 <= i < s.len() ==> if 65 <= s[i] as u32 <= 90 {
                (#[trigger] text::lowered(s)[i]) as u32 == s[i] as u32 + 32
            } else {
                text::lowered(s)[i] == s[i]
            },
{
    assert forall|i: int| 0 <= i < s.len() implies if 65 <= s[i] as u32 <= 90 {
        (#[trigger] text::lowered(s)[i]) as u32 == s[i] as u32 + 32
    } else {
        text::lowered(s)[i] == s[i]
    } by {
        let c = s[i];
        assert(text::lowered(s)[i] == text::lower(c));
        if 65 <= c as u32 <= 90 {
            assert((c as u8) as int == c as int);
        }
    }
}

pub(crate) proof fn lemma_lowering_and_trimming(s: Seq<char>)
    ensures
        text::lowered(text::lowered(s)) == text::lowered(s),
        text::trimmed(text::lowered(s)) == text::lowered(text::trimmed(s)),
{
    let f = |c: char| text::lower(c);
    text::law_trimming_commutes(s, f);
    assert(text::lowered(text::lowered(s)) =~= text::lowered(s));
    assert(text::lowered(text::lowered(text::trimmed(s))) =~= text::lowered(text::trimmed(s)));
}

/// Replacing goes over the two parts of a text one by one, and puts the
/// replacement where the character stood.
pub proof fn law_replacing_goes_part_by_part(
    a: Seq<char>,
    b: Seq<char>,
    from: char,
    to: Seq<char>,
)
    ensures
        text::replaced(a + b, from, to) == text::replaced(a, from, to) + text::replaced(
            b,
            from,
            to,
        ),
        text::replaced(seq![from], from, to) == to,
    decreases b.len(),
{
    let one = seq![from];
    assert(text::replaced(one.drop_last(), from, to) == Seq::<char>::empty());
    assert(text::replaced(one, from, to) =~= to);
    if b.len() == 0 {
        assert(a + b =~= a);
        assert(text::replaced(a, from, to) + text::replaced(b, from, to) =~= text::replaced(
            a,
            from,
            to,
        ));
    } else {
        law_replacing_goes_part_by_part(a, b.drop_last(), from, to);
        assert((a + b).drop_last() =~= a + b.drop_last());
        assert((a + b).last() == b.last());
        assert(text::replaced(a + b, from, to) =~= text::replaced(a, from, to) + text::replaced(
            b,
            from,
            to,
        ));
    }
}

/// White space separates words: a text with a white space character in it has the
/// words on the one side and then those on the other.
pub proof fn law_white_space_separates_words(a: Seq<char>, c: char, b: Seq<char>)
    requires
        text::is_white(c),
    ensures
        text::words(a.push(c) + b) == text::words(a) + text::words(b),
    decreases b.len(),
{
    let s = a.push(c) + b;
    if b.len() == 0 {
        assert(s =~= a.push(c));
        assert(s.drop_last() =~= a);
        assert(text::words(a) + text::words(b) =~= text::words(a));
    } else {
        let front = b.drop_last();
        law_white_space_separates_words(a, c, front);
        assert(s.drop_last() =~= a.push(c) + front);
        assert(s.last() == b.last());
        let left = text::words(a);
        let right = text::words(front);
        if !text::is_white(b.last()) {
            if b.len() == 1 {
                assert(s[s.len() - 2] == c);
                assert(front =~= Seq::empty());
                assert(text::words(s) =~= left + text::words(b));
            } else {
                assert(s[s.len() - 2] == b[b.len() - 2]);
                if text::is_white(b[b.len() - 2]) {
                    assert(text::words(s) =~= left + text::words(b));
                } else {
                    assert(front.last() == b[b.len() - 2]);
                    text::law_words_are_words(front);
                    assert((left + right).drop_last() =~= left + right.drop_last());
                    assert((left + right).last() == right.last());
                    assert(text::words(s) =~= left + text::words(b));
                }
            }
        }
    }
}

/// A text without white space is one word, and the empty text is none.
pub proof fn law_a_word_is_one_word(w: Seq<char>)
    requires
        forall|i: int| 0 <= i < w.len() ==> !text::is_white(#[trigger] w[i]),
    ensures
        w.len() > 0 ==> text::words(w) == seq![w],
        w.len() == 0 ==> text::words(w) == Seq::<Seq<char>>::empty(),
    decreases w.len(),
{
    if w.len() == 1 {
        assert(text::words(w.drop_last()) =~= Seq::empty());
        assert(w =~= seq![w.last()]);
        assert(text::words(w) =~= seq![w]);
    } else if w.len() > 1 {
        let front = w.drop_last();
        assert forall|i: int| 0 <= i < front.len() implies !text::is_white(
            #[trigger] front[i],
        ) by {
            assert(front[i] == w[i]);
        }
        law_a_word_is_one_word(front);
        assert(!text::is_white(w[w.len() - 2]));
        assert(!text::is_white(w[w.len() - 1]));
        assert(front.push(w.last()) =~= w);
        assert(text::words(w) =~= seq![w]);
    }
}

/// One part joined is that part, none is nothing, and each further part comes
/// behind the separator.
pub proof fn law_joining_appends(parts: Seq<Seq<char>>, part: Seq<char>, sep: Seq<char>)
    ensures
        text::joined(Seq::<Seq<char>>::empty(), sep) == Seq::<char>::empty(),
        text::joined(seq![part], sep) == part,
        parts.len() > 0 ==> text::joined(parts.push(part), sep) == text::joined(parts, sep) + sep
            + part,
{
    assert(parts.push(part).drop_last() =~= parts);
}

/// Looking for white space finds the first: what stands before it has none.
pub proof fn law_first_white_space(head: Seq<char>, c: char, tail: Seq<char>)
    requires
        forall|i: int| 0 <= i < head.len() ==> !text::is_white(#[trigger] head[i]),
        text::is_white(c),
    ensures
        text::first_white(head.push(c) + tail, 0) == head.len(),
        text::first_white(head, 0) == head.len(),
{
    lemma_first_white(head.push(c) + tail, 0, head.len() as int);
    lemma_first_white(head, 0, head.len() as int);
}

proof fn lemma_first_white(s: Seq<char>, i: int, end: int)
    requires
        0 <= i <= end <= s.len(),
        forall|k: int| i <= k < end ==> !text::is_white(#[trigger] s[k]),
        end < s.len() ==> text::is_white(s[end]),
    ensures
        text::first_white(s, i) == end,
    decreases end - i,
{
    if i < end {
        lemma_first_white(s, i + 1, end);
    }
}

/// A text ends with a suffix exactly where it is some text with the suffix behind
/// it.
pub proof fn law_suffix(s: Seq<char>, suffix: Seq<char>)
    ensures
        text::has_suffix(s, suffix) <==> exists|p: Seq<char>| s == #[trigger] (p + suffix),
{
    if text::has_suffix(s, suffix) {
        let p = s.take(s.len() - suffix.len());
        assert(s =~= p + suffix);
    }
    if exists|p: Seq<char>| s == #[trigger] (p + suffix) {
        let p = choose|p: Seq<char>| s == #[trigger] (p + suffix);
        assert(s.skip(s.len() - suffix.len()) =~= suffix);
    }
}

/// A number below ten is written as its digit, any other as the number of its tens
/// and then the digit of its ones.
pub proof fn law_decimal_goes_digit_by_digit(tens: nat, ones: nat)
    requires
        ones < 10,
    ensures
        text::decimal(ones).len() == 1,
        text::decimal(ones)[0] as u32 == '0' as u32 + ones,
        tens > 0 ==> text::decimal(tens * 10 + ones) == text::decimal(tens) + text::decimal(ones),
{
    if tens > 0 {
        let n = tens * 10 + ones;
        assert(n / 10 == tens && n % 10 == ones);
        assert(text::decimal(n) =~= text::decimal(tens) + text::decimal(ones));
    }
}

/// A number is read from its decimal digits, with or without a plus sign and
/// zeros in front of them, if it fits.
pub proof fn law_numbers_are_read(n: nat, zeros: Seq<char>)
    requires
        forall|i: int| 0 <= i < zeros.len() ==> #[trigger] zeros[i] == '0',
    ensures
        n <= u32::MAX ==> {
            &&& text::u32_value(zeros + text::decimal(n)) == Some(n as u32)
            &&& text::u32_value(seq!['+'] + (zeros + text::decimal(n))) == Some(n as u32)
        },
        n > u32::MAX ==> {
            &&& text::u32_value(zeros + text::decimal(n)) is None
            &&& text::u32_value(seq!['+'] + (zeros + text::decimal(n))) is None
        },
{
    text::lemma_decimal_value(n);
    let s = zeros + text::decimal(n);
    lemma_leading_zeros(zeros, text::decimal(n));
    assert forall|i: int| 0 <= i < s.len() implies text::is_digit(#[trigger] s[i]) by {
        if i < zeros.len() {
            assert(s[i] == zeros[i]);
        } else {
            assert(s[i] == text::decimal(n)[i - zeros.len()]);
        }
    }
    assert(text::is_digit(s[0]));
    assert((seq!['+'] + s).skip(1) =~= s);
    assert((seq!['+'] + s)[0] == '+');
}

proof fn lemma_leading_zeros(zeros: Seq<char>, s: Seq<char>)
    requires
        forall|i: int| 0 <= i < zeros.len() ==> #[trigger] zeros[i] == '0',
    ensures
        text::decimal_value(zeros + s) == text::decimal_value(s),
    decreases zeros.len() + s.len(),
{
    if s.len() > 0 {
        lemma_leading_zeros(zeros, s.drop_last());
        assert((zeros + s).drop_last() =~= zeros + s.drop_last());
        assert((zeros + s).last() == s.last());
    } else if zeros.len() > 0 {
        let front = zeros.drop_last();
        assert forall|i: int| 0 <= i < front.len() implies #[trigger] front[i] == '0' by {
            assert(front[i] == zeros[i]);
        }
        lemma_leading_zeros(front, s);
        assert((zeros + s).drop_last() =~= front + s);
        assert((zeros + s).last() == zeros[zeros.len() - 1]);
    }
}

/// A text with any other character in it, or without a digit, is no number.
pub proof fn law_other_texts_are_no_numbers(s: Seq<char>)
    ensures
        s.len() == 0 ==> text::u32_value(s) is None,
        s == seq!['+'] ==> text::u32_value(s) is None,
        forall|i: int|
            0 <= i < s.len() && !(48 <= (#[trigger] s[i]) as u32 <= 57) && !(i == 0 && s[i] == '+')
                ==> text::u32_value(s) is None,
{
    assert forall|i: int|
        0 <= i < s.len() && !(48 <= (#[trigger] s[i]) as u32 <= 57) && !(i == 0 && s[i]
            == '+') implies text::u32_value(s) is None by {
        assert(!text::is_digit(s[i]));
        if s[0] == '+' {
            assert(s.skip(1)[i - 1] == s[i]);
            assert(!text::all_digits(s.skip(1)));
        } else {
            assert(!text::all_digits(s));
        }
    }
}

/// A digit behind a number makes it ten times as large, and adds what it is worth.
pub proof fn law_each_digit_counts(s: Seq<char>, d: char)
    requires
        s.len() > 0,
        forall|i: int| 0 <= i < s.len() ==> 48 <= (#[trigger] s[i]) as u32 <= 57,
        48 <= d as u32 <= 57,
        text::u32_value(s.push(d)) is Some,
    ensures
        text::u32_value(s) is Some,
        text::u32_value(s.push(d))->0 == text::u32_value(s)->0 * 10 + (d as u32 - 48),
{
    assert(s.push(d).drop_last() =~= s);
    assert(s.push(d)[0] == s[0]);
    assert forall|i: int| 0 <= i < s.len() implies text::is_digit(#[trigger] s[i]) by {}
    assert forall|i: int| 0 <= i < s.push(d).len() implies text::is_digit(
        #[trigger] s.push(d)[i],
    ) by {
        if i < s.len() {
            assert(s.push(d)[i] == s[i]);
        }
    }
    assert(text::all_digits(s));
    assert(text::all_digits(s.push(d)));
}

} // verus!
