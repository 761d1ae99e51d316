//! What holds of texts, whatever they say.

use crate::text::{
    hex4, hex_digit, join, replace, replace_char, split_on, split_once, trim, trim_end, trim_start,
    white_space, pad_right, stands_at, contains_text,
};
use vstd::prelude::*;

verus! {

/// Splitting a text at a character splits each part of it.
pub proof fn law_split_parts_concatenate(a: Seq<char>, b: Seq<char>, c: char)
    ensures
        split_on(a + seq![c] + b, c) == split_on(a, c) + split_on(b, c),
    decreases b.len(),
{
    let all = a + seq![c] + b;
    lemma_split_has_parts(b, c);
    if b.len() == 0 {
        assert(all.drop_last() =~= a);
        assert(all.last() == c);
        assert(split_on(a, c).push(Seq::empty()) =~= split_on(a, c) + seq![Seq::<char>::empty()]);
    } else {
        let shorter = b.drop_last();
        assert(all.drop_last() =~= a + seq![c] + shorter);
        assert(all.last() == b.last());
        law_split_parts_concatenate(a, shorter, c);
        lemma_split_has_parts(shorter, c);
        let before = split_on(a, c) + split_on(shorter, c);
        assert(before.last() == split_on(shorter, c).last());
        if b.last() == c {
            assert(before.push(Seq::empty()) =~= split_on(a, c) + split_on(b, c));
        } else {
            assert(before.drop_last().push(before.last().push(b.last())) =~= split_on(a, c)
                + split_on(b, c));
        }
    }
}

proof fn lemma_split_has_parts(s: Seq<char>, c: char)
    ensures
        split_on(s, c).len() > 0,
    decreases s.len(),
{
    if s.len() > 0 {
        lemma_split_has_parts(s.drop_last(), c);
    }
}

/// The parts of a text, with the character between them, make up the text, and none
/// of them holds the character.
pub proof fn law_split_parts_make_up_the_text(s: Seq<char>, c: char)
    ensures
        join(split_on(s, c), seq![c]) == s,
        forall|i: int| 0 <= i < split_on(s, c).len() ==> !(#[trigger] split_on(s, c)[i]).contains(c),
    decreases s.len(),
{
    lemma_split_has_parts(s, c);
    if s.len() == 0 {
        assert(s =~= Seq::empty());
    } else {
        let shorter = s.drop_last();
        let before = split_on(shorter, c);
        let all = split_on(s, c);
        law_split_parts_make_up_the_text(shorter, c);
        lemma_split_has_parts(shorter, c);
        if s.last() == c {
            assert(all.drop_last() =~= before);
            assert(all.last() =~= Seq::empty());
            assert(join(all, seq![c]) =~= shorter + seq![c] + Seq::empty());
            assert(join(all, seq![c]) =~= s);
        } else {
            let last = before.last().push(s.last());
            assert(all.drop_last() =~= before.drop_last());
            assert(all.last() == last);
            if before.len() == 1 {
                assert(join(all, seq![c]) == all[0]);
                assert(join(before, seq![c]) == before[0]);
                assert(all[0] =~= s);
            } else {
                assert(join(all, seq![c]) == join(before.drop_last(), seq![c]) + seq![c] + last);
                assert(join(before, seq![c]) == join(before.drop_last(), seq![c]) + seq![c]
                    + before.last());
                assert(join(all, seq![c]) =~= shorter.push(s.last()));
                assert(shorter.push(s.last()) =~= s);
            }
        }
        assert forall|i: int| 0 <= i < all.len() implies !(#[trigger] all[i]).contains(c) by {
            if i < before.len() - 1 {
                assert(all[i] == before[i]);
            } else if s.last() == c {
                if i == before.len() - 1 {
                    assert(all[i] == before[i]);
                }
            } else {
                let part = before.last().push(s.last());
                assert(all[i] == part);
                assert(!before[before.len() - 1].contains(c));
                if part.contains(c) {
                    let k = choose|k: int| 0 <= k < part.len() && part[k] == c;
                    if k < before.last().len() {
                        assert(before.last()[k] == c);
                    }
                }
            }
        }
    }
}

/// A text is split at the first place of a character, and only where it has one.
pub proof fn law_splitting_once_finds_the_first(s: Seq<char>, c: char)
    ensures
        match split_once(s, c) {
            Some((before, after)) => s == before + seq![c] + after && !before.contains(c),
            None => !s.contains(c),
        },
{
    if s.contains(c) {
        s.index_of_first_ensures(c);
        let i = s.index_of_first(c)->Some_0;
        assert(s =~= s.take(i) + seq![c] + s.skip(i + 1));
        if s.take(i).contains(c) {
            let k = choose|k: int| 0 <= k < i && s.take(i)[k] == c;
            assert(s[k] == c);
        }
    }
}

proof fn lemma_trim_start(s: Seq<char>)
    ensures
        exists|i: int|
            0 <= i <= s.len() && trim_start(s) == #[trigger] s.skip(i) && (forall|k: int|
                0 <= k < i ==> white_space(#[trigger] s[k])) && (i < s.len() ==> !white_space(s[i])),
    decreases s.len(),
{
    if s.len() > 0 && white_space(s[0]) {
        let rest = s.skip(1);
        lemma_trim_start(rest);
        let i = choose|i: int|
            0 <= i <= rest.len() && trim_start(rest) == #[trigger] rest.skip(i) && (forall|k: int|
                0 <= k < i ==> white_space(#[trigger] rest[k])) && (i < rest.len()
                ==> !white_space(rest[i]));
        assert(rest.skip(i) =~= s.skip(i + 1));
        assert forall|k: int| 0 <= k < i + 1 implies white_space(#[trigger] s[k]) by {
            if k > 0 {
                assert(rest[k - 1] == s[k]);
            }
        }
        if i < rest.len() {
            assert(rest[i] == s[i + 1]);
        }
        assert(trim_start(s) == s.skip(i + 1));
    } else {
        assert(s.skip(0) =~= s);
    }
}

proof fn lemma_trim_end(s: Seq<char>)
    ensures
        exists|j: int|
            0 <= j <= s.len() && trim_end(s) == #[trigger] s.take(j) && (forall|k: int|
                j <= k < s.len() ==> white_space(#[trigger] s[k])) && (j > 0 ==> !white_space(
                s[j - 1],
            )),
    decreases s.len(),
{
    if s.len() > 0 && white_space(s[s.len() - 1]) {
        let rest = s.take(s.len() - 1);
        lemma_trim_end(rest);
        let j = choose|j: int|
            0 <= j <= rest.len() && trim_end(rest) == #[trigger] rest.take(j) && (forall|k: int|
                j <= k < rest.len() ==> white_space(#[trigger] rest[k])) && (j > 0
                ==> !white_space(rest[j - 1]));
        assert(rest.take(j) =~= s.take(j));
        assert forall|k: int| j <= k < s.len() implies white_space(#[trigger] s[k]) by {
            if k < rest.len() {
                assert(rest[k] == s[k]);
            }
        }
        if j > 0 {
            assert(rest[j - 1] == s[j - 1]);
        }
        assert(trim_end(s) == s.take(j));
    } else {
        assert(s.take(s.len() as int) =~= s);
    }
}

/// Trimming leaves the middle of a text: it takes nothing but white space away, and
/// all of it that stands at the ends.
pub proof fn law_trimming_takes_the_white_space_at_the_ends(s: Seq<char>)
    ensures
        exists|i: int, j: int|
            0 <= i <= j <= s.len() && trim(s) == #[trigger] s.subrange(i, j) && (forall|k: int|
                (0 <= k < i || j <= k < s.len()) ==> white_space(#[trigger] s[k])),
        trim(s).len() > 0 ==> !white_space(trim(s)[0]) && !white_space(trim(s).last()),
{
    lemma_trim_start(s);
    let i = choose|i: int|
        0 <= i <= s.len() && trim_start(s) == #[trigger] s.skip(i) && (forall|k: int|
            0 <= k < i ==> white_space(#[trigger] s[k])) && (i < s.len() ==> !white_space(s[i]));
    let t = s.skip(i);
    lemma_trim_end(t);
    let j = choose|j: int|
        0 <= j <= t.len() && trim_end(t) == #[trigger] t.take(j) && (forall|k: int|
            j <= k < t.len() ==> white_space(#[trigger] t[k])) && (j > 0 ==> !white_space(
            t[j - 1],
        ));
    assert(t.take(j) =~= s.subrange(i, i + j));
    assert forall|k: int| (0 <= k < i || i + j <= k < s.len()) implies white_space(
        #[trigger] s[k],
    ) by {
        if k >= i + j {
            assert(t[k - i] == s[k]);
        }
    }
    if j > 0 {
        assert(t[0] == s[i]);
        assert(trim(s)[0] == t[0]);
        assert(trim(s).last() == t[j - 1]);
    }
}

/// A text that a part stands in is found to hold it, and no other is.
pub proof fn law_parts_are_found(s: Seq<char>, p: Seq<char>)
    ensures
        contains_text(s, p) <==> exists|a: Seq<char>, b: Seq<char>| s == #[trigger] (a + p + b),
{
    if contains_text(s, p) {
        let i = choose|i: int| stands_at(s, p, i);
        let a = s.take(i);
        let b = s.skip(i + p.len());
        assert(s =~= a + p + b) by {
            assert forall|k: int| 0 <= k < s.len() implies s[k] == (a + p + b)[k] by {
                if i <= k < i + p.len() {
                    assert(s.subrange(i, i + p.len())[k - i] == s[k]);
                }
            }
        }
    }
    if exists|a: Seq<char>, b: Seq<char>| s == #[trigger] (a + p + b) {
        let (a, b) = choose|a: Seq<char>, b: Seq<char>| s == #[trigger] (a + p + b);
        assert(s.subrange(a.len() as int, (a.len() + p.len()) as int) =~= p);
        assert(stands_at(s, p, a.len() as int));
    }
}

/// A character is replaced wherever it stands, and nothing else is.
pub proof fn law_characters_are_replaced(s: Seq<char>, c: char, d: char)
    ensures
        replace_char(s, c, d).len() == s.len(),
        forall|i: int|
            0 <= i < s.len() ==> #[trigger] replace_char(s, c, d)[i] == (if s[i] == c {
                d
            } else {
                s[i]
            }),
{
}

/// Where a part first stands in a text, it is replaced, and the rest behind it is
/// gone on with.
pub proof fn law_parts_are_replaced(a: Seq<char>, p: Seq<char>, b: Seq<char>, q: Seq<char>)
    requires
        p.len() > 0,
        forall|i: int| 0 <= i < a.len() ==> !#[trigger] stands_at(a + p + b, p, i),
    ensures
        replace(a + p + b, p, q) == a + q + replace(b, p, q),
    decreases a.len(),
{
    let s = a + p + b;
    if a.len() == 0 {
        assert(s.subrange(0, p.len() as int) =~= p);
        assert(s.skip(p.len() as int) =~= b);
        assert(a + q + replace(b, p, q) =~= q + replace(b, p, q));
    } else {
        assert(!stands_at(s, p, 0));
        let rest = a.skip(1);
        assert(s.skip(1) =~= rest + p + b);
        assert forall|i: int| 0 <= i < rest.len() implies !#[trigger] stands_at(
            rest + p + b,
            p,
            i,
        ) by {
            if stands_at(rest + p + b, p, i) {
                assert(s.subrange(i + 1, i + 1 + p.len()) =~= (rest + p + b).subrange(
                    i,
                    i + p.len(),
                ));
                assert(stands_at(s, p, i + 1));
            }
        }
        law_parts_are_replaced(rest, p, b, q);
        assert(seq![s[0]] + (rest + q + replace(b, p, q)) =~= a + q + replace(b, p, q));
    }
}

/// A text without the part stays as it is.
pub proof fn law_absent_parts_replace_nothing(s: Seq<char>, p: Seq<char>, q: Seq<char>)
    requires
        forall|i: int| !#[trigger] stands_at(s, p, i),
    ensures
        replace(s, p, q) == s,
    decreases s.len(),
{
    if s.len() > 0 && p.len() > 0 {
        assert(!stands_at(s, p, 0));
        let rest = s.skip(1);
        assert forall|i: int| !#[trigger] stands_at(rest, p, i) by {
            if stands_at(rest, p, i) {
                assert(s.subrange(i + 1, i + 1 + p.len()) =~= rest.subrange(i, i + p.len()));
                assert(stands_at(s, p, i + 1));
            }
        }
        law_absent_parts_replace_nothing(rest, p, q);
        assert(seq![s[0]] + rest =~= s);
    }
}

/// The value of a hexadecimal digit.
pub open spec fn hex_value(c: char) -> int {
    if '0' as u32 <= c as u32 <= '9' as u32 {
        c as u32 - '0' as u32
    } else {
        c as u32 - 'A' as u32 + 10
    }
}

/// A number in four hexadecimal digits stands for that number.
pub proof fn law_four_digits_tell_a_number(n: u16)
    ensures
        hex4(n).len() == 4,
        4096 * hex_value(hex4(n)[0]) + 256 * hex_value(hex4(n)[1]) + 16 * hex_value(hex4(n)[2])
            + hex_value(hex4(n)[3]) == n,
{
    lemma_hex_digit(n as nat / 4096);
    lemma_hex_digit(n as nat / 256 % 16);
    lemma_hex_digit(n as nat / 16 % 16);
    lemma_hex_digit(n as nat % 16);
}

proof fn lemma_hex_digit(d: nat)
    requires
        d < 16,
    ensures
        hex_value(hex_digit(d)) == d,
{
}

/// Padding adds blanks behind a text, up to the width and no further.
pub proof fn law_padding_adds_blanks(s: Seq<char>, width: nat)
    ensures
        pad_right(s, width).len() == if s.len() < width {
            width
        } else {
            s.len()
        },
        pad_right(s, width).take(s.len() as int) == s,
        forall|i: int|
            s.len() <= i < pad_right(s, width).len() ==> #[trigger] pad_right(s, width)[i] == ' ',
{
    assert(pad_right(s, width).take(s.len() as int) =~= s);
}

} // verus!
