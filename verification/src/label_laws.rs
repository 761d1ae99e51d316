//! What holds of every title, size and duration that is shown.

use crate::double::{
    doubled, duration_text, file_size_text, half_even, nearest, quotient, scaled_size, unit_label,
    Ratio,
};
use crate::labels::{is_acronym, spaced, starts_word, title_of, title_word};
use crate::text::{decimal, is_digit, is_lower, is_upper, join, upper, white_space, words};
use vstd::arithmetic::div_mod::*;
use vstd::arithmetic::mul::*;
use vstd::prelude::*;
use vstd::utf8::*;

verus! {

// ---------------------------------------------------------------------------
// Titles
// ---------------------------------------------------------------------------
/// Whether a text is a capital and small letters behind it.
pub open spec fn is_capitalized_word(word: Seq<char>) -> bool {
    &&& word.len() > 0
    &&& 'A' as u32 <= word[0] as u32 <= 'Z' as u32
    &&& forall|i: int|
        0 < i < word.len() ==> 'a' as u32 <= #[trigger] word[i] as u32 <= 'z' as u32
}

/// Whether a text is digits only.
pub open spec fn is_digits(word: Seq<char>) -> bool {
    word.len() > 0 && forall|i: int|
        0 <= i < word.len() ==> '0' as u32 <= #[trigger] word[i] as u32 <= '9' as u32
}

/// Whether a text is capitals only.
pub open spec fn is_capitals(word: Seq<char>) -> bool {
    word.len() > 0 && forall|i: int|
        0 <= i < word.len() ==> 'A' as u32 <= #[trigger] word[i] as u32 <= 'Z' as u32
}

proof fn lemma_spaced_start(name: Seq<char>, more: Seq<char>, n: int)
    requires
        0 <= n <= name.len(),
        more.len() > 0,
        !is_lower(more[0]) || name.len() == 0 || !is_upper(name.last()),
    ensures
        spaced(name + more, n) == spaced(name, n),
    decreases n,
{
    if n > 0 {
        lemma_spaced_start(name, more, n - 1);
        let all = name + more;
        let i = n - 1;
        assert(all[i] == name[i]);
        if i > 0 {
            assert(all[i - 1] == name[i - 1]);
        }
        if i + 1 < name.len() {
            assert(all[i + 1] == name[i + 1]);
        } else {
            assert(all[i + 1] == more[0]);
        }
        assert(starts_word(all, i) == starts_word(name, i));
    }
}

proof fn lemma_spaced_word(name: Seq<char>, word: Seq<char>, n: int)
    requires
        0 < n <= word.len(),
        starts_word(name + word, name.len() as int),
        forall|i: int| 0 < i < word.len() ==> !#[trigger] starts_word(name + word, name.len() + i),
    ensures
        spaced(name + word, name.len() + n) == spaced(name + word, name.len() as int) + seq![' ']
            + word.take(n),
    decreases n,
{
    let all = name + word;
    let before = spaced(all, name.len() as int);
    assert(all[name.len() + n - 1] == word[n - 1]);
    if n == 1 {
        assert(spaced(all, name.len() + n) =~= before + seq![' '] + word.take(1));
    } else {
        lemma_spaced_word(name, word, n - 1);
        assert(!starts_word(all, name.len() + (n - 1)));
        assert(before + seq![' '] + word.take(n) =~= (before + seq![' '] + word.take(n - 1)).push(
            word[n - 1],
        ));
    }
}

proof fn lemma_unspaced(name: Seq<char>, n: int)
    requires
        0 <= n <= name.len(),
        forall|i: int| 0 <= i < n ==> !#[trigger] starts_word(name, i),
    ensures
        spaced(name, n) == name.take(n),
    decreases n,
{
    if n > 0 {
        lemma_unspaced(name, n - 1);
        assert(!starts_word(name, n - 1));
        assert(name.take(n) =~= name.take(n - 1).push(name[n - 1]));
    } else {
        assert(spaced(name, n) =~= name.take(n));
    }
}

proof fn lemma_words_of_one(word: Seq<char>)
    requires
        word.len() > 0,
        forall|i: int| 0 <= i < word.len() ==> !white_space(#[trigger] word[i]),
    ensures
        words(word) == seq![word],
    decreases word.len(),
{
    let before = word.drop_last();
    if word.len() == 1 {
        assert(words(before).len() == 0);
        assert(!white_space(word[0]));
        assert(word.last() == word[0]);
        assert(seq![word.last()] =~= word);
        assert(words(word) =~= seq![word]);
    } else {
        lemma_words_of_one(before);
        assert(!white_space(word[word.len() - 2]));
        assert(!white_space(word[word.len() - 1]));
        assert(before.push(word.last()) =~= word);
        assert(words(word) =~= seq![word]);
    }
}

proof fn lemma_words_behind_a_blank(text: Seq<char>, word: Seq<char>)
    requires
        word.len() > 0,
        forall|i: int| 0 <= i < word.len() ==> !white_space(#[trigger] word[i]),
    ensures
        words(text + seq![' '] + word) == words(text).push(word),
    decreases word.len(),
{
    let all = text + seq![' '] + word;
    let before = word.drop_last();
    assert(all.last() == word[word.len() - 1]);
    assert(!white_space(all.last()));
    assert(white_space(' '));
    if word.len() == 1 {
        assert(all[all.len() - 2] == ' ');
        let blank = text + seq![' '];
        assert(all.drop_last() =~= blank);
        assert(blank.last() == ' ');
        assert(blank.drop_last() =~= text);
        assert(words(blank) == words(text));
        assert(seq![all.last()] =~= word);
    } else {
        assert(all[all.len() - 2] == word[word.len() - 2]);
        assert(all.drop_last() =~= text + seq![' '] + before);
        lemma_words_behind_a_blank(text, before);
        assert(before.push(word.last()) =~= word);
        assert(words(text).push(before).drop_last() =~= words(text));
    }
}

proof fn lemma_title_behind(name: Seq<char>, word: Seq<char>)
    requires
        name.len() > 0,
        !white_space(name.last()),
        word.len() > 0,
        forall|i: int| 0 <= i < word.len() ==> !white_space(#[trigger] word[i]),
        !is_lower(word[0]),
        title_word(word) == word,
        starts_word(name + word, name.len() as int),
        forall|i: int| 0 < i < word.len() ==> !#[trigger] starts_word(name + word, name.len() + i),
    ensures
        title_of(name + word) == title_of(name) + seq![' '] + word,
{
    let title = |word: Seq<char>| title_word(word);
    let before = spaced(name, name.len() as int);
    lemma_spaced_start(name, word, name.len() as int);
    lemma_spaced_word(name, word, word.len() as int);
    assert(word.take(word.len() as int) =~= word);
    assert((name + word).len() == name.len() + word.len());
    lemma_words_behind_a_blank(before, word);
    let parts = words(before).map_values(title);
    assert(before.last() == name.last());
    assert(words(before).len() > 0);
    assert(words(before).push(word).map_values(title) =~= parts.push(word));
    assert(parts.push(word).drop_last() =~= parts);
    reveal_strlit(" ");
    assert(" "@ =~= seq![' ']);
    assert(join(parts.push(word), " "@) == join(parts, " "@) + " "@ + word);
}

/// A capital behind a small letter starts a new word of the title.
pub proof fn law_titles_part_at_capitals(name: Seq<char>, word: Seq<char>)
    requires
        name.len() > 0,
        'a' as u32 <= name.last() as u32 <= 'z' as u32,
        is_capitalized_word(word),
    ensures
        title_of(name + word) == title_of(name) + seq![' '] + word,
{
    let all = name + word;
    let n = name.len() as int;
    assert(all[n - 1] == name.last());
    assert(all[n] == word[0]);
    assert(starts_word(all, n));
    assert forall|i: int| 0 < i < word.len() implies !#[trigger] starts_word(all, name.len() + i) by {
        assert(all[n + i] == word[i]);
        assert('a' as u32 <= word[i] as u32 <= 'z' as u32);
    }
    lemma_word_is_its_title(word);
    assert forall|i: int| 0 <= i < word.len() implies !white_space(#[trigger] word[i]) by {
        if i > 0 {
            assert('a' as u32 <= word[i] as u32 <= 'z' as u32);
        }
    }
    lemma_title_behind(name, word);
}

proof fn lemma_word_is_its_title(word: Seq<char>)
    requires
        is_capitalized_word(word),
    ensures
        title_word(word) == word,
{
    assert(crate::labels::capitalized(word) =~= word) by {
        assert forall|i: int| 0 <= i < word.len() implies #[trigger] crate::labels::capitalized(
            word,
        )[i] == word[i] by {
            if i > 0 {
                assert('a' as u32 <= word[i] as u32 <= 'z' as u32);
            }
        }
    }
}

/// Digits behind a letter are a word of their own in the title.
pub proof fn law_titles_part_at_digits(name: Seq<char>, digits: Seq<char>)
    requires
        name.len() > 0,
        'a' as u32 <= name.last() as u32 <= 'z' as u32 || 'A' as u32 <= name.last() as u32
            <= 'Z' as u32,
        is_digits(digits),
    ensures
        title_of(name + digits) == title_of(name) + seq![' '] + digits,
{
    let all = name + digits;
    let n = name.len() as int;
    assert('0' as u32 <= digits[0] as u32 <= '9' as u32);
    assert(all[n - 1] == name.last());
    assert(all[n] == digits[0]);
    assert(starts_word(all, n));
    assert forall|i: int| 0 < i < digits.len() implies !#[trigger] starts_word(
        all,
        name.len() + i,
    ) by {
        assert(all[n + i] == digits[i]);
        assert(all[n + i - 1] == digits[i - 1]);
        assert('0' as u32 <= digits[i] as u32 <= '9' as u32);
        assert('0' as u32 <= digits[i - 1] as u32 <= '9' as u32);
    }
    assert(is_acronym(digits)) by {
        assert forall|i: int| 0 <= i < digits.len() implies is_upper(#[trigger] digits[i])
            || is_digit(digits[i]) by {}
    }
    assert forall|i: int| 0 <= i < digits.len() implies !white_space(#[trigger] digits[i]) by {
        assert('0' as u32 <= digits[i] as u32 <= '9' as u32);
    }
    lemma_title_behind(name, digits);
}

/// An acronym stays as it is, and ends where a word of small letters starts with a
/// capital.
pub proof fn law_acronyms_stay_in_titles(acronym: Seq<char>, word: Seq<char>)
    requires
        is_capitals(acronym),
        is_capitalized_word(word),
        word.len() > 1,
    ensures
        title_of(acronym) == acronym,
        title_of(acronym + word) == acronym + seq![' '] + word,
        title_of(word) == word,
{
    lemma_title_of_capitals(acronym);
    lemma_title_of_word(word);
    let all = acronym + word;
    let n = acronym.len() as int;
    assert('A' as u32 <= acronym[n - 1] as u32 <= 'Z' as u32);
    assert('a' as u32 <= word[1] as u32 <= 'z' as u32);
    assert(all[n - 1] == acronym[n - 1]);
    assert(all[n] == word[0]);
    assert(all[n + 1] == word[1]);
    assert(starts_word(all, n));
    assert forall|i: int| 0 < i < word.len() implies !#[trigger] starts_word(
        all,
        acronym.len() + i,
    ) by {
        assert(all[n + i] == word[i]);
        assert('a' as u32 <= word[i] as u32 <= 'z' as u32);
    }
    lemma_word_is_its_title(word);
    assert forall|i: int| 0 <= i < word.len() implies !white_space(#[trigger] word[i]) by {
        if i > 0 {
            assert('a' as u32 <= word[i] as u32 <= 'z' as u32);
        }
    }
    lemma_title_behind(acronym, word);
}

proof fn lemma_title_of_one(word: Seq<char>)
    requires
        word.len() > 0,
        forall|i: int| 0 <= i < word.len() ==> !#[trigger] starts_word(word, i),
        forall|i: int| 0 <= i < word.len() ==> !white_space(#[trigger] word[i]),
    ensures
        title_of(word) == title_word(word),
{
    lemma_unspaced(word, word.len() as int);
    assert(word.take(word.len() as int) =~= word);
    lemma_words_of_one(word);
    assert(seq![word].map_values(|word: Seq<char>| title_word(word)) =~= seq![title_word(word)]);
}

proof fn lemma_title_of_capitals(word: Seq<char>)
    requires
        is_capitals(word),
    ensures
        title_of(word) == word,
{
    assert forall|i: int| 0 <= i < word.len() implies !#[trigger] starts_word(word, i) by {
        if 0 < i {
            assert('A' as u32 <= word[i] as u32 <= 'Z' as u32);
            assert('A' as u32 <= word[i - 1] as u32 <= 'Z' as u32);
            if i + 1 < word.len() {
                assert('A' as u32 <= word[i + 1] as u32 <= 'Z' as u32);
            }
        }
    }
    assert forall|i: int| 0 <= i < word.len() implies !white_space(#[trigger] word[i]) by {
        assert('A' as u32 <= word[i] as u32 <= 'Z' as u32);
    }
    lemma_title_of_one(word);
    assert(is_acronym(word)) by {
        assert forall|i: int| 0 <= i < word.len() implies is_upper(#[trigger] word[i])
            || is_digit(word[i]) by {}
    }
}

proof fn lemma_title_of_word(word: Seq<char>)
    requires
        is_capitalized_word(word),
    ensures
        title_of(word) == word,
{
    assert forall|i: int| 0 <= i < word.len() implies !#[trigger] starts_word(word, i) by {
        if 0 < i {
            assert('a' as u32 <= word[i] as u32 <= 'z' as u32);
        }
    }
    assert forall|i: int| 0 <= i < word.len() implies !white_space(#[trigger] word[i]) by {
        if 0 < i {
            assert('a' as u32 <= word[i] as u32 <= 'z' as u32);
        }
    }
    lemma_title_of_one(word);
    lemma_word_is_its_title(word);
}

/// A word of small letters has a capital in the title, and is as it was otherwise.
pub proof fn law_titles_have_capitals(word: Seq<char>)
    requires
        word.len() > 0,
        forall|i: int| 0 <= i < word.len() ==> 'a' as u32 <= #[trigger] word[i] as u32 <= 'z' as u32,
    ensures
        title_of(word).len() == word.len(),
        title_of(word)[0] as u32 + 32 == word[0] as u32,
        forall|i: int| 0 < i < word.len() ==> #[trigger] title_of(word)[i] == word[i],
{
    assert forall|i: int| 0 <= i < word.len() implies !#[trigger] starts_word(word, i) by {
        if 0 < i {
            assert('a' as u32 <= word[i] as u32 <= 'z' as u32);
        }
    }
    assert forall|i: int| 0 <= i < word.len() implies !white_space(#[trigger] word[i]) by {
        assert('a' as u32 <= word[i] as u32 <= 'z' as u32);
    }
    lemma_title_of_one(word);
    assert('a' as u32 <= word[0] as u32 <= 'z' as u32);
    assert(!is_acronym(word)) by {
        assert(!is_upper(word[0]) && !is_digit(word[0]));
    }
    lemma_upper_is_32_back(word[0]);
    assert forall|i: int| 0 < i < word.len() implies #[trigger] title_of(word)[i] == word[i] by {
        assert('a' as u32 <= word[i] as u32 <= 'z' as u32);
    }
}

proof fn lemma_upper_is_32_back(c: char)
    requires
        'a' as u32 <= c as u32 <= 'z' as u32,
    ensures
        upper(c) as u32 + 32 == c as u32,
{
    char_is_scalar(c);
}

// ---------------------------------------------------------------------------
// Sizes
// ---------------------------------------------------------------------------
proof fn lemma_half_even_exact(k: nat, d: nat)
    requires
        d > 0,
    ensures
        half_even(k * d, d) == k,
{
    lemma_div_multiples_vanish(k as int, d as int);
    lemma_mul_is_commutative(k as int, d as int);
    lemma_mod_multiples_basic(k as int, d as int);
}

proof fn lemma_doubled(n: nat, unit: nat, limit: nat)
    requires
        n > 0,
        n < limit,
        unit > 0,
    ensures
        exists|f: nat| #[trigger]
            is_factor(f) && doubled(n, unit, limit) == (n * f, unit * f) && n * f < 2 * limit,
    decreases limit - n,
{
    if 2 * n >= limit {
        assert(is_factor(2));
        assert(doubled(2 * n, 2 * unit, limit) == (2 * n, 2 * unit));
        assert(doubled(n, unit, limit) == (n * 2, unit * 2));
    } else {
        lemma_doubled(2 * n, 2 * unit, limit);
        let f = choose|f: nat| #[trigger]
            is_factor(f) && doubled(2 * n, 2 * unit, limit) == ((2 * n) * f, (2 * unit) * f) && (2
                * n) * f < 2 * limit;
        assert((2 * n) * f == n * (2 * f)) by (nonlinear_arith);
        assert((2 * unit) * f == unit * (2 * f)) by (nonlinear_arith);
        assert(is_factor(2 * f));
    }
}

spec fn is_factor(f: nat) -> bool {
    f > 0
}

/// The thousandth of a ratio that stands for a thousand times `k` stands for `k`.
proof fn lemma_exact_thousandth(size: Ratio, k: nat)
    requires
        size.below > 0,
        size.above == 1000 * k * size.below,
        0 < k < 0x10_0000_0000_0000,
    ensures
        size.thousandth().below > 0,
        size.thousandth().above == k * size.thousandth().below,
{
    let d = 1000 * size.below;
    let limit = 0x10_0000_0000_0000 * d;
    assert(size.above == k * d) by (nonlinear_arith)
        requires
            size.above == 1000 * k * size.below,
            d == 1000 * size.below,
    ;
    assert(k * d < 0x10_0000_0000_0000 * d) by (nonlinear_arith)
        requires
            k < 0x10_0000_0000_0000,
            d > 0,
    ;
    assert(k * d > 0) by (nonlinear_arith)
        requires
            k > 0,
            d > 0,
    ;
    lemma_doubled(size.above, 1, limit);
    let f = choose|f: nat| #[trigger]
        is_factor(f) && doubled(size.above, 1, limit) == (size.above * f, 1 * f) && size.above * f
            < 2 * limit;
    assert(size.above * f == (k * f) * d) by (nonlinear_arith)
        requires
            size.above == k * d,
    ;
    lemma_half_even_exact(k * f, d);
    assert(quotient(size.above * f, d) == k * f);
}

proof fn lemma_exact_scale(size: Ratio, k: nat, unit: nat)
    requires
        size.below > 0,
        size.above == k * size.below,
        k < 0x10_0000_0000_0000,
    ensures
        k < 1000 ==> scaled_size(size, unit) == (size, unit),
        k >= 1000 && unit < 4 ==> scaled_size(size, unit) == scaled_size(
            size.thousandth(),
            unit + 1,
        ),
{
    if k < 1000 {
        assert(size.above < 1000 * size.below) by (nonlinear_arith)
            requires
                size.above == k * size.below,
                k < 1000,
                size.below > 0,
        ;
    } else {
        assert(size.above >= 1000 * size.below) by (nonlinear_arith)
            requires
                size.above == k * size.below,
                k >= 1000,
                size.below > 0,
        ;
    }
}

proof fn lemma_exact_text(size: Ratio, k: nat)
    requires
        size.below > 0,
        size.above == k * size.below,
    ensures
        size.rounded(1) == k,
        size.rounded(10) == 10 * k,
{
    assert(1 * size.above == k * size.below);
    lemma_half_even_exact(k, size.below);
    assert(10 * size.above == (10 * k) * size.below) by (nonlinear_arith)
        requires
            size.above == k * size.below,
    ;
    lemma_half_even_exact(10 * k, size.below);
}

proof fn lemma_nearest_exact(n: nat)
    requires
        n < 0x20_0000_0000_0000,
    ensures
        nearest(n).above == n && nearest(n).below == 1,
{
    lemma_half_even_exact(n, 1);
}

proof fn lemma_next(size: Ratio, k: nat, unit: nat) -> (next: Ratio)
    requires
        size.below > 0,
        size.above == 1000 * k * size.below,
        0 < k < 0x4_0000_0000_0000,
        unit < 4,
        1000 * k < 0x10_0000_0000_0000,
    ensures
        next.below > 0,
        next.above == k * next.below,
        scaled_size(size, unit) == scaled_size(next, unit + 1),
{
    lemma_exact_scale(size, 1000 * k, unit);
    lemma_exact_thousandth(size, k);
    size.thousandth()
}

/// A size of a whole number below a thousand of kilobytes, megabytes, gigabytes or
/// terabytes, each a thousand of the one before, is told as that number.
pub proof fn law_whole_sizes_are_told_exactly(k: nat)
    requires
        0 < k < 1000,
    ensures
        file_size_text(k * 1_000) == decimal(k) + " "@ + "KB"@,
        file_size_text(k * 1_000_000) == decimal(k) + " "@ + "MB"@,
        file_size_text(k * 1_000_000_000) == decimal(k) + " "@ + "GB"@,
        file_size_text(k * 1_000_000_000_000) == decimal(k) + " "@ + "TB"@,
{
    let one = nearest(k * 1_000);
    lemma_nearest_exact(k * 1_000);
    let kilo = lemma_next(one, k, 0);
    lemma_whole_text(k * 1_000, kilo, k, 1);
    let two = nearest(k * 1_000_000);
    lemma_nearest_exact(k * 1_000_000);
    let kilos = lemma_next(two, k * 1_000, 0);
    assert(kilos.above == 1000 * k * kilos.below) by (nonlinear_arith)
        requires
            kilos.above == (k * 1_000) * kilos.below,
    ;
    let mega = lemma_next(kilos, k, 1);
    lemma_whole_text(k * 1_000_000, mega, k, 2);
    let three = nearest(k * 1_000_000_000);
    lemma_nearest_exact(k * 1_000_000_000);
    let a = lemma_next(three, k * 1_000_000, 0);
    assert(a.above == 1000 * (k * 1_000) * a.below) by (nonlinear_arith)
        requires
            a.above == (k * 1_000_000) * a.below,
    ;
    let b = lemma_next(a, k * 1_000, 1);
    assert(b.above == 1000 * k * b.below) by (nonlinear_arith)
        requires
            b.above == (k * 1_000) * b.below,
    ;
    let giga = lemma_next(b, k, 2);
    lemma_whole_text(k * 1_000_000_000, giga, k, 3);
    let four = nearest(k * 1_000_000_000_000);
    lemma_nearest_exact(k * 1_000_000_000_000);
    let c = lemma_next(four, k * 1_000_000_000, 0);
    assert(c.above == 1000 * (k * 1_000_000) * c.below) by (nonlinear_arith)
        requires
            c.above == (k * 1_000_000_000) * c.below,
    ;
    let d = lemma_next(c, k * 1_000_000, 1);
    assert(d.above == 1000 * (k * 1_000) * d.below) by (nonlinear_arith)
        requires
            d.above == (k * 1_000_000) * d.below,
    ;
    let e = lemma_next(d, k * 1_000, 2);
    assert(e.above == 1000 * k * e.below) by (nonlinear_arith)
        requires
            e.above == (k * 1_000) * e.below,
    ;
    let tera = lemma_next(e, k, 3);
    lemma_whole_text(k * 1_000_000_000_000, tera, k, 4);
}

proof fn lemma_whole_text(bytes: nat, size: Ratio, k: nat, unit: nat)
    requires
        bytes >= 1000,
        size.below > 0,
        size.above == k * size.below,
        0 < k < 1000,
        scaled_size(nearest(bytes), 0) == scaled_size(size, unit),
    ensures
        file_size_text(bytes) == decimal(k) + " "@ + unit_label(unit),
{
    lemma_exact_scale(size, k, unit);
    lemma_exact_text(size, k);
    assert((10 * k) % 10 == 0 && (10 * k) / 10 == k);
}

/// A duration is told in milliseconds up to a second and a half, and beyond in seconds
/// with one digit behind the point.
pub proof fn law_durations_are_told_in_seconds(ms: nat, s: nat)
    requires
        1 < s < 0x1_0000_0000,
    ensures
        ms <= 1500 ==> duration_text(ms) == decimal(ms) + "ms"@,
        duration_text(1000 * s) == decimal(s) + "."@ + decimal(0) + "s"@,
{
    lemma_nearest_exact(1000 * s);
    let size = nearest(1000 * s);
    lemma_exact_thousandth(size, s);
    lemma_exact_text(size.thousandth(), s);
    assert((10 * s) / 10 == s && (10 * s) % 10 == 0);
    assert(duration_text(1000 * s) =~= decimal(s) + "."@ + decimal(0) + "s"@);
}

} // verus!
