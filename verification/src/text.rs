//! Text as a sequence of characters: the string operations that the rest of
//! the library builds on, each with its meaning on `Seq<char>`.

use vstd::prelude::*;
use vstd::string::*;

verus! {

/// `String::push` appends one character.
pub assume_specification[ String::push ](s: &mut String, c: char)
    ensures
        final(s)@ == old(s)@.push(c),
;

/// `String::push_str` appends the characters of a string slice.
pub assume_specification[ String::push_str ](s: &mut String, other: &str)
    ensures
        final(s)@ == old(s)@ + other@,
;

/// `str` equality compares the two strings character by character.
pub assume_specification[ <str as PartialEq<str>>::eq ](a: &str, b: &str) -> (r: bool)
    ensures
        r == (a@ == b@),
;

/// The characters with the Unicode `White_Space` property.
pub open spec fn white_space(c: char) -> bool {
    ||| 0x09 <= c as u32 <= 0x0d
    ||| c as u32 == 0x20
    ||| c as u32 == 0x85
    ||| c as u32 == 0xa0
    ||| c as u32 == 0x1680
    ||| 0x2000 <= c as u32 <= 0x200a
    ||| c as u32 == 0x2028
    ||| c as u32 == 0x2029
    ||| c as u32 == 0x202f
    ||| c as u32 == 0x205f
    ||| c as u32 == 0x3000
}

/// `char::is_whitespace` decides the Unicode `White_Space` property.
pub assume_specification[ char::is_whitespace ](c: char) -> (r: bool)
    ensures
        r == white_space(c),
;

/// What `char::to_lowercase` yields for a character.
pub uninterp spec fn lowercase_mapping(c: char) -> Seq<char>;

/// `char::to_lowercase`, collected: the Unicode lowercase mapping of one
/// character. On ASCII it is the ASCII lowercase letter; beyond ASCII only that
/// it depends on nothing but the character is stated.
#[verifier::external_body]
pub(crate) fn lowercase_chars(c: char) -> (r: Vec<char>)
    ensures
        r@ == lowercase_mapping(c),
        (c as u32) < 128 ==> r@ == seq![lower(c)],
{
    c.to_lowercase().collect()
}

// ---------------------------------------------------------------------------
// Characters
// ---------------------------------------------------------------------------
pub open spec fn is_lower(c: char) -> bool {
    'a' as u32 <= c as u32 <= 'z' as u32
}

pub open spec fn is_upper(c: char) -> bool {
    'A' as u32 <= c as u32 <= 'Z' as u32
}

pub open spec fn is_digit(c: char) -> bool {
    '0' as u32 <= c as u32 <= '9' as u32
}

pub open spec fn is_letter(c: char) -> bool {
    is_lower(c) || is_upper(c)
}

/// The ASCII lowercase letter of an ASCII uppercase letter; any other
/// character as it is.
pub open spec fn lower(c: char) -> char {
    if is_upper(c) {
        ((c as u8) + 32) as u8 as char
    } else {
        c
    }
}

/// The ASCII uppercase letter of an ASCII lowercase letter; any other
/// character as it is.
pub open spec fn upper(c: char) -> char {
    if is_lower(c) {
        ((c as u8) - 32) as u8 as char
    } else {
        c
    }
}

pub fn is_lower_char(c: char) -> (r: bool)
    ensures
        r == is_lower(c),
{
    'a' as u32 <= c as u32 && c as u32 <= 'z' as u32
}

pub fn is_upper_char(c: char) -> (r: bool)
    ensures
        r == is_upper(c),
{
    'A' as u32 <= c as u32 && c as u32 <= 'Z' as u32
}

pub fn is_digit_char(c: char) -> (r: bool)
    ensures
        r == is_digit(c),
{
    '0' as u32 <= c as u32 && c as u32 <= '9' as u32
}

pub fn lower_char(c: char) -> (r: char)
    ensures
        r == lower(c),
{
    if is_upper_char(c) {
        (c as u8 + 32) as char
    } else {
        c
    }
}

pub fn upper_char(c: char) -> (r: char)
    ensures
        r == upper(c),
{
    if is_lower_char(c) {
        (c as u8 - 32) as char
    } else {
        c
    }
}

// ---------------------------------------------------------------------------
// Whole strings
// ---------------------------------------------------------------------------
pub fn same(a: &str, b: &str) -> (r: bool)
    ensures
        r == (a@ == b@),
{
    *a == *b
}

/// The views of a list of strings.
pub open spec fn texts(v: Seq<String>) -> Seq<Seq<char>> {
    v.map_values(|s: String| s@)
}

/// The characters of a string slice.
pub fn chars_of(s: &str) -> (r: Vec<char>)
    ensures
        r@ == s@,
{
    let mut out: Vec<char> = Vec::new();
    for c in it: s.chars()
        invariant
            out@ == it.seq().take(it.index()),
            it.seq() == s@,
    {
        out.push(c);
        proof {
            assert(it.seq().take(it.index() + 1) =~= it.seq().take(it.index()).push(c));
        }
    }
    proof {
        assert(s@.take(s@.len() as int) =~= s@);
    }
    out
}

/// The text without its last character.
pub open spec fn without_last(s: Seq<char>) -> Seq<char> {
    if s.len() == 0 {
        s
    } else {
        s.drop_last()
    }
}

/// The text without its last character.
pub fn text_without_last(s: &str) -> (r: String)
    ensures
        r@ == without_last(s@),
{
    let chars = chars_of(s);
    let mut out = String::new();
    let n: usize = chars.len();
    if n == 0 {
        proof {
            assert(out@ =~= s@);
        }
        return out;
    }
    let mut i: usize = 0;
    while i < n - 1
        invariant
            chars@ == s@,
            n == chars@.len(),
            i < n,
            out@ == s@.take(i as int),
        decreases n - i,
    {
        out.push(chars[i]);
        proof {
            assert(s@.take(i as int).push(s@[i as int]) =~= s@.take(i + 1));
        }
        i += 1;
    }
    proof {
        assert(s@.take(i as int) =~= s@.drop_last());
    }
    out
}

/// A copy of the list, string by string.
pub fn copy_texts(v: &Vec<String>) -> (r: Vec<String>)
    ensures
        texts(r@) == texts(v@),
        r@.len() == v@.len(),
{
    let mut out: Vec<String> = Vec::new();
    let mut i: usize = 0;
    while i < v.len()
        invariant
            i <= v@.len(),
            out@.len() == i,
            forall|j: int| 0 <= j < i ==> (#[trigger] out@[j])@ == v@[j]@,
        decreases v@.len() - i,
    {
        out.push(v[i].clone());
        i += 1;
    }
    proof {
        assert(texts(out@) =~= texts(v@));
    }
    out
}

/// Appends copies of the strings of `more`.
pub fn append_texts(list: &mut Vec<String>, more: &Vec<String>)
    ensures
        texts(final(list)@) == texts(old(list)@) + texts(more@),
{
    let ghost before = list@;
    let mut i: usize = 0;
    while i < more.len()
        invariant
            i <= more@.len(),
            list@.len() == before.len() + i,
            forall|j: int| 0 <= j < before.len() ==> #[trigger] list@[j] == before[j],
            forall|j: int| 0 <= j < i ==> (#[trigger] list@[before.len() + j])@ == more@[j]@,
        decreases more@.len() - i,
    {
        let ghost prior = list@;
        list.push(more[i].clone());
        i += 1;
        proof {
            assert forall|j: int| 0 <= j < i implies (#[trigger] list@[before.len() + j])@
                == more@[j]@ by {
                if j < i - 1 {
                    assert(list@[before.len() + j] == prior[before.len() + j]);
                }
            }
        }
    }
    proof {
        assert forall|j: int| 0 <= j < list@.len() implies (#[trigger] texts(list@)[j]) == (texts(
            before,
        ) + texts(more@))[j] by {
            if j >= before.len() {
                let k = j - before.len();
                assert(list@[before.len() + k]@ == more@[k]@);
            }
        }
        assert(texts(list@) =~= texts(before) + texts(more@));
    }
}

/// Whether a list of strings holds the text `s`.
pub fn list_contains(list: &Vec<String>, s: &str) -> (r: bool)
    ensures
        r == texts(list@).contains(s@),
{
    let mut i: usize = 0;
    while i < list.len()
        invariant
            i <= list@.len(),
            forall|j: int| 0 <= j < i ==> (#[trigger] list@[j])@ != s@,
        decreases list@.len() - i,
    {
        if same(list[i].as_str(), s) {
            proof {
                assert(texts(list@)[i as int] == s@);
            }
            return true;
        }
        i += 1;
    }
    proof {
        assert forall|j: int| 0 <= j < texts(list@).len() implies texts(list@)[j] != s@ by {
            assert(list@[j]@ != s@);
        }
    }
    false
}

// ---------------------------------------------------------------------------
// Prefixes, suffixes, substrings
// ---------------------------------------------------------------------------
/// Whether `p` stands at position `i` of `s`.
pub open spec fn stands_at(s: Seq<char>, p: Seq<char>, i: int) -> bool {
    0 <= i && i + p.len() <= s.len() && s.subrange(i, i + p.len()) == p
}

pub open spec fn starts_with(s: Seq<char>, p: Seq<char>) -> bool {
    stands_at(s, p, 0)
}

pub open spec fn ends_with(s: Seq<char>, p: Seq<char>) -> bool {
    stands_at(s, p, s.len() - p.len())
}

pub open spec fn contains_text(s: Seq<char>, p: Seq<char>) -> bool {
    exists|i: int| stands_at(s, p, i)
}

/// Whether the characters of `p` stand in `s` from position `i` on.
pub fn chars_stand_at(s: &Vec<char>, p: &Vec<char>, i: usize) -> (r: bool)
    ensures
        r == stands_at(s@, p@, i as int),
{
    if i > s.len() || p.len() > s.len() - i {
        return false;
    }
    let mut k: usize = 0;
    while k < p.len()
        invariant
            k <= p@.len(),
            i + p@.len() <= s.len(),
            forall|j: int| 0 <= j < k ==> s@[i + j] == #[trigger] p@[j],
        decreases p@.len() - k,
    {
        if s[i + k] != p[k] {
            proof {
                assert(s@.subrange(i as int, i + p@.len())[k as int] != p@[k as int]);
            }
            return false;
        }
        k += 1;
    }
    proof {
        assert(s@.subrange(i as int, i + p@.len()) =~= p@);
    }
    true
}

pub fn text_starts_with(s: &str, p: &str) -> (r: bool)
    ensures
        r == starts_with(s@, p@),
{
    chars_stand_at(&chars_of(s), &chars_of(p), 0)
}

pub fn text_ends_with(s: &str, p: &str) -> (r: bool)
    ensures
        r == ends_with(s@, p@),
{
    let cs = chars_of(s);
    let ps = chars_of(p);
    if ps.len() > cs.len() {
        return false;
    }
    chars_stand_at(&cs, &ps, cs.len() - ps.len())
}

pub fn text_contains(s: &str, p: &str) -> (r: bool)
    ensures
        r == contains_text(s@, p@),
{
    let cs = chars_of(s);
    let ps = chars_of(p);
    let mut i: usize = 0;
    while i < cs.len()
        invariant
            i <= cs@.len(),
            cs@ == s@,
            ps@ == p@,
            forall|j: int| 0 <= j < i ==> !stands_at(s@, p@, j),
        decreases cs@.len() - i,
    {
        if chars_stand_at(&cs, &ps, i) {
            return true;
        }
        i += 1;
    }
    let at_end = chars_stand_at(&cs, &ps, i);
    proof {
        if contains_text(s@, p@) && !at_end {
            let j = choose|j: int| stands_at(s@, p@, j);
            assert(!stands_at(s@, p@, j));
        }
    }
    at_end
}

/// The text behind the prefix `p`, where `s` starts with it.
pub open spec fn strip_prefix(s: Seq<char>, p: Seq<char>) -> Option<Seq<char>> {
    if starts_with(s, p) {
        Some(s.skip(p.len() as int))
    } else {
        None
    }
}

/// The text before the suffix `p`, where `s` ends with it.
pub open spec fn strip_suffix(s: Seq<char>, p: Seq<char>) -> Option<Seq<char>> {
    if ends_with(s, p) {
        Some(s.take(s.len() - p.len()))
    } else {
        None
    }
}

/// The view of an optional string.
pub open spec fn text_option(o: Option<String>) -> Option<Seq<char>> {
    match o {
        Some(s) => Some(s@),
        None => None,
    }
}

pub open spec fn slice_option(o: Option<&str>) -> Option<Seq<char>> {
    match o {
        Some(s) => Some(s@),
        None => None,
    }
}

pub fn copy_text_option(o: &Option<String>) -> (r: Option<String>)
    ensures
        text_option(r) == text_option(*o),
{
    match o {
        Some(s) => Some(s.clone()),
        None => None,
    }
}

pub fn text_strip_prefix<'a>(s: &'a str, p: &str) -> (r: Option<&'a str>)
    ensures
        slice_option(r) == strip_prefix(s@, p@),
{
    if text_starts_with(s, p) {
        Some(s.substring_char(p.unicode_len(), s.unicode_len()))
    } else {
        None
    }
}

pub fn text_strip_suffix<'a>(s: &'a str, p: &str) -> (r: Option<&'a str>)
    ensures
        slice_option(r) == strip_suffix(s@, p@),
{
    if text_ends_with(s, p) {
        Some(s.substring_char(0, s.unicode_len() - p.unicode_len()))
    } else {
        None
    }
}

// ---------------------------------------------------------------------------
// Trimming
// ---------------------------------------------------------------------------
pub open spec fn trim_start(s: Seq<char>) -> Seq<char>
    decreases s.len(),
{
    if s.len() > 0 && white_space(s[0]) {
        trim_start(s.skip(1))
    } else {
        s
    }
}

pub open spec fn trim_end(s: Seq<char>) -> Seq<char>
    decreases s.len(),
{
    if s.len() > 0 && white_space(s[s.len() - 1]) {
        trim_end(s.take(s.len() - 1))
    } else {
        s
    }
}

pub open spec fn trim(s: Seq<char>) -> Seq<char> {
    trim_end(trim_start(s))
}

pub fn text_trim_start<'a>(s: &'a str) -> (r: &'a str)
    ensures
        r@ == trim_start(s@),
{
    let cs = chars_of(s);
    let mut i: usize = 0;
    proof {
        assert(s@.skip(0) =~= s@);
    }
    while i < cs.len() && cs[i].is_whitespace()
        invariant
            i <= cs@.len(),
            cs@ == s@,
            trim_start(s@) == trim_start(s@.skip(i as int)),
        decreases cs@.len() - i,
    {
        proof {
            assert(s@.skip(i as int).skip(1) =~= s@.skip(i + 1));
        }
        i += 1;
    }
    s.substring_char(i, cs.len())
}

pub fn text_trim_end<'a>(s: &'a str) -> (r: &'a str)
    ensures
        r@ == trim_end(s@),
{
    let cs = chars_of(s);
    let mut n: usize = cs.len();
    proof {
        assert(s@.take(s@.len() as int) =~= s@);
    }
    while n > 0 && cs[n - 1].is_whitespace()
        invariant
            n <= cs@.len(),
            cs@ == s@,
            trim_end(s@) == trim_end(s@.take(n as int)),
        decreases n,
    {
        proof {
            assert(s@.take(n as int).take(n - 1) =~= s@.take(n - 1));
        }
        n -= 1;
    }
    s.substring_char(0, n)
}

pub fn text_trim<'a>(s: &'a str) -> (r: &'a str)
    ensures
        r@ == trim(s@),
{
    text_trim_end(text_trim_start(s))
}

/// `s` without any number of leading characters `c`.
pub open spec fn trim_start_char(s: Seq<char>, c: char) -> Seq<char>
    decreases s.len(),
{
    if s.len() > 0 && s[0] == c {
        trim_start_char(s.skip(1), c)
    } else {
        s
    }
}

pub fn text_trim_start_char<'a>(s: &'a str, c: char) -> (r: &'a str)
    ensures
        r@ == trim_start_char(s@, c),
{
    let cs = chars_of(s);
    let mut i: usize = 0;
    proof {
        assert(s@.skip(0) =~= s@);
    }
    while i < cs.len() && cs[i] == c
        invariant
            i <= cs@.len(),
            cs@ == s@,
            trim_start_char(s@, c) == trim_start_char(s@.skip(i as int), c),
        decreases cs@.len() - i,
    {
        proof {
            assert(s@.skip(i as int).skip(1) =~= s@.skip(i + 1));
        }
        i += 1;
    }
    s.substring_char(i, cs.len())
}

/// `s` without any number of trailing copies of the non-empty text `p`.
pub open spec fn trim_end_text(s: Seq<char>, p: Seq<char>) -> Seq<char>
    decreases s.len(),
{
    if p.len() > 0 && ends_with(s, p) {
        trim_end_text(s.take(s.len() - p.len()), p)
    } else {
        s
    }
}

pub fn text_trim_end_text<'a>(s: &'a str, p: &str) -> (r: &'a str)
    requires
        p@.len() > 0,
    ensures
        r@ == trim_end_text(s@, p@),
    decreases s@.len(),
{
    match text_strip_suffix(s, p) {
        Some(rest) => text_trim_end_text(rest, p),
        None => s,
    }
}

// ---------------------------------------------------------------------------
// Splitting and joining
// ---------------------------------------------------------------------------
/// The pieces of `s` between the characters `c`: one piece more than there are
/// such characters.
pub open spec fn split_on(s: Seq<char>, c: char) -> Seq<Seq<char>>
    decreases s.len(),
{
    if s.len() == 0 {
        seq![Seq::empty()]
    } else {
        let before = split_on(s.drop_last(), c);
        if s.last() == c {
            before.push(Seq::empty())
        } else {
            before.drop_last().push(before.last().push(s.last()))
        }
    }
}

pub fn text_split(s: &str, c: char) -> (r: Vec<String>)
    ensures
        texts(r@) == split_on(s@, c),
        r@.len() > 0,
{
    let cs = chars_of(s);
    let mut out: Vec<String> = Vec::new();
    let mut piece = String::new();
    let mut i: usize = 0;
    proof {
        assert(texts(out@).push(piece@) =~= split_on(s@.take(0), c));
    }
    while i < cs.len()
        invariant
            i <= cs@.len(),
            cs@ == s@,
            texts(out@).push(piece@) == split_on(s@.take(i as int), c),
        decreases cs@.len() - i,
    {
        let ghost prior = out@;
        let ghost prior_piece = piece@;
        proof {
            assert(s@.take(i + 1).drop_last() =~= s@.take(i as int));
            assert(texts(prior).push(prior_piece).drop_last() =~= texts(prior));
        }
        if cs[i] == c {
            out.push(piece);
            piece = String::new();
            proof {
                assert(texts(out@) =~= texts(prior).push(prior_piece));
                assert(texts(out@).push(piece@) =~= split_on(s@.take(i + 1), c));
            }
        } else {
            piece.push(cs[i]);
        }
        i += 1;
    }
    let ghost prior = out@;
    let ghost last = piece@;
    out.push(piece);
    proof {
        assert(s@.take(s@.len() as int) =~= s@);
        assert(texts(out@) =~= texts(prior).push(last));
    }
    out
}

/// The texts of `parts` with `sep` between each two.
pub open spec fn join(parts: Seq<Seq<char>>, sep: Seq<char>) -> Seq<char>
    decreases parts.len(),
{
    if parts.len() == 0 {
        Seq::empty()
    } else if parts.len() == 1 {
        parts[0]
    } else {
        join(parts.drop_last(), sep) + sep + parts.last()
    }
}

pub fn join_texts(parts: &Vec<String>, sep: &str) -> (r: String)
    ensures
        r@ == join(texts(parts@), sep@),
{
    let mut out = String::new();
    let mut i: usize = 0;
    proof {
        assert(texts(parts@).take(0) =~= Seq::<Seq<char>>::empty());
    }
    while i < parts.len()
        invariant
            i <= parts@.len(),
            out@ == join(texts(parts@).take(i as int), sep@),
        decreases parts@.len() - i,
    {
        proof {
            assert(texts(parts@).take(i + 1).drop_last() =~= texts(parts@).take(i as int));
        }
        if i > 0 {
            out.push_str(sep);
            out.push_str(parts[i].as_str());
        } else {
            out = parts[i].clone();
        }
        i += 1;
    }
    proof {
        assert(texts(parts@).take(parts@.len() as int) =~= texts(parts@));
    }
    out
}

/// The maximal runs of characters without white space, in order.
pub open spec fn words(s: Seq<char>) -> Seq<Seq<char>>
    decreases s.len(),
{
    if s.len() == 0 {
        Seq::empty()
    } else if white_space(s.last()) {
        words(s.drop_last())
    } else if s.len() == 1 || white_space(s[s.len() - 2]) {
        words(s.drop_last()).push(seq![s.last()])
    } else {
        let before = words(s.drop_last());
        before.drop_last().push(before.last().push(s.last()))
    }
}

pub fn text_words(s: &str) -> (r: Vec<String>)
    ensures
        texts(r@) == words(s@),
{
    let cs = chars_of(s);
    let mut out: Vec<String> = Vec::new();
    let mut i: usize = 0;
    let mut inside = false;
    let mut word = String::new();
    proof {
        assert(texts(out@) =~= words(s@.take(0)));
    }
    while i < cs.len()
        invariant
            i <= cs@.len(),
            cs@ == s@,
            inside == (i > 0 && !white_space(s@[i - 1])),
            inside ==> texts(out@).push(word@) == words(s@.take(i as int)),
            !inside ==> texts(out@) == words(s@.take(i as int)) && word@.len() == 0,
        decreases cs@.len() - i,
    {
        let ghost prior = out@;
        let ghost prior_word = word@;
        proof {
            assert(s@.take(i + 1).drop_last() =~= s@.take(i as int));
            assert(texts(prior).push(prior_word).drop_last() =~= texts(prior));
        }
        if cs[i].is_whitespace() {
            if inside {
                out.push(word);
                word = String::new();
                proof {
                    assert(texts(out@) =~= texts(prior).push(prior_word));
                }
            }
            inside = false;
        } else {
            word.push(cs[i]);
            proof {
                if !inside {
                    assert(word@ =~= seq![s@[i as int]]);
                }
            }
            inside = true;
        }
        i += 1;
    }
    proof {
        assert(s@.take(s@.len() as int) =~= s@);
    }
    if inside {
        let ghost prior = out@;
        let ghost last = word@;
        out.push(word);
        proof {
            assert(texts(out@) =~= texts(prior).push(last));
        }
    }
    out
}

/// The text before and the text behind the first character `c`.
pub open spec fn split_once(s: Seq<char>, c: char) -> Option<(Seq<char>, Seq<char>)>
    decreases s.len(),
{
    if s.contains(c) {
        let i = s.index_of_first(c)->Some_0;
        Some((s.take(i), s.skip(i + 1)))
    } else {
        None
    }
}

pub fn text_split_once<'a>(s: &'a str, c: char) -> (r: Option<(&'a str, &'a str)>)
    ensures
        match r {
            Some(p) => split_once(s@, c) == Some((p.0@, p.1@)),
            None => split_once(s@, c) is None,
        },
{
    let cs = chars_of(s);
    let mut i: usize = 0;
    while i < cs.len()
        invariant
            i <= cs@.len(),
            cs@ == s@,
            forall|j: int| 0 <= j < i ==> s@[j] != c,
        decreases cs@.len() - i,
    {
        if cs[i] == c {
            let head = s.substring_char(0, i);
            let tail = s.substring_char(i + 1, cs.len());
            proof {
                s@.index_of_first_ensures(c);
                let k = s@.index_of_first(c)->Some_0;
                assert(s@[i as int] == c);
                assert(s@.contains(c));
                assert(k == i);
            }
            return Some((head, tail));
        }
        i += 1;
    }
    None
}

// ---------------------------------------------------------------------------
// Replacing and mapping
// ---------------------------------------------------------------------------
/// `s` with each occurrence of the non-empty text `p`, found from the left
/// without overlap, replaced by `q`.
pub open spec fn replace(s: Seq<char>, p: Seq<char>, q: Seq<char>) -> Seq<char>
    decreases s.len(),
{
    if s.len() == 0 || p.len() == 0 {
        s
    } else if starts_with(s, p) {
        q + replace(s.skip(p.len() as int), p, q)
    } else {
        seq![s[0]] + replace(s.skip(1), p, q)
    }
}

pub fn text_replace(s: &str, p: &str, q: &str) -> (r: String)
    requires
        p@.len() > 0,
    ensures
        r@ == replace(s@, p@, q@),
{
    let cs = chars_of(s);
    let ps = chars_of(p);
    let mut out = String::new();
    let mut i: usize = 0;
    proof {
        assert(s@.skip(0) =~= s@);
    }
    while i < cs.len()
        invariant
            i <= cs@.len(),
            cs@ == s@,
            ps@ == p@,
            p@.len() > 0,
            out@ + replace(s@.skip(i as int), p@, q@) =~= replace(s@, p@, q@),
        decreases cs@.len() - i,
    {
        let ghost rest = s@.skip(i as int);
        let found = chars_stand_at(&cs, &ps, i);
        proof {
            if found {
                assert(rest.subrange(0, p@.len() as int) =~= s@.subrange(i as int, i + p@.len()));
                assert(rest.skip(p@.len() as int) =~= s@.skip(i + p@.len()));
            } else {
                if starts_with(rest, p@) {
                    assert(rest.subrange(0, p@.len() as int) =~= s@.subrange(
                        i as int,
                        i + p@.len(),
                    ));
                }
                assert(rest.skip(1) =~= s@.skip(i + 1));
            }
        }
        if found {
            out.push_str(q);
            i += ps.len();
        } else {
            out.push(cs[i]);
            i += 1;
        }
    }
    out
}

/// `s` with each character `c` replaced by `d`.
pub open spec fn replace_char(s: Seq<char>, c: char, d: char) -> Seq<char> {
    s.map_values(|x: char| if x == c { d } else { x })
}

pub fn text_replace_char(s: &str, c: char, d: char) -> (r: String)
    ensures
        r@ == replace_char(s@, c, d),
{
    let cs = chars_of(s);
    let mut out = String::new();
    let mut i: usize = 0;
    while i < cs.len()
        invariant
            i <= cs@.len(),
            cs@ == s@,
            out@ =~= replace_char(s@.take(i as int), c, d),
        decreases cs@.len() - i,
    {
        if cs[i] == c {
            out.push(d);
        } else {
            out.push(cs[i]);
        }
        i += 1;
    }
    proof {
        assert(s@.take(s@.len() as int) =~= s@);
    }
    out
}

/// Every ASCII uppercase letter in lower case.
pub open spec fn lower_text(s: Seq<char>) -> Seq<char> {
    s.map_values(|c: char| lower(c))
}

pub fn text_lower(s: &str) -> (r: String)
    ensures
        r@ == lower_text(s@),
{
    let cs = chars_of(s);
    let mut out = String::new();
    let mut i: usize = 0;
    while i < cs.len()
        invariant
            i <= cs@.len(),
            cs@ == s@,
            out@ =~= lower_text(s@.take(i as int)),
        decreases cs@.len() - i,
    {
        out.push(lower_char(cs[i]));
        i += 1;
    }
    proof {
        assert(s@.take(s@.len() as int) =~= s@);
    }
    out
}

/// `n` copies of the character `c`.
pub open spec fn repeated(c: char, n: nat) -> Seq<char> {
    Seq::new(n, |i: int| c)
}

pub fn repeat_char(c: char, n: usize) -> (r: String)
    ensures
        r@ == repeated(c, n as nat),
{
    let mut out = String::new();
    let mut i: usize = 0;
    while i < n
        invariant
            i <= n,
            out@ =~= repeated(c, i as nat),
        decreases n - i,
    {
        out.push(c);
        i += 1;
    }
    out
}

/// `s` filled up with blanks on the right to at least `width` characters.
pub open spec fn pad_right(s: Seq<char>, width: nat) -> Seq<char> {
    if s.len() < width {
        s + repeated(' ', (width - s.len()) as nat)
    } else {
        s
    }
}

pub fn text_pad_right(s: &str, width: usize) -> (r: String)
    ensures
        r@ == pad_right(s@, width as nat),
{
    let n: usize = s.unicode_len();
    let mut out = s.to_owned();
    if n < width {
        out.push_str(repeat_char(' ', width - n).as_str());
    }
    out
}

// ---------------------------------------------------------------------------
// Numbers
// ---------------------------------------------------------------------------
pub open spec fn digit(d: nat) -> char {
    (48 + d) as u8 as char
}

/// The decimal digits of `n`, without leading zeros.
pub open spec fn decimal(n: nat) -> Seq<char>
    decreases n,
{
    if n < 10 {
        seq![digit(n)]
    } else {
        decimal(n / 10).push(digit(n % 10))
    }
}

pub fn decimal_text(n: u128) -> (r: String)
    ensures
        r@ == decimal(n as nat),
    decreases n,
{
    let d: u8 = (n % 10) as u8;
    if n < 10 {
        let mut out = String::new();
        out.push((48 + d) as char);
        proof {
            assert(out@ =~= decimal(n as nat));
        }
        out
    } else {
        let mut out = decimal_text(n / 10);
        out.push((48 + d) as char);
        out
    }
}

/// The digit of value `d` in upper-case hexadecimal.
pub open spec fn hex_digit(d: nat) -> char {
    if d < 10 {
        (48 + d) as u8 as char
    } else {
        (55 + d) as u8 as char
    }
}

/// `n` as four upper-case hexadecimal digits.
pub open spec fn hex4(n: u16) -> Seq<char> {
    seq![
        hex_digit(n as nat / 4096),
        hex_digit(n as nat / 256 % 16),
        hex_digit(n as nat / 16 % 16),
        hex_digit(n as nat % 16),
    ]
}

fn hex_digit_char(d: u16) -> (r: char)
    requires
        d < 16,
    ensures
        r == hex_digit(d as nat),
{
    if d < 10 {
        (48 + d as u8) as char
    } else {
        (55 + d as u8) as char
    }
}

pub fn hex4_text(n: u16) -> (r: String)
    ensures
        r@ == hex4(n),
{
    let mut out = String::new();
    out.push(hex_digit_char(n / 4096));
    out.push(hex_digit_char(n / 256 % 16));
    out.push(hex_digit_char(n / 16 % 16));
    out.push(hex_digit_char(n % 16));
    proof {
        assert(out@ =~= hex4(n));
    }
    out
}

} // verus!
