//! Patterns of paths: `?` and `*` within a component, `**` across components.

use crate::text::{same, text_split, split_on, texts};
use vstd::prelude::*;
use vstd::string::*;
use vstd::utf8::encode_utf8;

verus! {

/// The ASCII lowercase letter of an ASCII uppercase letter, any other byte as
/// it is.
pub open spec fn lower_byte(b: u8) -> u8 {
    if 0x41 <= b <= 0x5a {
        (b + 32) as u8
    } else {
        b
    }
}

fn lowered(b: u8) -> (r: u8)
    ensures
        r == lower_byte(b),
{
    if 0x41 <= b && b <= 0x5a {
        b + 32
    } else {
        b
    }
}

/// Whether one component matches one component pattern: `*` stands for any
/// bytes, `?` for any one byte, and every other byte for itself in either case
/// of an ASCII letter.
pub open spec fn component_matches(pattern: Seq<u8>, subject: Seq<u8>) -> bool
    decreases pattern.len(), subject.len(),
{
    if pattern.len() == 0 {
        subject.len() == 0
    } else if pattern[0] == 0x2a {
        ||| component_matches(pattern.skip(1), subject)
        ||| subject.len() > 0 && component_matches(pattern, subject.skip(1))
    } else {
        &&& subject.len() > 0
        &&& pattern[0] == 0x3f || lower_byte(pattern[0]) == lower_byte(subject[0])
        &&& component_matches(pattern.skip(1), subject.skip(1))
    }
}

/// A star stands for any bytes: what follows it matches some end of the
/// subject.
pub proof fn law_star_stands_for_any_bytes(pattern: Seq<u8>, subject: Seq<u8>)
    requires
        pattern.len() > 0,
        pattern[0] == 0x2a,
    ensures
        component_matches(pattern, subject) <==> exists|k: int|
            0 <= k <= subject.len() && component_matches(
                pattern.skip(1),
                #[trigger] subject.skip(k),
            ),
    decreases subject.len(),
{
    let rest = pattern.skip(1);
    assert(subject.skip(0) =~= subject);
    if subject.len() > 0 {
        law_star_stands_for_any_bytes(pattern, subject.skip(1));
        if component_matches(pattern, subject.skip(1)) {
            let k = choose|k: int|
                0 <= k <= subject.skip(1).len() && component_matches(
                    rest,
                    #[trigger] subject.skip(1).skip(k),
                );
            assert(subject.skip(1).skip(k) =~= subject.skip(k + 1));
        }
        if exists|k: int|
            0 <= k <= subject.len() && component_matches(rest, #[trigger] subject.skip(k)) {
            let k = choose|k: int|
                0 <= k <= subject.len() && component_matches(rest, #[trigger] subject.skip(k));
            if k > 0 {
                assert(subject.skip(1).skip(k - 1) =~= subject.skip(k));
            }
        }
    }
}

fn wildcard_match_from(pattern: &[u8], p: usize, subject: &[u8], s: usize) -> (r: bool)
    requires
        p <= pattern@.len(),
        s <= subject@.len(),
    ensures
        r == component_matches(pattern@.skip(p as int), subject@.skip(s as int)),
    decreases pattern@.len() - p, subject@.len() - s,
{
    let ghost ps = pattern@.skip(p as int);
    let ghost ss = subject@.skip(s as int);
    if p == pattern.len() {
        return s == subject.len();
    }
    proof {
        assert(ps.skip(1) =~= pattern@.skip(p + 1));
        if s < subject@.len() {
            assert(ss.skip(1) =~= subject@.skip(s + 1));
        }
    }
    if pattern[p] == 0x2a {
        wildcard_match_from(pattern, p + 1, subject, s) || (s < subject.len()
            && wildcard_match_from(pattern, p, subject, s + 1))
    } else {
        s < subject.len() && (pattern[p] == 0x3f || lowered(pattern[p]) == lowered(subject[s]))
            && wildcard_match_from(pattern, p + 1, subject, s + 1)
    }
}

/// Whether a pattern of one component matches it.
pub fn wildcard_match(pattern: &[u8], subject: &[u8]) -> (r: bool)
    ensures
        r == component_matches(pattern@, subject@),
{
    proof {
        assert(pattern@.skip(0) =~= pattern@);
        assert(subject@.skip(0) =~= subject@);
    }
    wildcard_match_from(pattern, 0, subject, 0)
}

/// Whether the components of a path match the components of a pattern: `**`
/// stands for any number of components, every other one for one component that
/// it matches.
pub open spec fn components_match(pattern: Seq<Seq<char>>, subject: Seq<Seq<char>>) -> bool
    decreases pattern.len(), subject.len(),
{
    if pattern.len() == 0 {
        subject.len() == 0
    } else if pattern[0] == "**"@ {
        ||| components_match(pattern.skip(1), subject)
        ||| subject.len() > 0 && components_match(pattern, subject.skip(1))
    } else {
        &&& subject.len() > 0
        &&& component_matches(encode_utf8(pattern[0]), encode_utf8(subject[0]))
        &&& components_match(pattern.skip(1), subject.skip(1))
    }
}

/// A double star stands for any number of components: what follows it matches
/// some end of the path.
pub proof fn law_double_star_stands_for_any_components(
    pattern: Seq<Seq<char>>,
    subject: Seq<Seq<char>>,
)
    requires
        pattern.len() > 0,
        pattern[0] == "**"@,
    ensures
        components_match(pattern, subject) <==> exists|k: int|
            0 <= k <= subject.len() && components_match(
                pattern.skip(1),
                #[trigger] subject.skip(k),
            ),
    decreases subject.len(),
{
    let rest = pattern.skip(1);
    assert(subject.skip(0) =~= subject);
    if subject.len() > 0 {
        law_double_star_stands_for_any_components(pattern, subject.skip(1));
        if components_match(pattern, subject.skip(1)) {
            let k = choose|k: int|
                0 <= k <= subject.skip(1).len() && components_match(
                    rest,
                    #[trigger] subject.skip(1).skip(k),
                );
            assert(subject.skip(1).skip(k) =~= subject.skip(k + 1));
        }
        if exists|k: int|
            0 <= k <= subject.len() && components_match(rest, #[trigger] subject.skip(k)) {
            let k = choose|k: int|
                0 <= k <= subject.len() && components_match(rest, #[trigger] subject.skip(k));
            if k > 0 {
                assert(subject.skip(1).skip(k - 1) =~= subject.skip(k));
            }
        }
    }
}

fn glob_parts_match_from(pattern: &Vec<String>, p: usize, subject: &Vec<String>, s: usize) -> (r:
    bool)
    requires
        p <= pattern@.len(),
        s <= subject@.len(),
    ensures
        r == components_match(texts(pattern@).skip(p as int), texts(subject@).skip(s as int)),
    decreases pattern@.len() - p, subject@.len() - s,
{
    let ghost ps = texts(pattern@).skip(p as int);
    let ghost ss = texts(subject@).skip(s as int);
    if p == pattern.len() {
        return s == subject.len();
    }
    proof {
        assert(ps.skip(1) =~= texts(pattern@).skip(p + 1));
        if s < subject@.len() {
            assert(ss.skip(1) =~= texts(subject@).skip(s + 1));
        }
    }
    if same(pattern[p].as_str(), "**") {
        glob_parts_match_from(pattern, p + 1, subject, s) || (s < subject.len()
            && glob_parts_match_from(pattern, p, subject, s + 1))
    } else {
        s < subject.len() && wildcard_match(
            pattern[p].as_str().as_bytes(),
            subject[s].as_str().as_bytes(),
        ) && glob_parts_match_from(pattern, p + 1, subject, s + 1)
    }
}

/// Whether the components of a pattern match those of a path.
pub fn glob_parts_match(pattern: &Vec<String>, subject: &Vec<String>) -> (r: bool)
    ensures
        r == components_match(texts(pattern@), texts(subject@)),
{
    proof {
        assert(texts(pattern@).skip(0) =~= texts(pattern@));
        assert(texts(subject@).skip(0) =~= texts(subject@));
    }
    glob_parts_match_from(pattern, 0, subject, 0)
}

/// Whether a path matches a pattern; both are written with forward slashes.
pub open spec fn path_matches(pattern: Seq<char>, subject: Seq<char>) -> bool {
    components_match(split_on(pattern, '/'), split_on(subject, '/'))
}

/// Whether a pattern matches a path.
pub fn glob_matches(pattern: &str, subject: &str) -> (r: bool)
    ensures
        r == path_matches(pattern@, subject@),
{
    glob_parts_match(&text_split(pattern, '/'), &text_split(subject, '/'))
}

/// Whether a target is a pattern rather than a path.
pub open spec fn is_pattern(text: Seq<char>) -> bool {
    text.contains('*') || text.contains('?')
}

/// Whether a text is a pattern.
pub fn contains_glob(text: &str) -> (r: bool)
    ensures
        r == is_pattern(text@),
{
    let cs = crate::text::chars_of(text);
    let mut i: usize = 0;
    while i < cs.len()
        invariant
            i <= cs@.len(),
            cs@ == text@,
            forall|j: int| 0 <= j < i ==> text@[j] != '*' && text@[j] != '?',
        decreases cs@.len() - i,
    {
        if cs[i] == '*' || cs[i] == '?' {
            proof {
                assert(text@[i as int] == cs@[i as int]);
            }
            return true;
        }
        i += 1;
    }
    false
}

/// A double star alone matches every path.
pub proof fn law_double_star_matches_everything(subject: Seq<char>)
    ensures
        path_matches("**"@, subject),
{
    reveal_strlit("**");
    let pattern = "**"@;
    reveal_with_fuel(split_on, 3);
    assert(pattern =~= seq!['*', '*']);
    assert(pattern.drop_last() =~= seq!['*']);
    assert(pattern.drop_last().drop_last() =~= Seq::<char>::empty());
    assert(split_on(Seq::empty(), '/') =~= seq![Seq::<char>::empty()]);
    assert(Seq::<char>::empty().push('*') =~= seq!['*']);
    assert(split_on(pattern.drop_last(), '/') =~= seq![seq!['*']]);
    assert(seq!['*'].push('*') =~= pattern);
    assert(split_on(pattern, '/') =~= seq![pattern]);
    let parts = split_on(subject, '/');
    assert(seq![pattern].skip(1) =~= Seq::<Seq<char>>::empty());
    assert(parts.skip(parts.len() as int) =~= Seq::<Seq<char>>::empty());
    law_double_star_stands_for_any_components(seq![pattern], parts);
    assert(components_match(seq![pattern].skip(1), parts.skip(parts.len() as int)));
}

/// Whether a component pattern has no wildcard.
pub open spec fn is_literal(pattern: Seq<u8>) -> bool {
    forall|i: int| 0 <= i < pattern.len() ==> #[trigger] pattern[i] != 0x2a && pattern[i] != 0x3f
}

/// A component pattern without wildcards matches the component that is spelled
/// like it, in either case of ASCII letters, and no other.
pub proof fn law_literal_matches_itself_only(pattern: Seq<u8>, subject: Seq<u8>)
    requires
        is_literal(pattern),
    ensures
        component_matches(pattern, subject) <==> (pattern.len() == subject.len() && forall|i: int|
            0 <= i < pattern.len() ==> lower_byte(#[trigger] pattern[i]) == lower_byte(subject[i])),
    decreases pattern.len(),
{
    if pattern.len() > 0 {
        assert(pattern[0] != 0x2a && pattern[0] != 0x3f);
        assert forall|i: int| 0 <= i < pattern.skip(1).len() implies #[trigger] pattern.skip(1)[i]
            != 0x2a && pattern.skip(1)[i] != 0x3f by {
            assert(pattern.skip(1)[i] == pattern[i + 1]);
        }
        if subject.len() > 0 {
            law_literal_matches_itself_only(pattern.skip(1), subject.skip(1));
            if component_matches(pattern, subject) {
                assert forall|i: int| 0 <= i < pattern.len() implies lower_byte(
                    #[trigger] pattern[i],
                ) == lower_byte(subject[i]) by {
                    if i > 0 {
                        assert(pattern.skip(1)[i - 1] == pattern[i]);
                        assert(subject.skip(1)[i - 1] == subject[i]);
                    }
                }
            }
            if pattern.len() == subject.len() && forall|i: int|
                0 <= i < pattern.len() ==> lower_byte(#[trigger] pattern[i]) == lower_byte(
                    subject[i],
                ) {
                assert(lower_byte(pattern[0]) == lower_byte(subject[0]));
                assert forall|i: int| 0 <= i < pattern.skip(1).len() implies lower_byte(
                    #[trigger] pattern.skip(1)[i],
                ) == lower_byte(subject.skip(1)[i]) by {
                    assert(pattern.skip(1)[i] == pattern[i + 1]);
                }
            }
        }
    }
}

/// Without a double star a pattern matches only paths with as many components
/// as it has: a star never reaches across a slash.
pub proof fn law_star_stays_within_component(pattern: Seq<Seq<char>>, subject: Seq<Seq<char>>)
    requires
        !pattern.contains("**"@),
        components_match(pattern, subject),
    ensures
        pattern.len() == subject.len(),
    decreases pattern.len(),
{
    if pattern.len() > 0 {
        assert(pattern.contains(pattern[0]));
        assert forall|i: int| 0 <= i < pattern.skip(1).len() implies pattern.skip(1)[i]
            != "**"@ by {
            assert(pattern.contains(pattern[i + 1]));
        }
        law_star_stays_within_component(pattern.skip(1), subject.skip(1));
    }
}

} // verus!
