//! Text-shaping helpers used when projecting state onto the screen: title
//! shortening, colour-code parsing, and diff-line classification.

use vstd::prelude::*;

use crate::strutil::is_prefix_of;

verus! {

/// `s` shortened to at most `max` characters, ending in an ellipsis when
/// something was cut; `max` of zero leaves only the ellipsis.
pub open spec fn ellipsized(s: Seq<char>, max: nat) -> Seq<char> {
    if s.len() <= max {
        s
    } else if max == 0 {
        seq!['…']
    } else {
        s.take(max - 1) + seq!['…']
    }
}

/// Shortens `s` to at most `max` characters, ellipsis included.
pub fn ellipsize(s: &str, max: usize) -> (r: String)
    ensures
        r@ == ellipsized(s@, max as nat),
{
    let len = s.unicode_len();
    if len <= max {
        return s.to_owned();
    }
    let keep = if max == 0 {
        0
    } else {
        max - 1
    };
    let mut r = s.substring_char(0, keep).to_owned();
    r.append("…");
    proof {
        reveal_strlit("…");
        if max == 0 {
            assert(r@ =~= seq!['…']);
        } else {
            assert(r@ =~= s@.take(max - 1) + seq!['…']);
        }
    }
    r
}

/// Numeric value of one hexadecimal digit; 16 for other characters.
pub open spec fn hex_digit_val(c: char) -> nat {
    let u = c as u32;
    if '0' as u32 <= u <= '9' as u32 {
        (u - '0' as u32) as nat
    } else if 'a' as u32 <= u <= 'f' as u32 {
        (u - 'a' as u32 + 10) as nat
    } else if 'A' as u32 <= u <= 'F' as u32 {
        (u - 'A' as u32 + 10) as nat
    } else {
        16
    }
}

/// Value of a two-digit hexadecimal pair; 0 when either digit is invalid,
/// mirroring a parse that falls back to zero.
pub open spec fn hex_pair_val(hi: char, lo: char) -> nat {
    if hex_digit_val(hi) < 16 && hex_digit_val(lo) < 16 {
        16 * hex_digit_val(hi) + hex_digit_val(lo)
    } else {
        0
    }
}

/// `s` without its leading `#` characters.
pub open spec fn strip_hash_marks(s: Seq<char>) -> Seq<char>
    decreases s.len(),
{
    if s.len() > 0 && s[0] == '#' {
        strip_hash_marks(s.drop_first())
    } else {
        s
    }
}

/// The red, green and blue components encoded by a `#rrggbb` colour string;
/// black when the string is too short, and zero for any malformed component.
pub open spec fn rgb_of(s: Seq<char>) -> (nat, nat, nat) {
    let h = strip_hash_marks(s);
    if h.len() < 6 {
        (0, 0, 0)
    } else {
        (hex_pair_val(h[0], h[1]), hex_pair_val(h[2], h[3]), hex_pair_val(h[4], h[5]))
    }
}

proof fn lemma_strip_hash_scan(s: Seq<char>, i: int)
    requires
        0 <= i <= s.len(),
        forall|j: int| 0 <= j < i ==> s[j] == '#',
        i < s.len() ==> s[i] != '#',
    ensures
        strip_hash_marks(s) == s.subrange(i, s.len() as int),
    decreases s.len(),
{
    if s.len() > 0 && s[0] == '#' {
        assert(forall|j: int| 0 <= j < i - 1 ==> s.drop_first()[j] == s[j + 1] && s[j + 1] == '#');
        lemma_strip_hash_scan(s.drop_first(), i - 1);
        assert(s.drop_first().subrange(i - 1, s.drop_first().len() as int) =~= s.subrange(
            i,
            s.len() as int,
        ));
    } else {
        assert(i == 0);
        assert(s.subrange(0, s.len() as int) =~= s);
    }
}

fn hex_digit(c: char) -> (v: u32)
    ensures
        v == hex_digit_val(c),
{
    let u = c as u32;
    if u >= '0' as u32 && u <= '9' as u32 {
        u - '0' as u32
    } else if u >= 'a' as u32 && u <= 'f' as u32 {
        u - 'a' as u32 + 10
    } else if u >= 'A' as u32 && u <= 'F' as u32 {
        u - 'A' as u32 + 10
    } else {
        16
    }
}

fn hex_pair(hi: char, lo: char) -> (v: u8)
    ensures
        v == hex_pair_val(hi, lo),
{
    let h = hex_digit(hi);
    let l = hex_digit(lo);
    if h < 16 && l < 16 {
        (16 * h + l) as u8
    } else {
        0
    }
}

/// Parses a `#rrggbb` colour string into its components, falling back to
/// black when the string is malformed.
pub fn hex_to_rgb(s: &str) -> (r: (u8, u8, u8))
    ensures
        (r.0 as nat, r.1 as nat, r.2 as nat) == rgb_of(s@),
{
    let len = s.unicode_len();
    let mut i: usize = 0;
    while i < len && s.get_char(i) == '#'
        invariant
            i <= len,
            len == s@.len(),
            forall|j: int| 0 <= j < i ==> s@[j] == '#',
        decreases len - i,
    {
        i += 1;
    }
    proof {
        lemma_strip_hash_scan(s@, i as int);
    }
    if len - i < 6 {
        return (0, 0, 0);
    }
    let red = hex_pair(s.get_char(i), s.get_char(i + 1));
    let green = hex_pair(s.get_char(i + 2), s.get_char(i + 3));
    let blue = hex_pair(s.get_char(i + 4), s.get_char(i + 5));
    (red, green, blue)
}

/// How one line of a unified diff should be highlighted.
#[derive(Debug, Clone, Copy, PartialEq, Eq, Structural)]
pub enum DiffLineKind {
    FileHeader,
    HunkHeader,
    Added,
    Removed,
    Context,
}

/// Classification of a diff line by its leading characters, first match
/// winning: `===` marks a file header, `@@` a hunk header, `+` an addition,
/// `-` a removal, anything else context.
pub open spec fn diff_line_kind_of(s: Seq<char>) -> DiffLineKind {
    if is_prefix_of("==="@, s) {
        DiffLineKind::FileHeader
    } else if is_prefix_of("@@"@, s) {
        DiffLineKind::HunkHeader
    } else if is_prefix_of("+"@, s) {
        DiffLineKind::Added
    } else if is_prefix_of("-"@, s) {
        DiffLineKind::Removed
    } else {
        DiffLineKind::Context
    }
}

/// Classifies one line of a rendered diff for highlighting.
pub fn classify_diff_line(line: &str) -> (r: DiffLineKind)
    ensures
        r == diff_line_kind_of(line@),
{
    if crate::strutil::str_starts_with(line, "===") {
        DiffLineKind::FileHeader
    } else if crate::strutil::str_starts_with(line, "@@") {
        DiffLineKind::HunkHeader
    } else if crate::strutil::str_starts_with(line, "+") {
        DiffLineKind::Added
    } else if crate::strutil::str_starts_with(line, "-") {
        DiffLineKind::Removed
    } else {
        DiffLineKind::Context
    }
}

} // verus!
