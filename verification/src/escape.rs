use crate::text::chars_to_string;
use vstd::prelude::*;
use vstd::string::StrSliceExecFns;

verus! {

/// The lowercase form of an ASCII letter; every other character is unchanged.
pub open spec fn lower_char(c: char) -> char {
    if 'A' <= c && c <= 'Z' {
        ((c as u8) + 32) as char
    } else {
        c
    }
}

/// The characters that count as separators for distribution-name escaping.
/// Version escaping keeps `.` (so numeric dot-separated segments survive),
/// which the `dots` flag expresses.
pub open spec fn is_separator(c: char, dots: bool) -> bool {
    c == '-' || c == '_' || (dots && c == '.')
}

/// How a single kept character is rewritten: separators become `-`, letters
/// are lowercased.
pub open spec fn norm_char(c: char, dots: bool) -> char {
    if is_separator(c, dots) {
        '-'
    } else {
        lower_char(c)
    }
}

/// The canonical escaped form: lowercase, with every maximal run of
/// separators collapsed to a single `-`.
pub open spec fn escaped(s: Seq<char>, dots: bool) -> Seq<char>
    decreases s.len(),
{
    if s.len() == 0 {
        Seq::empty()
    } else if s.len() >= 2 && is_separator(s[0], dots) && is_separator(s[1], dots) {
        escaped(s.drop_first(), dots)
    } else {
        seq![norm_char(s[0], dots)] + escaped(s.drop_first(), dots)
    }
}

/// Distribution-name escaping: lowercase, runs of `-`, `_`, `.` collapsed to
/// one `-`.
pub open spec fn escaped_name(s: Seq<char>) -> Seq<char> {
    escaped(s, true)
}

/// Version escaping: lowercase, runs of `-` and `_` collapsed to one `-`;
/// `.` is preserved so dot-separated numeric segments stay intact.
pub open spec fn escaped_version(s: Seq<char>) -> Seq<char> {
    escaped(s, false)
}

fn is_separator_exec(c: char, dots: bool) -> (r: bool)
    ensures
        r == is_separator(c, dots),
{
    c == '-' || c == '_' || (dots && c == '.')
}

fn norm_char_exec(c: char, dots: bool) -> (r: char)
    ensures
        r == norm_char(c, dots),
{
    if is_separator_exec(c, dots) {
        '-'
    } else if 'A' <= c && c <= 'Z' {
        (c as u8 + 32) as char
    } else {
        c
    }
}

fn escape_chars(s: &str, dots: bool) -> (r: String)
    ensures
        r@ == escaped(s@, dots),
{
    let n = s.unicode_len();
    let mut out: Vec<char> = Vec::new();
    proof {
        assert(s@.skip(0) =~= s@);
        assert(out@ + escaped(s@.skip(0), dots) =~= escaped(s@, dots));
    }
    let mut i: usize = 0;
    while i < n
        invariant
            i <= n,
            n == s@.len(),
            out@ + escaped(s@.skip(i as int), dots) == escaped(s@, dots),
        decreases n - i,
    {
        let c = s.get_char(i);
        proof {
            crate::text::lemma_skip_step(s@, i as int);
            if i + 1 < n {
                crate::text::lemma_skip_step(s@, i + 1);
            }
        }
        if i + 1 < n && is_separator_exec(c, dots) && is_separator_exec(s.get_char(i + 1), dots) {
            proof {
                assert(escaped(s@.skip(i as int), dots) == escaped(s@.skip(i + 1), dots));
            }
        } else {
            out.push(norm_char_exec(c, dots));
            proof {
                assert(escaped(s@.skip(i as int), dots) == seq![norm_char(s@[i as int], dots)]
                    + escaped(s@.skip(i + 1), dots));
                assert(out@ + escaped(s@.skip(i + 1), dots) =~= escaped(s@, dots));
            }
        }
        i = i + 1;
    }
    proof {
        assert(s@.skip(n as int) =~= Seq::<char>::empty());
        assert(out@ =~= out@ + escaped(s@.skip(n as int), dots));
    }
    chars_to_string(&out)
}

/// Escapes a distribution name to its canonical form: lowercase, with every
/// maximal run of `-`, `_`, `.` replaced by a single `-`.
pub fn escape_name(s: &str) -> (r: String)
    ensures
        r@ == escaped_name(s@),
{
    escape_chars(s, true)
}

/// Escapes a version to its canonical form: lowercase, with every maximal
/// run of `-` and `_` replaced by a single `-`, dots left as they are.
pub fn escape_version(s: &str) -> (r: String)
    ensures
        r@ == escaped_version(s@),
{
    escape_chars(s, false)
}

/// The first character of an escaped non-empty input is the normalized form
/// of the input's first character, and the escaped form is never empty.
proof fn lemma_escaped_head(s: Seq<char>, dots: bool)
    requires
        s.len() > 0,
    ensures
        escaped(s, dots).len() > 0,
        escaped(s, dots)[0] == norm_char(s[0], dots),
    decreases s.len(),
{
    if s.len() >= 2 && is_separator(s[0], dots) && is_separator(s[1], dots) {
        lemma_escaped_head(s.drop_first(), dots);
    }
}

/// A normalized character is never uppercase, and is a separator only if it
/// is `-` itself.
proof fn lemma_norm_char(c: char, dots: bool)
    ensures
        !('A' <= norm_char(c, dots) && norm_char(c, dots) <= 'Z'),
        is_separator(norm_char(c, dots), dots) ==> norm_char(c, dots) == '-',
{
}

/// Escaping is canonical: the result holds no uppercase ASCII letter, no
/// separator other than `-` itself, and no two adjacent `-` characters.
pub proof fn lemma_escaped_canonical(s: Seq<char>, dots: bool)
    ensures
        forall|i: int|
            0 <= i < escaped(s, dots).len() ==> !('A' <= #[trigger] escaped(s, dots)[i]
                && escaped(s, dots)[i] <= 'Z'),
        forall|i: int|
            0 <= i < escaped(s, dots).len() ==> (is_separator(#[trigger] escaped(s, dots)[i], dots)
                ==> escaped(s, dots)[i] == '-'),
        forall|i: int|
            0 <= i && i + 1 < escaped(s, dots).len() ==> !(#[trigger] escaped(s, dots)[i] == '-'
                && escaped(s, dots)[i + 1] == '-'),
    decreases s.len(),
{
    if s.len() == 0 {
    } else if s.len() >= 2 && is_separator(s[0], dots) && is_separator(s[1], dots) {
        lemma_escaped_canonical(s.drop_first(), dots);
    } else {
        lemma_escaped_canonical(s.drop_first(), dots);
        let e = escaped(s, dots);
        let rest = escaped(s.drop_first(), dots);
        assert(e == seq![norm_char(s[0], dots)] + rest);
        assert forall|i: int| 0 <= i < e.len() implies !('A' <= #[trigger] e[i] && e[i] <= 'Z')
            && (is_separator(e[i], dots) ==> e[i] == '-') by {
            if i == 0 {
                lemma_norm_char(s[0], dots);
            } else {
                assert(e[i] == rest[i - 1]);
            }
        }
        assert forall|i: int| 0 <= i && i + 1 < e.len() implies !(#[trigger] e[i] == '-' && e[i + 1]
            == '-') by {
            if i == 0 {
                if e[0] == '-' && e[1] == '-' {
                    // The head was kept, so the next input character is not a
                    // separator, and its normal form is not `-`.
                    assert(rest.len() > 0);
                    assert(s.drop_first().len() > 0);
                    lemma_escaped_head(s.drop_first(), dots);
                    assert(e[1] == rest[0]);
                    assert(rest[0] == norm_char(s[1], dots));
                    if is_separator(s[0], dots) {
                        assert(!is_separator(s[1], dots));
                        assert(norm_char(s[1], dots) != '-');
                    } else {
                        lemma_norm_char(s[0], dots);
                        assert(!is_separator(e[0], dots));
                    }
                }
            } else {
                assert(e[i] == rest[i - 1]);
                assert(e[i + 1] == rest[i]);
            }
        }
    }
}

/// Distribution-name escaping is canonical: lowercase, separator-collapsed.
pub proof fn lemma_escaped_name_canonical(s: Seq<char>)
    ensures
        forall|i: int|
            0 <= i < escaped_name(s).len() ==> !('A' <= #[trigger] escaped_name(s)[i]
                && escaped_name(s)[i] <= 'Z'),
        forall|i: int|
            0 <= i < escaped_name(s).len() ==> #[trigger] escaped_name(s)[i] != '_'
                && escaped_name(s)[i] != '.',
        forall|i: int|
            0 <= i && i + 1 < escaped_name(s).len() ==> !(#[trigger] escaped_name(s)[i] == '-'
                && escaped_name(s)[i + 1] == '-'),
{
    lemma_escaped_canonical(s, true);
    assert forall|i: int| 0 <= i < escaped_name(s).len() implies #[trigger] escaped_name(s)[i]
        != '_' && escaped_name(s)[i] != '.' by {
        assert(is_separator('_', true) && is_separator('.', true));
    }
}

/// The filesystem form of an escaped component: the canonical `-` separator
/// rewritten to `_`, as the reserved metadata directory name requires.
pub open spec fn us_char(c: char) -> char {
    if c == '-' {
        '_'
    } else {
        c
    }
}

/// An escaped component with every `-` rewritten to `_`: the form used in
/// the reserved `.dist-info` directory name.
pub open spec fn underscored(s: Seq<char>) -> Seq<char> {
    s.map_values(|c: char| us_char(c))
}

/// Rewrites every `-` of an already-escaped component to `_`.
pub fn underscore_form(s: &str) -> (r: String)
    ensures
        r@ == underscored(s@),
{
    let n = s.unicode_len();
    let mut out: Vec<char> = Vec::new();
    let mut i: usize = 0;
    while i < n
        invariant
            i <= n,
            n == s@.len(),
            out@.len() == i,
            forall|k: int| 0 <= k < i ==> #[trigger] out@[k] == us_char(s@[k]),
        decreases n - i,
    {
        let c = s.get_char(i);
        if c == '-' {
            out.push('_');
        } else {
            out.push(c);
        }
        i = i + 1;
    }
    proof {
        assert(out@ =~= underscored(s@));
    }
    chars_to_string(&out)
}

/// A sequence already in canonical form is a fixed point of escaping.
proof fn lemma_escaped_fixed(t: Seq<char>, dots: bool)
    requires
        forall|i: int| 0 <= i < t.len() ==> !('A' <= #[trigger] t[i] && t[i] <= 'Z'),
        forall|i: int| 0 <= i < t.len() ==> (is_separator(#[trigger] t[i], dots) ==> t[i] == '-'),
        forall|i: int| 0 <= i && i + 1 < t.len() ==> !(#[trigger] t[i] == '-' && t[i + 1] == '-'),
    ensures
        escaped(t, dots) =~= t,
    decreases t.len(),
{
    if t.len() == 0 {
    } else {
        if t.len() >= 2 && is_separator(t[0], dots) && is_separator(t[1], dots) {
            assert(t[0] == '-' && t[1] == '-');
            assert(false);
        }
        let rest = t.drop_first();
        assert(forall|i: int| 0 <= i < rest.len() ==> #[trigger] rest[i] == t[i + 1]);
        lemma_escaped_fixed(rest, dots);
        assert(norm_char(t[0], dots) == t[0]);
        assert(escaped(t, dots) =~= seq![t[0]] + rest);
        assert(seq![t[0]] + rest =~= t);
    }
}

/// Escaping is idempotent: the canonical escaped form is its own escaped
/// form, so escaping an already-escaped component changes nothing.
pub proof fn lemma_escaped_idempotent(s: Seq<char>, dots: bool)
    ensures
        escaped(escaped(s, dots), dots) == escaped(s, dots),
{
    lemma_escaped_canonical(s, dots);
    lemma_escaped_fixed(escaped(s, dots), dots);
}

} // verus!
