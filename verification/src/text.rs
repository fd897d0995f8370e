use vstd::prelude::*;
use vstd::string::StrSliceExecFns;
use vstd::string::StringSliceAdditionalSpecFns;

verus! {

/// The line terminator used in every generated metadata file.
pub open spec fn nl() -> Seq<char> {
    seq!['\n']
}

/// Peeling one element off a suffix of a sequence.
pub proof fn lemma_skip_step<A>(s: Seq<A>, i: int)
    requires
        0 <= i < s.len(),
    ensures
        s.skip(i).len() == s.len() - i,
        s.skip(i)[0] == s[i],
        s.skip(i).drop_first() =~= s.skip(i + 1),
{
}

/// Relies on `String`'s `FromIterator<char>` implementation: collecting an
/// iterator of characters yields the string holding exactly those characters
/// in order.
#[verifier::external_body]
pub fn chars_to_string(v: &Vec<char>) -> (r: String)
    ensures
        r@ == v@,
{
    v.iter().collect()
}

/// Appends every character of `s` to `out`, in order.
pub fn push_str_chars(out: &mut Vec<char>, s: &str)
    ensures
        final(out)@ == old(out)@ + s@,
{
    proof {
        assert(out@ =~= out@ + s@.take(0));
    }
    let n = s.unicode_len();
    let mut i: usize = 0;
    while i < n
        invariant
            i <= n,
            n == s@.len(),
            out@ == old(out)@ + s@.take(i as int),
        decreases n - i,
    {
        let c = s.get_char(i);
        out.push(c);
        proof {
            assert(s@.take(i as int).push(s@[i as int]) =~= s@.take(i + 1));
            assert(old(out)@ + s@.take(i as int).push(s@[i as int]) =~= (old(out)@ + s@.take(
                i as int,
            )).push(s@[i as int]));
        }
        i = i + 1;
    }
    proof {
        assert(s@.take(n as int) =~= s@);
    }
}

/// The UTF-8 bytes of a string, as a fresh vector.
pub fn text_bytes(s: &str) -> (r: Vec<u8>)
    ensures
        r@ == s.spec_bytes(),
{
    s.as_bytes_vec()
}

/// One `key`-prefixed, newline-terminated line per value, in order.
pub open spec fn lines_for(key: Seq<char>, vals: Seq<Seq<char>>) -> Seq<char>
    decreases vals.len(),
{
    if vals.len() == 0 {
        Seq::empty()
    } else {
        key + vals[0] + nl() + lines_for(key, vals.drop_first())
    }
}

fn push_lines_from(out: &mut Vec<char>, key: &str, vals: &Vec<String>, from: usize)
    requires
        from <= vals@.len(),
    ensures
        final(out)@ == old(out)@ + lines_for(key@, vals.deep_view().skip(from as int)),
    decreases vals@.len() - from,
{
    proof {
        assert(vals.deep_view().len() == vals@.len());
    }
    if from < vals.len() {
        push_str_chars(out, key);
        push_str_chars(out, vals[from].as_str());
        out.push('\n');
        let ghost mid = out@;
        push_lines_from(out, key, vals, from + 1);
        proof {
            let dv = vals.deep_view();
            lemma_skip_step(dv, from as int);
            assert(dv[from as int] == vals[from as int]@);
            assert(mid =~= old(out)@ + key@ + dv[from as int] + nl());
            assert(lines_for(key@, dv.skip(from as int)) == key@ + dv[from as int] + nl()
                + lines_for(key@, dv.skip(from + 1)));
            assert(out@ =~= old(out)@ + lines_for(key@, dv.skip(from as int)));
        }
    } else {
        proof {
            assert(vals.deep_view().skip(from as int) =~= Seq::<Seq<char>>::empty());
            assert(out@ =~= out@ + lines_for(key@, vals.deep_view().skip(from as int)));
        }
    }
}

/// Appends one `key`-prefixed line per element of `vals` to `out`.
pub fn push_lines(out: &mut Vec<char>, key: &str, vals: &Vec<String>)
    ensures
        final(out)@ == old(out)@ + lines_for(key@, vals.deep_view()),
{
    push_lines_from(out, key, vals, 0);
    proof {
        assert(vals.deep_view().skip(0) =~= vals.deep_view());
    }
}

} // verus!
