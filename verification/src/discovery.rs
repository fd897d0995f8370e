use crate::text::chars_to_string;
use crate::text::lines_for;
use crate::text::nl;
use crate::text::push_lines;
use crate::text::push_str_chars;
use vstd::prelude::*;

verus! {

/// Why interpreter discovery failed a hard requirement.
pub enum DiscoveryError {
    /// Exactly one interpreter was required and none was found.
    NoInterpreters,
    /// Exactly one interpreter was required and several were found; every
    /// candidate is kept for the report.
    Ambiguous { candidates: Vec<String> },
}

/// The message for a discovery failure: a fixed "none found" line, or a
/// header followed by one indented line per candidate.
pub open spec fn discovery_message_chars(e: DiscoveryError) -> Seq<char> {
    match e {
        DiscoveryError::NoInterpreters => "no compatible python interpreters found"@,
        DiscoveryError::Ambiguous { candidates } =>
            "expected exactly one python interpreter, found candidates:"@ + nl() + lines_for(
            "  "@,
            candidates.deep_view(),
        ),
    }
}

impl DiscoveryError {
    /// A human-readable description of the failure, with every candidate
    /// listed on a line of its own.
    pub fn message(&self) -> (r: String)
        ensures
            r@ == discovery_message_chars(*self),
    {
        match self {
            DiscoveryError::NoInterpreters => "no compatible python interpreters found".to_owned(),
            DiscoveryError::Ambiguous { candidates } => {
                let mut out: Vec<char> = Vec::new();
                push_str_chars(
                    &mut out,
                    "expected exactly one python interpreter, found candidates:",
                );
                out.push('\n');
                push_lines(&mut out, "  ", candidates);
                proof {
                    assert(out@ =~= discovery_message_chars(*self));
                }
                chars_to_string(&out)
            },
        }
    }
}

fn clone_strings(v: &Vec<String>) -> (r: Vec<String>)
    ensures
        r.deep_view() == v.deep_view(),
{
    let mut r: Vec<String> = Vec::new();
    let mut i: usize = 0;
    while i < v.len()
        invariant
            i <= v@.len(),
            r@.len() == i,
            forall|k: int| 0 <= k < i ==> #[trigger] r@[k]@ == v@[k]@,
        decreases v@.len() - i,
    {
        r.push(v[i].clone());
        i = i + 1;
    }
    proof {
        assert(r.deep_view() =~= v.deep_view());
    }
    r
}

/// Enforces the hard discovery requirement: when exactly one interpreter is
/// expected, zero discovered candidates is a fatal error and so are two or
/// more, the latter reported with the full candidate list; exactly one
/// candidate, or no requirement at all, passes.
pub fn check_candidates(candidates: &Vec<String>, expect_one: bool) -> (r: Result<
    (),
    DiscoveryError,
>)
    ensures
        r is Ok <==> (!expect_one || candidates@.len() == 1),
        expect_one && candidates@.len() == 0 ==> (r matches Err(e) && e is NoInterpreters),
        expect_one && candidates@.len() > 1 ==> (r matches Err(e)
            && e matches DiscoveryError::Ambiguous { candidates: c }
            && c.deep_view() == candidates.deep_view()),
{
    if expect_one {
        if candidates.len() == 0 {
            Err(DiscoveryError::NoInterpreters)
        } else if candidates.len() > 1 {
            Err(DiscoveryError::Ambiguous { candidates: clone_strings(candidates) })
        } else {
            Ok(())
        }
    } else {
        Ok(())
    }
}

} // verus!
