use crate::num::dec_chars;
use crate::num::push_dec;
use crate::text::chars_to_string;
use crate::text::push_str_chars;
use vstd::prelude::*;

verus! {

/// How the target runtime names importable shared libraries.
#[derive(Clone, Copy, PartialEq, Eq, Structural, Debug)]
pub enum LibraryNaming {
    Unix,
    Windows,
}

/// One discovered interpreter: version, implementation tag, ABI tag,
/// platform tag, and the library naming convention its import machinery
/// expects.
pub struct InterpreterDescriptor {
    pub major: u64,
    pub minor: u64,
    pub implementation: String,
    pub abi: String,
    pub platform: String,
    pub naming: LibraryNaming,
}

/// What a compatibility tag is resolved from: a discovered interpreter, or
/// the ABI-stable override with a minimum supported runtime version.
pub enum TagSource {
    PerInterpreter(InterpreterDescriptor),
    AbiStable { implementation: String, min_major: u64, min_minor: u64, platform: String },
}

/// The compatibility tag `{interpreter}-{abi}-{platform}` implied by a tag
/// source. Per-interpreter: `{implementationTag}{major}{minor}-{abiTag}-
/// {platformTag}`, the platform tag passed through verbatim. ABI-stable:
/// `{implementationTag}{minMajor}{minMinor}-abi3-{platformTag}`, independent
/// of any installed interpreter.
pub open spec fn tag_chars(t: TagSource) -> Seq<char> {
    match t {
        TagSource::PerInterpreter(d) => d.implementation@ + dec_chars(d.major as nat) + dec_chars(
            d.minor as nat,
        ) + seq!['-'] + d.abi@ + seq!['-'] + d.platform@,
        TagSource::AbiStable { implementation, min_major, min_minor, platform } => implementation@
            + dec_chars(min_major as nat) + dec_chars(min_minor as nat) + seq!['-', 'a', 'b', 'i', '3', '-']
            + platform@,
    }
}

/// Resolves a tag source to its compatibility tag string.
pub fn resolve_tag(t: &TagSource) -> (r: String)
    ensures
        r@ == tag_chars(*t),
{
    let mut out: Vec<char> = Vec::new();
    match t {
        TagSource::PerInterpreter(d) => {
            push_str_chars(&mut out, d.implementation.as_str());
            push_dec(&mut out, d.major);
            push_dec(&mut out, d.minor);
            out.push('-');
            push_str_chars(&mut out, d.abi.as_str());
            out.push('-');
            push_str_chars(&mut out, d.platform.as_str());
            proof {
                assert(out@ =~= tag_chars(*t));
            }
        },
        TagSource::AbiStable { implementation, min_major, min_minor, platform } => {
            push_str_chars(&mut out, implementation.as_str());
            push_dec(&mut out, *min_major);
            push_dec(&mut out, *min_minor);
            out.push('-');
            out.push('a');
            out.push('b');
            out.push('i');
            out.push('3');
            out.push('-');
            push_str_chars(&mut out, platform.as_str());
            proof {
                assert(out@ =~= tag_chars(*t));
            }
        },
    }
    chars_to_string(&out)
}

/// Tag resolution is deterministic: the resolved tag is a pure function of
/// its source, so any two resolutions of the same source agree character for
/// character.
pub proof fn lemma_resolve_tag_deterministic(t: TagSource, r1: String, r2: String)
    requires
        r1@ == tag_chars(t),
        r2@ == tag_chars(t),
    ensures
        r1@ == r2@,
{
}

/// The archive filename `{escapedName}-{escapedVersion}-{tag}.whl`.
pub open spec fn wheel_filename_chars(name_e: Seq<char>, version_e: Seq<char>, tag: Seq<char>) -> Seq<
    char,
> {
    name_e + seq!['-'] + version_e + seq!['-'] + tag + ".whl"@
}

/// Builds the archive filename from the escaped name, escaped version and
/// compatibility tag.
pub fn wheel_filename(name_escaped: &str, version_escaped: &str, tag: &str) -> (r: String)
    ensures
        r@ == wheel_filename_chars(name_escaped@, version_escaped@, tag@),
{
    let mut out: Vec<char> = Vec::new();
    push_str_chars(&mut out, name_escaped);
    out.push('-');
    push_str_chars(&mut out, version_escaped);
    out.push('-');
    push_str_chars(&mut out, tag);
    push_str_chars(&mut out, ".whl");
    proof {
        assert(out@ =~= wheel_filename_chars(name_escaped@, version_escaped@, tag@));
    }
    chars_to_string(&out)
}

/// The artifact's internal filename. The Unix convention appends the tag's
/// ABI component and the `.so` suffix (`{module}.{abi}.so`), or only the
/// suffix when tag-stripping is requested. The Windows convention uses the
/// `.pyd` suffix and no POSIX-style tag.
pub open spec fn artifact_filename_chars(
    module: Seq<char>,
    abi: Option<Seq<char>>,
    naming: LibraryNaming,
) -> Seq<char> {
    match naming {
        LibraryNaming::Windows => module + ".pyd"@,
        LibraryNaming::Unix => match abi {
            Some(a) => module + seq!['.'] + a + ".so"@,
            None => module + ".so"@,
        },
    }
}

/// Builds the internal artifact filename for `module` under the given naming
/// convention; `abi` is `None` when tag-stripping is requested.
pub fn artifact_filename(module: &str, abi: Option<&str>, naming: LibraryNaming) -> (r: String)
    ensures
        r@ == artifact_filename_chars(
            module@,
            match abi {
                Some(a) => Some(a@),
                None => None,
            },
            naming,
        ),
{
    let mut out: Vec<char> = Vec::new();
    push_str_chars(&mut out, module);
    match naming {
        LibraryNaming::Windows => {
            push_str_chars(&mut out, ".pyd");
        },
        LibraryNaming::Unix => {
            match abi {
                Some(a) => {
                    out.push('.');
                    push_str_chars(&mut out, a);
                    push_str_chars(&mut out, ".so");
                },
                None => {
                    push_str_chars(&mut out, ".so");
                },
            }
        },
    }
    proof {
        assert(out@ =~= artifact_filename_chars(
            module@,
            match abi {
                Some(a) => Some(a@),
                None => None,
            },
            naming,
        ));
    }
    chars_to_string(&out)
}

} // verus!
