use crate::escape::escape_name;
use crate::escape::escape_version;
use crate::escape::escaped_name;
use crate::escape::escaped_version;
use crate::text::chars_to_string;
use crate::text::lines_for;
use crate::text::nl;
use crate::text::push_lines;
use crate::text::push_str_chars;
use vstd::prelude::*;

verus! {

/// Toolchain-native project metadata, as plain values. File references
/// (a license file, a readme) are resolved to their contents by the caller
/// before translation; an unreadable referenced file is the caller's fatal
/// error.
pub struct RawManifest {
    pub name: Option<String>,
    pub version: Option<String>,
    pub authors: Vec<String>,
    pub license: Option<String>,
    pub summary: Option<String>,
    pub classifiers: Vec<String>,
    pub requires_dist: Vec<String>,
    pub readme_path: Option<String>,
}

/// Why toolchain metadata could not be translated: a mandatory field is
/// absent (or empty).
#[derive(Clone, Copy, PartialEq, Eq, Structural, Debug)]
pub enum ManifestParseError {
    MissingName,
    MissingVersion,
}

impl ManifestParseError {
    /// A human-readable description of the error.
    pub fn message(&self) -> (r: String)
        ensures
            r@ == match *self {
                ManifestParseError::MissingName => "manifest is missing the mandatory field: name"@,
                ManifestParseError::MissingVersion => "manifest is missing the mandatory field: version"@,
            },
    {
        match self {
            ManifestParseError::MissingName => "manifest is missing the mandatory field: name".to_owned(),
            ManifestParseError::MissingVersion => "manifest is missing the mandatory field: version".to_owned(),
        }
    }
}

/// The canonical metadata record: the distribution name and version already
/// escaped, the ordered multi-valued fields kept in declaration order.
#[derive(Debug)]
pub struct MetadataRecord {
    pub name: String,
    pub version: String,
    pub authors: Vec<String>,
    pub license: Option<String>,
    pub summary: Option<String>,
    pub classifiers: Vec<String>,
    pub requires_dist: Vec<String>,
    pub readme_path: Option<String>,
}

/// Whether an optional field is present and non-empty.
pub open spec fn present(o: Option<String>) -> bool {
    match o {
        Some(s) => s@.len() > 0,
        None => false,
    }
}

/// The characters of an optional field, empty when absent.
pub open spec fn opt_chars(o: Option<String>) -> Seq<char> {
    match o {
        Some(s) => s@,
        None => Seq::empty(),
    }
}

/// Translates toolchain-native metadata into the canonical record, escaping
/// the distribution name and version once at creation and passing every
/// multi-valued field through in declaration order. Fails exactly when a
/// mandatory field (name, version) is absent or empty, the name checked
/// first.
pub fn translate(raw: RawManifest) -> (r: Result<MetadataRecord, ManifestParseError>)
    ensures
        r is Ok <==> present(raw.name) && present(raw.version),
        !present(raw.name) ==> r == Result::<MetadataRecord, ManifestParseError>::Err(
            ManifestParseError::MissingName,
        ),
        present(raw.name) && !present(raw.version) ==> r == Result::<
            MetadataRecord,
            ManifestParseError,
        >::Err(ManifestParseError::MissingVersion),
        r matches Ok(m) ==> {
            &&& m.name@ == escaped_name(opt_chars(raw.name))
            &&& m.version@ == escaped_version(opt_chars(raw.version))
            &&& m.authors == raw.authors
            &&& m.license == raw.license
            &&& m.summary == raw.summary
            &&& m.classifiers == raw.classifiers
            &&& m.requires_dist == raw.requires_dist
            &&& m.readme_path == raw.readme_path
        },
{
    let RawManifest {
        name,
        version,
        authors,
        license,
        summary,
        classifiers,
        requires_dist,
        readme_path,
    } = raw;
    let name_s = match name {
        Some(n) => {
            if n.as_str().is_empty() {
                return Err(ManifestParseError::MissingName);
            }
            n
        },
        None => {
            return Err(ManifestParseError::MissingName);
        },
    };
    let version_s = match version {
        Some(v) => {
            if v.as_str().is_empty() {
                return Err(ManifestParseError::MissingVersion);
            }
            v
        },
        None => {
            return Err(ManifestParseError::MissingVersion);
        },
    };
    Ok(
        MetadataRecord {
            name: escape_name(name_s.as_str()),
            version: escape_version(version_s.as_str()),
            authors,
            license,
            summary,
            classifiers,
            requires_dist,
            readme_path,
        },
    )
}

/// One `key: value` line when the field is present, nothing when absent.
pub open spec fn opt_field(key: Seq<char>, v: Option<String>) -> Seq<char> {
    match v {
        Some(s) => key + s@ + nl(),
        None => Seq::empty(),
    }
}

/// The `METADATA` file contents: `Key: value` lines, UTF-8 with LF endings,
/// one line per element of each multi-valued field, in declaration order.
pub open spec fn metadata_chars(m: MetadataRecord) -> Seq<char> {
    "Metadata-Version: 2.1"@ + nl() + "Name: "@ + m.name@ + nl() + "Version: "@ + m.version@ + nl()
        + lines_for("Author: "@, m.authors.deep_view()) + opt_field("License: "@, m.license)
        + opt_field("Summary: "@, m.summary) + lines_for("Classifier: "@, m.classifiers.deep_view())
        + lines_for("Requires-Dist: "@, m.requires_dist.deep_view())
}

/// Renders the `METADATA` file for a record.
pub fn render_metadata(m: &MetadataRecord) -> (r: String)
    ensures
        r@ == metadata_chars(*m),
{
    let mut out: Vec<char> = Vec::new();
    push_str_chars(&mut out, "Metadata-Version: 2.1");
    out.push('\n');
    push_str_chars(&mut out, "Name: ");
    push_str_chars(&mut out, m.name.as_str());
    out.push('\n');
    push_str_chars(&mut out, "Version: ");
    push_str_chars(&mut out, m.version.as_str());
    out.push('\n');
    push_lines(&mut out, "Author: ", &m.authors);
    match &m.license {
        Some(l) => {
            push_str_chars(&mut out, "License: ");
            push_str_chars(&mut out, l.as_str());
            out.push('\n');
        },
        None => {},
    }
    match &m.summary {
        Some(s) => {
            push_str_chars(&mut out, "Summary: ");
            push_str_chars(&mut out, s.as_str());
            out.push('\n');
        },
        None => {},
    }
    push_lines(&mut out, "Classifier: ", &m.classifiers);
    push_lines(&mut out, "Requires-Dist: ", &m.requires_dist);
    proof {
        assert(out@ =~= metadata_chars(*m));
    }
    chars_to_string(&out)
}

/// The `WHEEL` marker file: builder identity, root flag, and one `Tag:` line
/// per applicable compatibility tag, in order.
pub open spec fn wheel_marker_chars(tags: Seq<Seq<char>>) -> Seq<char> {
    "Wheel-Version: 1.0"@ + nl() + "Generator: wheelpack"@ + nl() + "Root-Is-Purelib: false"@
        + nl() + lines_for("Tag: "@, tags)
}

/// Renders the `WHEEL` marker file for a list of compatibility tags.
pub fn render_wheel_marker(tags: &Vec<String>) -> (r: String)
    ensures
        r@ == wheel_marker_chars(tags.deep_view()),
{
    let mut out: Vec<char> = Vec::new();
    push_str_chars(&mut out, "Wheel-Version: 1.0");
    out.push('\n');
    push_str_chars(&mut out, "Generator: wheelpack");
    out.push('\n');
    push_str_chars(&mut out, "Root-Is-Purelib: false");
    out.push('\n');
    push_lines(&mut out, "Tag: ", tags);
    proof {
        assert(out@ =~= wheel_marker_chars(tags.deep_view()));
    }
    chars_to_string(&out)
}

} // verus!
