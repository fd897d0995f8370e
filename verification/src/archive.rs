use crate::digest::digest_chars;
use crate::escape::underscore_form;
use crate::escape::underscored;
use crate::digest::digest_of;
use crate::metadata::metadata_chars;
use crate::metadata::render_metadata;
use crate::metadata::render_wheel_marker;
use crate::metadata::wheel_marker_chars;
use crate::metadata::MetadataRecord;
use crate::sorting::insert_by;
use crate::sorting::lemma_insert_by_at;
use crate::sorting::lex_le;
use crate::sorting::sorted_ins;
use crate::sorting::str_le;
use crate::tag::artifact_filename;
use crate::tag::artifact_filename_chars;
use crate::tag::wheel_filename;
use crate::tag::wheel_filename_chars;
use crate::tag::LibraryNaming;
use crate::text::text_bytes;
use crate::num::dec_chars;
use crate::text::chars_to_string;
use crate::text::nl;
use crate::text::push_str_chars;
use vstd::prelude::*;
use vstd::utf8::encode_utf8;

verus! {

/// One file destined for the archive: its internal forward-slash path and
/// its raw bytes.
pub struct ArchiveFile {
    pub path: String,
    pub data: Vec<u8>,
}

/// One row of the `RECORD` manifest: the entry's path, its digest field and
/// its size field. The manifest's own row carries `None` for both fields.
pub struct ArchiveEntry {
    pub path: String,
    pub digest: Option<String>,
    pub size: Option<u64>,
}

/// The mathematical value of a planned file: its path and its bytes.
pub open spec fn files_view(s: Seq<ArchiveFile>) -> Seq<(Seq<char>, Seq<u8>)> {
    s.map_values(|f: ArchiveFile| (f.path@, f.data@))
}

/// The mathematical value of a manifest row.
pub open spec fn entry_view(e: ArchiveEntry) -> (Seq<char>, Option<Seq<char>>, Option<u64>) {
    (
        e.path@,
        match e.digest {
            Some(d) => Some(d@),
            None => None,
        },
        e.size,
    )
}

/// The mathematical value of a manifest row list.
pub open spec fn entries_view(s: Seq<ArchiveEntry>) -> Seq<
    (Seq<char>, Option<Seq<char>>, Option<u64>),
> {
    s.map_values(|e: ArchiveEntry| entry_view(e))
}

/// The archive entry order: lexicographic by internal path.
pub open spec fn file_leq() -> spec_fn((Seq<char>, Seq<u8>), (Seq<char>, Seq<u8>)) -> bool {
    |a: (Seq<char>, Seq<u8>), b: (Seq<char>, Seq<u8>)| lex_le(a.0, b.0)
}

/// The manifest row order: lexicographic by path.
pub open spec fn entry_leq() -> spec_fn(
    (Seq<char>, Option<Seq<char>>, Option<u64>),
    (Seq<char>, Option<Seq<char>>, Option<u64>),
) -> bool {
    |a: (Seq<char>, Option<Seq<char>>, Option<u64>), b: (Seq<char>, Option<Seq<char>>, Option<u64>)|
        lex_le(a.0, b.0)
}

/// Inserts a file at its place in a path-sorted file list.
fn insert_file_sorted(v: &mut Vec<ArchiveFile>, e: ArchiveFile)
    ensures
        files_view(final(v)@) == insert_by(
            file_leq(),
            (e.path@, e.data@),
            files_view(old(v)@),
        ),
{
    let mut i: usize = 0;
    while i < v.len() && !str_le(e.path.as_str(), v[i].path.as_str())
        invariant
            i <= v@.len(),
            v@ == old(v)@,
            forall|j: int| 0 <= j < i ==> !lex_le(e.path@, #[trigger] v@[j].path@),
        decreases v@.len() - i,
    {
        i = i + 1;
    }
    let ghost ev = (e.path@, e.data@);
    let ghost s = files_view(old(v)@);
    let ghost pos = i as int;
    v.insert(i, e);
    proof {
        assert(forall|j: int| 0 <= j < pos ==> !(file_leq())(ev, #[trigger] s[j]));
        assert(pos < s.len() ==> (file_leq())(ev, s[pos]));
        lemma_insert_by_at(file_leq(), ev, s, pos);
        assert(files_view(v@) =~= s.take(pos) + seq![ev] + s.skip(pos));
    }
}

/// Inserts a manifest row at its place in a path-sorted row list.
fn insert_entry_sorted(v: &mut Vec<ArchiveEntry>, e: ArchiveEntry)
    ensures
        entries_view(final(v)@) == insert_by(entry_leq(), entry_view(e), entries_view(old(v)@)),
{
    let mut i: usize = 0;
    while i < v.len() && !str_le(e.path.as_str(), v[i].path.as_str())
        invariant
            i <= v@.len(),
            v@ == old(v)@,
            forall|j: int| 0 <= j < i ==> !lex_le(e.path@, #[trigger] v@[j].path@),
        decreases v@.len() - i,
    {
        i = i + 1;
    }
    let ghost ev = entry_view(e);
    let ghost s = entries_view(old(v)@);
    let ghost pos = i as int;
    v.insert(i, e);
    proof {
        assert(forall|j: int| 0 <= j < pos ==> !(entry_leq())(ev, #[trigger] s[j]));
        assert(pos < s.len() ==> (entry_leq())(ev, s[pos]));
        lemma_insert_by_at(entry_leq(), ev, s, pos);
        assert(entries_view(v@) =~= s.take(pos) + seq![ev] + s.skip(pos));
    }
}

/// Sorts the planned files by internal path: the deterministic entry order
/// of the archive.
pub fn sort_files(v: Vec<ArchiveFile>) -> (r: Vec<ArchiveFile>)
    ensures
        files_view(r@) == sorted_ins(file_leq(), files_view(v@)),
    decreases v@.len(),
{
    let mut v = v;
    if v.len() == 0 {
        proof {
            assert(files_view(v@) =~= sorted_ins(file_leq(), files_view(v@)));
        }
        v
    } else {
        let ghost s0 = files_view(v@);
        let e = v.remove(0);
        proof {
            assert(files_view(v@) =~= s0.drop_first());
        }
        let mut rest = sort_files(v);
        insert_file_sorted(&mut rest, e);
        proof {
            assert(files_view(rest@) == insert_by(file_leq(), s0[0], sorted_ins(file_leq(), s0.drop_first())));
        }
        rest
    }
}

/// The manifest rows derived from a file list: each file's path, its
/// `sha256=` digest field, and its raw byte length.
pub open spec fn rows_of(s: Seq<(Seq<char>, Seq<u8>)>) -> Seq<
    (Seq<char>, Option<Seq<char>>, Option<u64>),
> {
    s.map_values(
        |p: (Seq<char>, Seq<u8>)| (p.0, Some(digest_chars(p.1)), Some(p.1.len() as u64)),
    )
}

/// Computes the manifest rows for a list of files, in the same order.
fn rows_for_files(files: &Vec<ArchiveFile>) -> (r: Vec<ArchiveEntry>)
    ensures
        entries_view(r@) == rows_of(files_view(files@)),
{
    let mut r: Vec<ArchiveEntry> = Vec::new();
    let mut i: usize = 0;
    while i < files.len()
        invariant
            i <= files@.len(),
            r@.len() == i,
            forall|k: int|
                0 <= k < i ==> entry_view(#[trigger] r@[k]) == rows_of(files_view(files@))[k],
        decreases files@.len() - i,
    {
        let f = &files[i];
        let d = digest_of(&f.data);
        let n = f.data.len();
        let entry = ArchiveEntry { path: f.path.clone(), digest: Some(d), size: Some(n as u64) };
        proof {
            let fv = files_view(files@);
            assert(fv[i as int] == (files@[i as int].path@, files@[i as int].data@));
            assert(entry_view(entry) == rows_of(fv)[i as int]);
        }
        r.push(entry);
        i = i + 1;
    }
    proof {
        assert(entries_view(r@) =~= rows_of(files_view(files@)));
    }
    r
}

/// One manifest line, `path,digest,size`, with empty digest and size fields
/// when the row carries none (the manifest's own line).
pub open spec fn record_line_chars(e: (Seq<char>, Option<Seq<char>>, Option<u64>)) -> Seq<char> {
    e.0 + seq![','] + (match e.1 {
        Some(d) => d,
        None => Seq::empty(),
    }) + seq![','] + (match e.2 {
        Some(n) => dec_chars(n as nat),
        None => Seq::empty(),
    }) + nl()
}

/// The `RECORD` manifest contents: one line per row, in row order.
pub open spec fn record_chars(rows: Seq<(Seq<char>, Option<Seq<char>>, Option<u64>)>) -> Seq<char>
    decreases rows.len(),
{
    if rows.len() == 0 {
        Seq::empty()
    } else {
        record_line_chars(rows[0]) + record_chars(rows.drop_first())
    }
}

fn render_record_from(out: &mut Vec<char>, rows: &Vec<ArchiveEntry>, from: usize)
    requires
        from <= rows@.len(),
    ensures
        final(out)@ == old(out)@ + record_chars(entries_view(rows@).skip(from as int)),
    decreases rows@.len() - from,
{
    let ghost rv = entries_view(rows@);
    proof {
        assert(rv.len() == rows@.len());
    }
    if from < rows.len() {
        let e = &rows[from];
        push_str_chars(out, e.path.as_str());
        out.push(',');
        match &e.digest {
            Some(d) => {
                push_str_chars(out, d.as_str());
            },
            None => {},
        }
        out.push(',');
        match &e.size {
            Some(n) => {
                crate::num::push_dec(out, *n);
            },
            None => {},
        }
        out.push('\n');
        let ghost mid = out@;
        render_record_from(out, rows, from + 1);
        proof {
            crate::text::lemma_skip_step(rv, from as int);
            assert(mid =~= old(out)@ + record_line_chars(rv[from as int]));
            assert(record_chars(rv.skip(from as int)) == record_line_chars(rv[from as int])
                + record_chars(rv.skip(from + 1)));
            assert(out@ =~= old(out)@ + record_chars(rv.skip(from as int)));
        }
    } else {
        proof {
            assert(rv.skip(from as int) =~= Seq::<(Seq<char>, Option<Seq<char>>, Option<u64>)>::empty());
            assert(out@ =~= out@ + record_chars(rv.skip(from as int)));
        }
    }
}

/// Renders the `RECORD` manifest for a list of rows.
pub fn render_record(rows: &Vec<ArchiveEntry>) -> (r: String)
    ensures
        r@ == record_chars(entries_view(rows@)),
{
    let mut out: Vec<char> = Vec::new();
    render_record_from(&mut out, rows, 0);
    proof {
        assert(entries_view(rows@).skip(0) =~= entries_view(rows@));
    }
    chars_to_string(&out)
}

/// The reserved metadata directory prefix `{name}-{version}.dist-info/`,
/// with the name and version in their filesystem (underscore) form.
pub open spec fn dist_info_chars(m: MetadataRecord) -> Seq<char> {
    underscored(m.name@) + seq!['-'] + underscored(m.version@) + ".dist-info/"@
}

/// The manifest's own internal path.
pub open spec fn record_path_chars(m: MetadataRecord) -> Seq<char> {
    dist_info_chars(m) + "RECORD"@
}

/// The view of an optional borrowed string.
pub open spec fn opt_str_view(o: Option<&str>) -> Option<Seq<char>> {
    match o {
        Some(s) => Some(s@),
        None => None,
    }
}

fn dist_info_path(m: &MetadataRecord, last: &str) -> (r: String)
    ensures
        r@ == dist_info_chars(*m) + last@,
{
    let name_fs = underscore_form(m.name.as_str());
    let version_fs = underscore_form(m.version.as_str());
    let mut out: Vec<char> = Vec::new();
    push_str_chars(&mut out, name_fs.as_str());
    out.push('-');
    push_str_chars(&mut out, version_fs.as_str());
    push_str_chars(&mut out, ".dist-info/");
    push_str_chars(&mut out, last);
    proof {
        assert(out@ =~= dist_info_chars(*m) + last@);
    }
    chars_to_string(&out)
}

/// The three content files of one build pass, before sorting and before the
/// manifest is added: the renamed artifact, `METADATA` and `WHEEL`.
pub open spec fn content_files_view(
    tag: Seq<char>,
    m: MetadataRecord,
    module: Seq<char>,
    abi: Option<Seq<char>>,
    naming: LibraryNaming,
    artifact: Seq<u8>,
) -> Seq<(Seq<char>, Seq<u8>)> {
    seq![
        (artifact_filename_chars(module, abi, naming), artifact),
        (dist_info_chars(m) + "METADATA"@, encode_utf8(metadata_chars(m))),
        (dist_info_chars(m) + "WHEEL"@, encode_utf8(wheel_marker_chars(seq![tag]))),
    ]
}

/// The content files in the archive's deterministic order: sorted
/// lexicographically by internal path.
pub open spec fn sorted_content_view(
    tag: Seq<char>,
    m: MetadataRecord,
    module: Seq<char>,
    abi: Option<Seq<char>>,
    naming: LibraryNaming,
    artifact: Seq<u8>,
) -> Seq<(Seq<char>, Seq<u8>)> {
    sorted_ins(file_leq(), content_files_view(tag, m, module, abi, naming, artifact))
}

/// The manifest rows of one build pass: one digest-and-size row per content
/// file, plus the manifest's own fieldless row, in path order.
pub open spec fn plan_rows_view(
    tag: Seq<char>,
    m: MetadataRecord,
    module: Seq<char>,
    abi: Option<Seq<char>>,
    naming: LibraryNaming,
    artifact: Seq<u8>,
) -> Seq<(Seq<char>, Option<Seq<char>>, Option<u64>)> {
    insert_by(
        entry_leq(),
        (record_path_chars(m), Option::<Seq<char>>::None, Option::<u64>::None),
        rows_of(sorted_content_view(tag, m, module, abi, naming, artifact)),
    )
}

/// Every file of one build pass — content files and the rendered manifest —
/// in the archive's deterministic path-sorted order.
pub open spec fn plan_files_view(
    tag: Seq<char>,
    m: MetadataRecord,
    module: Seq<char>,
    abi: Option<Seq<char>>,
    naming: LibraryNaming,
    artifact: Seq<u8>,
) -> Seq<(Seq<char>, Seq<u8>)> {
    insert_by(
        file_leq(),
        (
            record_path_chars(m),
            encode_utf8(record_chars(plan_rows_view(tag, m, module, abi, naming, artifact))),
        ),
        sorted_content_view(tag, m, module, abi, naming, artifact),
    )
}

/// The fully determined outcome of one build pass: the archive filename, the
/// archive's files in final order, and the manifest rows.
pub struct ArchivePlan {
    pub wheel_name: String,
    pub files: Vec<ArchiveFile>,
    pub rows: Vec<ArchiveEntry>,
}

/// Assembles the archive plan for one compatibility tag: renames the
/// artifact by the naming convention, renders `METADATA` and `WHEEL`,
/// sorts every entry lexicographically by internal path, and records one
/// digest-and-size manifest row per file plus the manifest's own fieldless
/// row.
pub fn build_plan(
    tag: &str,
    meta: &MetadataRecord,
    module: &str,
    abi: Option<&str>,
    naming: LibraryNaming,
    artifact: Vec<u8>,
) -> (p: ArchivePlan)
    ensures
        p.wheel_name@ == wheel_filename_chars(meta.name@, meta.version@, tag@),
        files_view(p.files@) == plan_files_view(
            tag@,
            *meta,
            module@,
            opt_str_view(abi),
            naming,
            artifact@,
        ),
        entries_view(p.rows@) == plan_rows_view(
            tag@,
            *meta,
            module@,
            opt_str_view(abi),
            naming,
            artifact@,
        ),
{
    let art_name = artifact_filename(module, abi, naming);
    let metadata_path = dist_info_path(meta, "METADATA");
    let wheel_path = dist_info_path(meta, "WHEEL");
    let record_path = dist_info_path(meta, "RECORD");
    let metadata_text = render_metadata(meta);
    let metadata_bytes = text_bytes(metadata_text.as_str());
    let mut tags: Vec<String> = Vec::new();
    tags.push(tag.to_owned());
    proof {
        assert(tags.deep_view() =~= seq![tag@]);
    }
    let wheel_text = render_wheel_marker(&tags);
    let wheel_bytes = text_bytes(wheel_text.as_str());
    let mut files: Vec<ArchiveFile> = Vec::new();
    files.push(ArchiveFile { path: art_name, data: artifact });
    files.push(ArchiveFile { path: metadata_path, data: metadata_bytes });
    files.push(ArchiveFile { path: wheel_path, data: wheel_bytes });
    proof {
        assert(files_view(files@) =~= content_files_view(
            tag@,
            *meta,
            module@,
            opt_str_view(abi),
            naming,
            artifact@,
        ));
    }
    let sorted = sort_files(files);
    let mut rows = rows_for_files(&sorted);
    insert_entry_sorted(
        &mut rows,
        ArchiveEntry { path: record_path.clone(), digest: None, size: None },
    );
    let record_text = render_record(&rows);
    let record_bytes = text_bytes(record_text.as_str());
    let mut files2 = sorted;
    insert_file_sorted(&mut files2, ArchiveFile { path: record_path, data: record_bytes });
    let wheel_name = wheel_filename(meta.name.as_str(), meta.version.as_str(), tag);
    ArchivePlan { wheel_name, files: files2, rows }
}

/// Archive construction is reproducible: the planned files and manifest
/// rows are pure functions of the tag, metadata, module name, ABI
/// component, naming convention and artifact bytes, so two plans built from
/// identical inputs agree file for file and row for row.
pub proof fn lemma_plan_reproducible(
    tag: Seq<char>,
    m: MetadataRecord,
    module: Seq<char>,
    abi: Option<Seq<char>>,
    naming: LibraryNaming,
    artifact: Seq<u8>,
    p1: ArchivePlan,
    p2: ArchivePlan,
)
    requires
        files_view(p1.files@) == plan_files_view(tag, m, module, abi, naming, artifact),
        entries_view(p1.rows@) == plan_rows_view(tag, m, module, abi, naming, artifact),
        files_view(p2.files@) == plan_files_view(tag, m, module, abi, naming, artifact),
        entries_view(p2.rows@) == plan_rows_view(tag, m, module, abi, naming, artifact),
    ensures
        files_view(p1.files@) == files_view(p2.files@),
        entries_view(p1.rows@) == entries_view(p2.rows@),
{
}

/// Manifest integrity: the manifest holds one row per archive file plus its
/// own. Every row except the manifest's own is the row of one content file —
/// that file's path, a non-empty `sha256=` digest of the file's bytes, and
/// the file's exact raw byte length — and the manifest's own row carries
/// empty digest and size fields.
pub proof fn lemma_manifest_rows(
    tag: Seq<char>,
    m: MetadataRecord,
    module: Seq<char>,
    abi: Option<Seq<char>>,
    naming: LibraryNaming,
    artifact: Seq<u8>,
)
    ensures
        plan_rows_view(tag, m, module, abi, naming, artifact).len() == sorted_content_view(
            tag,
            m,
            module,
            abi,
            naming,
            artifact,
        ).len() + 1,
        plan_rows_view(tag, m, module, abi, naming, artifact).contains(
            (record_path_chars(m), Option::<Seq<char>>::None, Option::<u64>::None),
        ),
        forall|i: int|
            0 <= i < plan_rows_view(tag, m, module, abi, naming, artifact).len()
                ==> #[trigger] plan_rows_view(tag, m, module, abi, naming, artifact)[i] == (
                record_path_chars(m),
                Option::<Seq<char>>::None,
                Option::<u64>::None,
            ) || exists|j: int|
                0 <= j < sorted_content_view(tag, m, module, abi, naming, artifact).len()
                    && plan_rows_view(tag, m, module, abi, naming, artifact)[i] == (
                    #[trigger] sorted_content_view(tag, m, module, abi, naming, artifact)[j].0,
                    Some(
                        digest_chars(
                            sorted_content_view(tag, m, module, abi, naming, artifact)[j].1,
                        ),
                    ),
                    Some(
                        sorted_content_view(tag, m, module, abi, naming, artifact)[j].1.len()
                            as u64,
                    ),
                ),
        forall|i: int|
            0 <= i < plan_rows_view(tag, m, module, abi, naming, artifact).len() ==> (
            match (#[trigger] plan_rows_view(tag, m, module, abi, naming, artifact)[i]).1 {
                Some(d) => d.len() > 0,
                None => true,
            }),
{
    let files = sorted_content_view(tag, m, module, abi, naming, artifact);
    let self_row = (record_path_chars(m), Option::<Seq<char>>::None, Option::<u64>::None);
    let rows = plan_rows_view(tag, m, module, abi, naming, artifact);
    crate::sorting::lemma_insert_by_elems(entry_leq(), self_row, rows_of(files));
    proof_strlit_sha256();
    assert forall|i: int| 0 <= i < rows.len() implies #[trigger] rows[i] == self_row || exists|
        j: int,
    |
        0 <= j < files.len() && rows[i] == (
            #[trigger] files[j].0,
            Some(digest_chars(files[j].1)),
            Some(files[j].1.len() as u64),
        ) by {
        if rows[i] != self_row {
            assert(rows_of(files).contains(rows[i]));
            let j = choose|j: int| 0 <= j < rows_of(files).len() && rows_of(files)[j] == rows[i];
            assert(rows_of(files)[j] == (
                files[j].0,
                Some(digest_chars(files[j].1)),
                Some(files[j].1.len() as u64),
            ));
        }
    }
    assert forall|i: int| 0 <= i < rows.len() implies (match (#[trigger] rows[i]).1 {
        Some(d) => d.len() > 0,
        None => true,
    }) by {
        if rows[i] != self_row {
            assert(rows_of(files).contains(rows[i]));
            let j = choose|j: int| 0 <= j < rows_of(files).len() && rows_of(files)[j] == rows[i];
            assert(rows[i].1 == Some(digest_chars(files[j].1)));
            assert(digest_chars(files[j].1).len() >= "sha256="@.len());
        }
    }
}

proof fn proof_strlit_sha256()
    ensures
        "sha256="@.len() == 7,
{
    reveal_strlit("sha256=");
}

/// The archive's deterministic-order invariant: the planned files stand in
/// lexicographically sorted order by internal path, the manifest included.
pub proof fn lemma_plan_files_sorted(
    tag: Seq<char>,
    m: MetadataRecord,
    module: Seq<char>,
    abi: Option<Seq<char>>,
    naming: LibraryNaming,
    artifact: Seq<u8>,
)
    ensures
        vstd::relations::sorted_by(
            plan_files_view(tag, m, module, abi, naming, artifact),
            file_leq(),
        ),
{
    let leq = file_leq();
    assert forall|x: (Seq<char>, Seq<u8>), y: (Seq<char>, Seq<u8>)| #[trigger]
        leq(x, y) || #[trigger] leq(y, x) by {
        crate::sorting::lemma_lex_le_total(x.0, y.0);
    }
    assert forall|x: (Seq<char>, Seq<u8>), y: (Seq<char>, Seq<u8>), z: (Seq<char>, Seq<u8>)|
        #[trigger] leq(x, y) && #[trigger] leq(y, z) implies leq(x, z) by {
        crate::sorting::lemma_lex_le_trans(x.0, y.0, z.0);
    }
    crate::sorting::lemma_sorted_ins_sorted(
        leq,
        content_files_view(tag, m, module, abi, naming, artifact),
    );
    crate::sorting::lemma_insert_by_sorted(
        leq,
        (
            record_path_chars(m),
            encode_utf8(record_chars(plan_rows_view(tag, m, module, abi, naming, artifact))),
        ),
        sorted_content_view(tag, m, module, abi, naming, artifact),
    );
}

} // verus!
