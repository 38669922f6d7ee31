use vstd::prelude::*;
use vstd::string::StringSliceAdditionalSpecFns;
use vstd::utf8::{decode_utf8_encode_utf8, encode_utf8, valid_utf8};

use crate::bytes::{copy_range, ends_with, push_all, seq_ends_with};
use crate::search::CLASS_SUFFIX;
use crate::tar::{tar_entries, tar_entries_spec, tar_entry_view, tar_entry_views, TarEntry, TarEntryView};
use crate::textcodec::{
    decode_name, decode_text, decoded_spec, gbk_decoding, name_text_spec, utf8_lossy, utf8_lossy_text,
    TextEncoding,
};

verus! {

/// What `flate2::read::GzDecoder` gives when read to the end: the
/// decompressed bytes, or `None` when it reports an error.
pub uninterp spec fn gunzip_result(bytes: Seq<u8>) -> Option<Seq<u8>>;

/// Relies on `flate2::read::GzDecoder` read to the end: the outcome depends
/// on the bytes alone.
#[verifier::external_body]
fn gunzip(bytes: &[u8]) -> (r: Option<Vec<u8>>)
    ensures
        r.is_some() == gunzip_result(bytes@).is_some(),
        r matches Some(d) ==> gunzip_result(bytes@) == Some(d@),
{
    let mut out = Vec::new();
    match std::io::Read::read_to_end(&mut flate2::read::GzDecoder::new(bytes), &mut out) {
        Ok(_) => Some(out),
        Err(_) => None,
    }
}

/// A member of a zip archive: whether it is a regular file, its raw name,
/// and its content, or `None` when the content could not be read.
pub struct ZipMember {
    pub is_file: bool,
    pub name: Vec<u8>,
    pub data: Option<Vec<u8>>,
}

pub type ZipMemberView = (bool, Seq<u8>, Option<Seq<u8>>);

pub open spec fn zip_member_view(m: ZipMember) -> ZipMemberView {
    (
        m.is_file,
        m.name@,
        match m.data {
            Some(d) => Some(d@),
            None => None,
        },
    )
}

/// What `zip::ZipArchive` lists for an archive, member by member in
/// central-directory order; `None` when the archive, or the raw record of a
/// member, cannot be read.
pub uninterp spec fn zip_members_of(bytes: Seq<u8>) -> Option<Seq<ZipMemberView>>;

/// Relies on `zip::ZipArchive::new`, `by_index`, `by_index_raw`,
/// `ZipFile::is_file`, `name_raw` and reading a member to the end. Flag and
/// name come from the raw record, so a member that `by_index` cannot open
/// (an encrypted one, say) is listed without content.
#[verifier::external_body]
fn zip_members(bytes: &[u8]) -> (r: Option<Vec<ZipMember>>)
    ensures
        r.is_some() == zip_members_of(bytes@).is_some(),
        r matches Some(v) ==> zip_members_of(bytes@) == Some(v@.map_values(|m: ZipMember| zip_member_view(m))),
{
    let mut archive = zip::ZipArchive::new(std::io::Cursor::new(bytes)).ok()?;
    let mut members = Vec::new();
    for i in 0..archive.len() {
        let mut data = Vec::new();
        let read = match archive.by_index(i) {
            Ok(mut file) => std::io::Read::read_to_end(&mut file, &mut data).is_ok(),
            Err(_) => false,
        };
        let raw = archive.by_index_raw(i).ok()?;
        members.push(ZipMember { is_file: raw.is_file(), name: raw.name_raw().to_vec(), data: read.then_some(data) });
    }
    Some(members)
}


/// How an entry is read, decided from its name.
#[derive(Clone, Copy, Debug, PartialEq, Eq, Structural)]
pub enum Format {
    Zip,
    Gzip,
    Tar,
    Class,
    Text,
}

/// Why an entry gave no text.
#[derive(Clone, Copy, Debug, PartialEq, Eq, Structural)]
pub enum SkipReason {
    /// The container bytes could not be read as that container, or an entry
    /// of it is cut short.
    BadContainer,
    /// A member's content could not be read.
    UnreadableEntry,
    /// Neither UTF-8 nor GBK reads the bytes as text.
    NotText,
    /// Containers are nested deeper than the traversal follows.
    TooDeep,
}

/// A leaf of the traversal, with its path from the scan root.
pub enum Artifact {
    Text { path: Vec<u8>, text: String, encoding: TextEncoding },
    Compiled { path: Vec<u8>, data: Vec<u8> },
    Skipped { path: Vec<u8>, reason: SkipReason },
}

impl Artifact {
    pub open spec fn path_spec(&self) -> Seq<u8> {
        match self {
            Artifact::Text { path, .. } => path@,
            Artifact::Compiled { path, .. } => path@,
            Artifact::Skipped { path, .. } => path@,
        }
    }

    /// The path from the scan root, as bytes.
    pub fn path(&self) -> (r: &Vec<u8>)
        ensures
            r@ == self.path_spec(),
    {
        match self {
            Artifact::Text { path, .. } => path,
            Artifact::Compiled { path, .. } => path,
            Artifact::Skipped { path, .. } => path,
        }
    }

    /// The path from the scan root, as text.
    pub fn path_text(&self) -> (r: String)
        ensures
            r@ == utf8_lossy_text(self.path_spec()),
    {
        utf8_lossy(self.path().as_slice())
    }
}

pub enum ArtifactView {
    Text(Seq<u8>, Seq<char>, TextEncoding),
    Compiled(Seq<u8>, Seq<u8>),
    Skipped(Seq<u8>, SkipReason),
}

pub open spec fn artifact_view(a: Artifact) -> ArtifactView {
    match a {
        Artifact::Text { path, text, encoding } => ArtifactView::Text(path@, text@, encoding),
        Artifact::Compiled { path, data } => ArtifactView::Compiled(path@, data@),
        Artifact::Skipped { path, reason } => ArtifactView::Skipped(path@, reason),
    }
}

pub open spec fn artifact_views(v: Seq<Artifact>) -> Seq<ArtifactView> {
    v.map_values(|a: Artifact| artifact_view(a))
}

/// Deepest container nesting that the traversal opens. Every level consumes
/// its parent's bytes, but a crafted archive could nest without end; entries
/// below this depth are reported as skipped (`SkipReason::TooDeep`) rather
/// than opened.
pub const MAX_NESTING: usize = 32;

pub const ZIP_SUFFIX: &'static str = ".zip";

pub const WAR_SUFFIX: &'static str = ".war";

pub const JAR_SUFFIX: &'static str = ".jar";

pub const GZ_SUFFIX: &'static str = ".gz";

pub const TAR_SUFFIX: &'static str = ".tar";

pub const TAR_GZ_SUFFIX: &'static str = ".tar.gz";

pub open spec fn format_of(name: Seq<u8>) -> Format {
    if seq_ends_with(name, ZIP_SUFFIX.spec_bytes()) || seq_ends_with(name, WAR_SUFFIX.spec_bytes())
        || seq_ends_with(name, JAR_SUFFIX.spec_bytes()) {
        Format::Zip
    } else if seq_ends_with(name, GZ_SUFFIX.spec_bytes()) {
        Format::Gzip
    } else if seq_ends_with(name, TAR_SUFFIX.spec_bytes()) {
        Format::Tar
    } else if seq_ends_with(name, CLASS_SUFFIX.spec_bytes()) {
        Format::Class
    } else {
        Format::Text
    }
}

/// Picks the reader for an entry from its name's extension.
pub fn format_for(name: &[u8]) -> (r: Format)
    ensures
        r == format_of(name@),
{
    if ends_with(name, ZIP_SUFFIX.as_bytes()) || ends_with(name, WAR_SUFFIX.as_bytes())
        || ends_with(name, JAR_SUFFIX.as_bytes()) {
        Format::Zip
    } else if ends_with(name, GZ_SUFFIX.as_bytes()) {
        Format::Gzip
    } else if ends_with(name, TAR_SUFFIX.as_bytes()) {
        Format::Tar
    } else if ends_with(name, CLASS_SUFFIX.as_bytes()) {
        Format::Class
    } else {
        Format::Text
    }
}

/// The path of an inner entry: the parent's path, `/`, the entry's name.
pub open spec fn join_spec(parent: Seq<u8>, name: Seq<u8>) -> Seq<u8> {
    parent + seq![47u8] + name
}

pub fn join_path(parent: &[u8], name: &[u8]) -> (r: Vec<u8>)
    ensures
        r@ == join_spec(parent@, name@),
{
    let mut r = copy_range(parent, 0, parent.len());
    assert(parent@.subrange(0, parent@.len() as int) =~= parent@);
    r.push(47);
    push_all(&mut r, name);
    assert(r@ =~= join_spec(parent@, name@));
    r
}

pub open spec fn text_artifact(path: Seq<u8>, data: Seq<u8>) -> Seq<ArtifactView> {
    match decoded_spec(data) {
        None => seq![ArtifactView::Skipped(path, SkipReason::NotText)],
        Some(d) => seq![ArtifactView::Text(path, d.0, d.1)],
    }
}

/// The leaves that an entry unfolds to, read as `fmt`, with `fuel` more
/// container levels allowed.
pub open spec fn unpack_as(fmt: Format, path: Seq<u8>, data: Seq<u8>, fuel: nat) -> Seq<
    ArtifactView,
>
    decreases fuel, 0nat, 0nat,
{
    match fmt {
        Format::Text => text_artifact(path, data),
        Format::Class => seq![ArtifactView::Compiled(path, data)],
        _ => if fuel == 0 {
            seq![ArtifactView::Skipped(path, SkipReason::TooDeep)]
        } else {
            match fmt {
                Format::Zip => match zip_members_of(data) {
                    None => seq![ArtifactView::Skipped(path, SkipReason::BadContainer)],
                    Some(ms) => zip_artifacts(path, ms, ms.len() as nat, (fuel - 1) as nat),
                },
                Format::Tar => {
                    let es = tar_entries_spec(data);
                    tar_artifacts(path, es, es.len() as nat, (fuel - 1) as nat)
                },
                _ => match gunzip_result(data) {
                    None => seq![ArtifactView::Skipped(path, SkipReason::BadContainer)],
                    Some(d) => gunzipped_artifacts(path, d, (fuel - 1) as nat),
                },
            }
        },
    }
}

/// Decompressed gzip content: a tar when the name says `.tar.gz`, else a zip
/// when it reads as one, else another gzip layer when it decompresses, else
/// text.
pub open spec fn gunzipped_artifacts(path: Seq<u8>, d: Seq<u8>, fuel: nat) -> Seq<ArtifactView>
    decreases fuel, 1nat, 0nat,
{
    if seq_ends_with(path, TAR_GZ_SUFFIX.spec_bytes()) {
        unpack_as(Format::Tar, path, d, fuel)
    } else if zip_members_of(d).is_some() {
        unpack_as(Format::Zip, path, d, fuel)
    } else if gunzip_result(d).is_some() {
        unpack_as(Format::Gzip, path, d, fuel)
    } else {
        text_artifact(path, d)
    }
}

pub open spec fn member_path(parent: Seq<u8>, raw_name: Seq<u8>) -> Seq<u8> {
    join_spec(parent, encode_utf8(name_text_spec(raw_name)))
}

/// Leaves of the first `n` zip members; directories and links give none.
pub open spec fn zip_artifacts(path: Seq<u8>, ms: Seq<ZipMemberView>, n: nat, fuel: nat) -> Seq<
    ArtifactView,
>
    decreases fuel, 1nat, n,
{
    if n == 0 || n > ms.len() {
        seq![]
    } else {
        let m = ms[n - 1];
        let p = member_path(path, m.1);
        zip_artifacts(path, ms, (n - 1) as nat, fuel) + if !m.0 {
            seq![]
        } else {
            match m.2 {
                None => seq![ArtifactView::Skipped(p, SkipReason::UnreadableEntry)],
                Some(c) => unpack_as(format_of(p), p, c, fuel),
            }
        }
    }
}

/// Leaves of the first `n` tar entries; an entry cut short by the end of
/// the archive is skipped as a damaged container.
pub open spec fn tar_artifacts(path: Seq<u8>, es: Seq<TarEntryView>, n: nat, fuel: nat) -> Seq<
    ArtifactView,
>
    decreases fuel, 1nat, n,
{
    if n == 0 || n > es.len() {
        seq![]
    } else {
        let p = join_spec(path, es[n - 1].0);
        tar_artifacts(path, es, (n - 1) as nat, fuel) + match es[n - 1].1 {
            None => seq![ArtifactView::Skipped(p, SkipReason::BadContainer)],
            Some(c) => unpack_as(format_of(p), p, c, fuel),
        }
    }
}

fn text_artifact_exec(path: &[u8], data: &[u8]) -> (r: Vec<Artifact>)
    ensures
        artifact_views(r@) == text_artifact(path@, data@),
{
    let mut out: Vec<Artifact> = Vec::new();
    let p = copy_range(path, 0, path.len());
    assert(path@.subrange(0, path@.len() as int) =~= path@);
    match decode_text(data) {
        None => out.push(Artifact::Skipped { path: p, reason: SkipReason::NotText }),
        Some(d) => out.push(Artifact::Text { path: p, text: d.text, encoding: d.encoding }),
    }
    assert(artifact_views(out@) =~= text_artifact(path@, data@));
    out
}

fn single(a: Artifact) -> (r: Vec<Artifact>)
    ensures
        artifact_views(r@) == seq![artifact_view(a)],
{
    let mut out: Vec<Artifact> = Vec::new();
    out.push(a);
    assert(artifact_views(out@) =~= seq![artifact_view(a)]);
    out
}

fn append_artifacts(out: &mut Vec<Artifact>, more: Vec<Artifact>)
    ensures
        artifact_views(final(out)@) == artifact_views(old(out)@) + artifact_views(more@),
{
    let mut more = more;
    let ghost a = old(out)@;
    let ghost b = more@;
    out.append(&mut more);
    assert(artifact_views(out@) =~= artifact_views(a) + artifact_views(b));
}

fn unpack_exec(fmt: Format, path: &[u8], data: &[u8], fuel: usize) -> (r: Vec<Artifact>)
    ensures
        artifact_views(r@) == unpack_as(fmt, path@, data@, fuel as nat),
    decreases fuel, 0nat, 0nat,
{
    let p = copy_range(path, 0, path.len());
    assert(path@.subrange(0, path@.len() as int) =~= path@);
    assert(data@.subrange(0, data@.len() as int) =~= data@);
    match fmt {
        Format::Text => text_artifact_exec(path, data),
        Format::Class => single(
            Artifact::Compiled { path: p, data: copy_range(data, 0, data.len()) },
        ),
        _ => {
            if fuel == 0 {
                return single(Artifact::Skipped { path: p, reason: SkipReason::TooDeep });
            }
            match fmt {
                Format::Zip => match zip_members(data) {
                    None => single(Artifact::Skipped { path: p, reason: SkipReason::BadContainer }),
                    Some(ms) => {
                        assert(ms@.map_values(|m: ZipMember| zip_member_view(m)).len() == ms@.len());
                        unpack_zip_members(path, &ms, fuel - 1)
                    },
                },
                Format::Tar => {
                    let es = tar_entries(data);
                    assert(tar_entry_views(es@).len() == es@.len());
                    tar_artifacts_exec(path, &es, fuel - 1)
                },
                _ => match gunzip(data) {
                    None => single(Artifact::Skipped { path: p, reason: SkipReason::BadContainer }),
                    Some(d) => {
                        unpack_gunzipped(path, d.as_slice(), fuel - 1)
                    },
                },
            }
        },
    }
}

/// Unfolds the decompressed content of a gzip file at `path`, with `fuel`
/// more container levels allowed.
pub fn unpack_gunzipped(path: &[u8], d: &[u8], fuel: usize) -> (r: Vec<Artifact>)
    ensures
        artifact_views(r@) == gunzipped_artifacts(path@, d@, fuel as nat),
    decreases fuel, 1nat, 0nat,
{
    if ends_with(path, TAR_GZ_SUFFIX.as_bytes()) {
        unpack_exec(Format::Tar, path, d, fuel)
    } else if zip_members(d).is_some() {
        unpack_exec(Format::Zip, path, d, fuel)
    } else if gunzip(d).is_some() {
        unpack_exec(Format::Gzip, path, d, fuel)
    } else {
        text_artifact_exec(path, d)
    }
}

/// Unfolds the members of a zip archive at `path`, in order, with `fuel`
/// more container levels allowed.
pub fn unpack_zip_members(path: &[u8], ms: &Vec<ZipMember>, fuel: usize) -> (r: Vec<Artifact>)
    ensures
        artifact_views(r@) == zip_artifacts(
            path@,
            ms@.map_values(|m: ZipMember| zip_member_view(m)),
            ms@.len() as nat,
            fuel as nat,
        ),
    decreases fuel, 1nat, ms@.len(),
{
    let ghost mv = ms@.map_values(|m: ZipMember| zip_member_view(m));
    let mut out: Vec<Artifact> = Vec::new();
    let mut k: usize = 0;
    assert(artifact_views(out@) =~= seq![]);
    while k < ms.len()
        invariant
            k <= ms@.len(),
            mv == ms@.map_values(|m: ZipMember| zip_member_view(m)),
            artifact_views(out@) == zip_artifacts(path@, mv, k as nat, fuel as nat),
        decreases ms@.len() - k,
    {
        let m = &ms[k];
        assert(mv[k as int] == zip_member_view(*m));
        if m.is_file {
            let name = decode_name(m.name.as_slice());
            let p = join_path(path, name.as_str().as_bytes());
            match &m.data {
                None => {
                    let more = single(Artifact::Skipped { path: p, reason: SkipReason::UnreadableEntry });
                    append_artifacts(&mut out, more);
                },
                Some(c) => {
                    let fmt = format_for(p.as_slice());
                    let more = unpack_exec(fmt, p.as_slice(), c.as_slice(), fuel);
                    append_artifacts(&mut out, more);
                },
            }
        } else {
            assert(artifact_views(out@) + seq![] =~= artifact_views(out@));
        }
        k = k + 1;
    }
    out
}

fn tar_artifacts_exec(path: &[u8], es: &Vec<TarEntry>, fuel: usize) -> (r: Vec<Artifact>)
    ensures
        artifact_views(r@) == tar_artifacts(
            path@,
            tar_entry_views(es@),
            es@.len() as nat,
            fuel as nat,
        ),
    decreases fuel, 1nat, es@.len(),
{
    let ghost ev = tar_entry_views(es@);
    let mut out: Vec<Artifact> = Vec::new();
    let mut k: usize = 0;
    assert(artifact_views(out@) =~= seq![]);
    while k < es.len()
        invariant
            k <= es@.len(),
            ev == tar_entry_views(es@),
            artifact_views(out@) == tar_artifacts(path@, ev, k as nat, fuel as nat),
        decreases es@.len() - k,
    {
        let e = &es[k];
        assert(ev[k as int] == tar_entry_view(*e));
        let p = join_path(path, e.name.as_slice());
        match &e.data {
            None => {
                let more = single(Artifact::Skipped { path: p, reason: SkipReason::BadContainer });
                append_artifacts(&mut out, more);
            },
            Some(c) => {
                let fmt = format_for(p.as_slice());
                let more = unpack_exec(fmt, p.as_slice(), c.as_slice(), fuel);
                append_artifacts(&mut out, more);
            },
        }
        k = k + 1;
    }
    out
}

/// Unfolds a file found under the scan root into the texts, compiled
/// classes and skipped entries it holds; `path` is its path from the root.
pub fn unpack_file(path: &[u8], data: &[u8]) -> (r: Vec<Artifact>)
    ensures
        artifact_views(r@) == unpack_as(format_of(path@), path@, data@, MAX_NESTING as nat),
{
    let fmt = format_for(path);
    unpack_exec(fmt, path, data, MAX_NESTING)
}

/// Bytes that are not UTF-8 but that GBK reads without malformed sequences
/// reach matching as their GBK text.
pub proof fn gbk_text_reaches_matching(path: Seq<u8>, data: Seq<u8>, fuel: nat)
    requires
        !valid_utf8(data),
        !gbk_decoding(data).1,
    ensures
        unpack_as(Format::Text, path, data, fuel) == seq![
            ArtifactView::Text(path, gbk_decoding(data).0, TextEncoding::Gbk),
        ],
{
}

/// A text file inside a zip (or war or jar) archive is reported under the
/// archive's path, `/`, and the member's name.
pub proof fn zip_member_path(
    outer: Seq<u8>,
    zip_bytes: Seq<u8>,
    name: Seq<u8>,
    text: Seq<u8>,
    fuel: nat,
)
    requires
        fuel >= 1,
        valid_utf8(name),
        zip_members_of(zip_bytes) == Some(seq![(true, name, Some(text))]),
        format_of(join_spec(outer, name)) == Format::Text,
    ensures
        unpack_as(Format::Zip, outer, zip_bytes, fuel) == text_artifact(join_spec(outer, name), text),
{
    decode_utf8_encode_utf8(name);
    let ms = seq![(true, name, Some(text))];
    let p = join_spec(outer, name);
    assert(member_path(outer, ms[0].1) == p);
    assert(unpack_as(format_of(p), p, text, (fuel - 1) as nat) == text_artifact(p, text));
    assert(zip_artifacts(outer, ms, 0, (fuel - 1) as nat) =~= seq![]);
    assert(zip_artifacts(outer, ms, 1, (fuel - 1) as nat) == zip_artifacts(
        outer,
        ms,
        0,
        (fuel - 1) as nat,
    ) + text_artifact(p, text));
    assert(seq![] + text_artifact(p, text) =~= text_artifact(p, text));
}

/// A gzip file whose content is neither a tar by name, nor a zip, nor
/// another gzip layer is reported as text under the gzip file's own path.
pub proof fn gzip_text_path(path: Seq<u8>, gz_bytes: Seq<u8>, text: Seq<u8>, fuel: nat)
    requires
        fuel >= 1,
        gunzip_result(gz_bytes) == Some(text),
        !seq_ends_with(path, TAR_GZ_SUFFIX.spec_bytes()),
        zip_members_of(text) is None,
        gunzip_result(text) is None,
    ensures
        unpack_as(Format::Gzip, path, gz_bytes, fuel) == text_artifact(path, text),
{
}

/// A text file inside a tar archive is reported under the archive's path,
/// `/`, and the entry's name.
pub proof fn tar_entry_path(outer: Seq<u8>, tar_bytes: Seq<u8>, name: Seq<u8>, text: Seq<u8>, fuel: nat)
    requires
        fuel >= 1,
        tar_entries_spec(tar_bytes) == seq![(name, Some(text))],
        format_of(join_spec(outer, name)) == Format::Text,
    ensures
        unpack_as(Format::Tar, outer, tar_bytes, fuel) == text_artifact(join_spec(outer, name), text),
{
    let es = seq![(name, Some(text))];
    let p = join_spec(outer, name);
    assert(unpack_as(format_of(p), p, text, (fuel - 1) as nat) == text_artifact(p, text));
    assert(tar_artifacts(outer, es, 0, (fuel - 1) as nat) =~= seq![]);
    assert(tar_artifacts(outer, es, 1, (fuel - 1) as nat) == tar_artifacts(
        outer,
        es,
        0,
        (fuel - 1) as nat,
    ) + text_artifact(p, text));
    assert(seq![] + text_artifact(p, text) =~= text_artifact(p, text));
}

/// A zip holding a `.tar.gz` that holds a text file reports that text under
/// a path that names every level, joined by `/`.
pub proof fn nested_levels_join_in_path(
    outer: Seq<u8>,
    zip_bytes: Seq<u8>,
    gz_name: Seq<u8>,
    gz_bytes: Seq<u8>,
    tar_bytes: Seq<u8>,
    inner: Seq<u8>,
    text: Seq<u8>,
    fuel: nat,
)
    requires
        fuel >= 3,
        valid_utf8(gz_name),
        zip_members_of(zip_bytes) == Some(seq![(true, gz_name, Some(gz_bytes))]),
        format_of(join_spec(outer, gz_name)) == Format::Gzip,
        seq_ends_with(join_spec(outer, gz_name), TAR_GZ_SUFFIX.spec_bytes()),
        gunzip_result(gz_bytes) == Some(tar_bytes),
        tar_entries_spec(tar_bytes) == seq![(inner, Some(text))],
        format_of(join_spec(join_spec(outer, gz_name), inner)) == Format::Text,
    ensures
        unpack_as(Format::Zip, outer, zip_bytes, fuel) == text_artifact(
            join_spec(join_spec(outer, gz_name), inner),
            text,
        ),
{
    decode_utf8_encode_utf8(gz_name);
    let p1 = join_spec(outer, gz_name);
    let p2 = join_spec(p1, inner);
    tar_entry_path(p1, tar_bytes, inner, text, (fuel - 2) as nat);
    assert(unpack_as(Format::Gzip, p1, gz_bytes, (fuel - 1) as nat) == text_artifact(p2, text));
    let ms = seq![(true, gz_name, Some(gz_bytes))];
    assert(zip_artifacts(outer, ms, 0, (fuel - 1) as nat) =~= seq![]);
    assert(seq![] + text_artifact(p2, text) =~= text_artifact(p2, text));
}

} // verus!
