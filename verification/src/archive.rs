//! The archive store: locating a model's archive, extracting it into the
//! tree, deleting the archive, and persisting a content digest.
//!
//! Extraction is destructive and idempotent by directory existence: when the
//! model's directory already exists nothing is touched; otherwise the first
//! match of `{model}.tar.gz` then `{model}.zip` is unpacked, each entry
//! materialized under the base directory (parent directories created
//! recursively), the archive file removed, and the SHA-256 digest of the
//! model's primary weight file written hex-encoded to a side file.

use vstd::prelude::*;

use sha2::Digest;

use crate::fsmodel::{
    join_path, spec_content, spec_is_dir, spec_is_file, spec_join, spec_mkdir, spec_write, FsTree,
    Node,
};

verus! {

/// One entry of an archive: its relative path, whether it is a directory,
/// and its bytes (empty for a directory).
#[derive(Clone, Debug)]
pub struct ArchiveEntry {
    pub path: String,
    pub is_dir: bool,
    pub data: Vec<u8>,
}

/// Which archive format a file holds.
#[derive(Clone, Copy, Debug, PartialEq, Eq, Structural)]
pub enum ArchiveKind {
    TarGz,
    Zip,
}

/// What `ensure_extracted` came to.
#[derive(Clone, Copy, Debug, PartialEq, Eq, Structural)]
pub enum ExtractOutcome {
    /// The model's directory already exists; nothing was touched.
    AlreadyPresent,
    /// An archive was unpacked, deleted, and the digest side file written.
    Extracted,
    /// Neither the directory nor an archive file exists.
    NotFound,
    /// An archive file exists but could not be read as its format.
    Corrupt,
}

/// Why an extraction step failed.
#[derive(Clone, Copy, Debug, PartialEq, Eq, Structural)]
pub enum ExtractError {
    /// The model's directory already exists.
    AlreadyExists,
    /// No archive file for the model exists.
    NotFound,
    /// The archive file could not be read as its format.
    Corrupt,
}

/// The SHA-256 digest of `data`. The digest is a fixed function of the
/// bytes; nothing further is assumed of it.
pub uninterp spec fn spec_sha256(data: Seq<u8>) -> Seq<u8>;

/// Relies on sha2's Sha256: the digest is a function of the input bytes
/// alone and is 32 bytes long.
#[verifier::external_body]
pub(crate) fn sha256_digest(data: &Vec<u8>) -> (r: Vec<u8>)
    ensures
        r@ == spec_sha256(data@),
        r@.len() == 32,
{
    sha2::Sha256::digest(data.as_slice()).as_slice().to_vec()
}

/// The entry list a gzipped tar stream parses to, when it is well formed:
/// a fixed function of the bytes alone.
pub uninterp spec fn spec_tar_gz_entries(bytes: Seq<u8>) -> Option<Seq<ArchiveEntry>>;

/// The entry list a zip file parses to, its names already sanitized, when
/// it is well formed: a fixed function of the bytes alone.
pub uninterp spec fn spec_zip_entries(bytes: Seq<u8>) -> Option<Seq<ArchiveEntry>>;

/// Relies on flate2's GzDecoder and tar's Archive: decodes the gzip stream
/// and yields each archive entry's relative path, kind and bytes, in
/// archive order; `None` exactly when the stream is not a well-formed
/// gzipped tar. The result is a function of the bytes alone.
#[verifier::external_body]
fn untar_gz(bytes: &Vec<u8>) -> (r: Option<Vec<ArchiveEntry>>)
    ensures
        match r {
            Some(es) => spec_tar_gz_entries(bytes@) == Some(es@),
            None => spec_tar_gz_entries(bytes@) is None,
        },
{
    let dec = flate2::read::GzDecoder::new(&bytes[..]);
    let mut ar = tar::Archive::new(dec);
    let mut out: Vec<ArchiveEntry> = Vec::new();
    for ent in ar.entries().ok()? {
        let mut ent = ent.ok()?;
        let path = ent.path().ok()?.to_string_lossy().into_owned();
        let is_dir = ent.header().entry_type().is_dir();
        let mut data: Vec<u8> = Vec::new();
        std::io::Read::read_to_end(&mut ent, &mut data).ok()?;
        out.push(ArchiveEntry { path, is_dir, data });
    }
    Some(out)
}

/// Relies on zip's ZipArchive: walks the central directory and yields each
/// entry's relative path, kind and bytes, in index order; `None` when the
/// bytes are not a well-formed zip file. Entry names go through
/// `mangled_name`, which makes absolute paths relative and drops parent-
/// directory components, so a crafted name cannot reach outside the base.
/// The result is a function of the bytes alone.
#[verifier::external_body]
fn unzip(bytes: &Vec<u8>) -> (r: Option<Vec<ArchiveEntry>>)
    ensures
        match r {
            Some(es) => spec_zip_entries(bytes@) == Some(es@),
            None => spec_zip_entries(bytes@) is None,
        },
{
    let cur = std::io::Cursor::new(&bytes[..]);
    let mut ar = zip::ZipArchive::new(cur).ok()?;
    let mut out: Vec<ArchiveEntry> = Vec::new();
    for i in 0..ar.len() {
        let mut f = ar.by_index(i).ok()?;
        let path = f.mangled_name().to_string_lossy().into_owned();
        let is_dir = f.is_dir();
        let mut data: Vec<u8> = Vec::new();
        std::io::Read::read_to_end(&mut f, &mut data).ok()?;
        out.push(ArchiveEntry { path, is_dir, data });
    }
    Some(out)
}

/// The ASCII code of the lower-case hex digit for `n` (`n < 16`).
pub open spec fn spec_hex_digit(n: u8) -> u8 {
    if n < 10 {
        (48 + n) as u8
    } else {
        (87 + n) as u8
    }
}

/// The lower-case hex encoding of `d`, as ASCII bytes: two digits per byte.
pub open spec fn spec_hex_bytes(d: Seq<u8>) -> Seq<u8>
    decreases d.len(),
{
    if d.len() == 0 {
        Seq::empty()
    } else {
        spec_hex_bytes(d.drop_last()) + seq![
            spec_hex_digit(d.last() / 16),
            spec_hex_digit(d.last() % 16),
        ]
    }
}

/// Hex-encode `d` with lower-case digits, two per byte.
pub fn hex_bytes(d: &Vec<u8>) -> (r: Vec<u8>)
    ensures
        r@ == spec_hex_bytes(d@),
{
    let mut r: Vec<u8> = Vec::new();
    let mut i: usize = 0;
    proof {
        assert(d@.take(0) =~= Seq::<u8>::empty());
    }
    while i < d.len()
        invariant
            i <= d@.len(),
            r@ == spec_hex_bytes(d@.take(i as int)),
        decreases d@.len() - i,
    {
        let b = d[i];
        let hi = b / 16;
        let lo = b % 16;
        let hic: u8 = if hi < 10 {
            48 + hi
        } else {
            87 + hi
        };
        let loc: u8 = if lo < 10 {
            48 + lo
        } else {
            87 + lo
        };
        proof {
            assert(d@.take(i + 1).drop_last() =~= d@.take(i as int));
            assert(d@.take(i + 1).last() == d@[i as int]);
        }
        r.push(hic);
        r.push(loc);
        proof {
            assert(r@ =~= spec_hex_bytes(d@.take(i + 1)));
        }
        i = i + 1;
    }
    proof {
        assert(d@.take(d@.len() as int) =~= d@);
    }
    r
}

/// The model's directory path.
pub open spec fn spec_model_dir(base: Seq<char>, model: Seq<char>) -> Seq<char> {
    spec_join(base, model)
}

/// The model's gzipped tar archive path.
pub open spec fn spec_tar_path(base: Seq<char>, model: Seq<char>) -> Seq<char> {
    spec_join(base, model + ".tar.gz"@)
}

/// The model's zip archive path.
pub open spec fn spec_zip_path(base: Seq<char>, model: Seq<char>) -> Seq<char> {
    spec_join(base, model + ".zip"@)
}

/// The model's primary weight file path (fixed convention).
pub open spec fn spec_weight_path(base: Seq<char>, model: Seq<char>) -> Seq<char> {
    spec_join(base, model + "/1/model.onnx"@)
}

/// The digest side file path.
pub open spec fn spec_digest_path(base: Seq<char>, model: Seq<char>) -> Seq<char> {
    spec_join(base, model + ".sha256"@)
}

/// The entry list an archive of this kind parses to.
pub open spec fn spec_entries_for(kind: ArchiveKind, bytes: Seq<u8>) -> Option<Seq<ArchiveEntry>> {
    match kind {
        ArchiveKind::TarGz => spec_tar_gz_entries(bytes),
        ArchiveKind::Zip => spec_zip_entries(bytes),
    }
}

/// The entry list of the archive `ensure_extracted` picks.
pub open spec fn spec_chosen_entries(m: Map<Seq<char>, Node>, base: Seq<char>, model: Seq<char>) -> Option<
    Seq<ArchiveEntry>,
> {
    if spec_is_file(m, spec_tar_path(base, model)) {
        spec_tar_gz_entries(spec_content(m, spec_tar_path(base, model)))
    } else {
        spec_zip_entries(spec_content(m, spec_zip_path(base, model)))
    }
}

/// The archive `ensure_extracted` picks: the tar archive when its file
/// exists, otherwise the zip archive.
pub open spec fn spec_chosen_archive(m: Map<Seq<char>, Node>, base: Seq<char>, model: Seq<char>) -> Seq<char> {
    if spec_is_file(m, spec_tar_path(base, model)) {
        spec_tar_path(base, model)
    } else {
        spec_zip_path(base, model)
    }
}

/// The directory-creation steps an entry path forces: one `mkdir` per `/`,
/// of the path prefix before it, joined under `base`, in order. `i` is how
/// many characters of `rel` have been scanned.
pub open spec fn spec_mkdirs_prefix(
    m: Map<Seq<char>, Node>,
    base: Seq<char>,
    rel: Seq<char>,
    i: int,
) -> Map<Seq<char>, Node>
    decreases i,
{
    if i <= 0 {
        m
    } else if rel[i - 1] == '/' {
        spec_mkdir(spec_mkdirs_prefix(m, base, rel, i - 1), spec_join(base, rel.take(i - 1)))
    } else {
        spec_mkdirs_prefix(m, base, rel, i - 1)
    }
}

/// Materializing one entry: create the parent directories its path names,
/// then the directory itself or the file with its bytes.
pub open spec fn spec_apply_entry(m: Map<Seq<char>, Node>, base: Seq<char>, e: ArchiveEntry) -> Map<
    Seq<char>,
    Node,
> {
    let m1 = spec_mkdirs_prefix(m, base, e.path@, e.path@.len() as int);
    if e.is_dir {
        spec_mkdir(m1, spec_join(base, e.path@))
    } else {
        spec_write(m1, spec_join(base, e.path@), e.data@)
    }
}

/// Materializing the first `k` entries, in order.
pub open spec fn spec_apply_prefix(
    m: Map<Seq<char>, Node>,
    base: Seq<char>,
    es: Seq<ArchiveEntry>,
    k: int,
) -> Map<Seq<char>, Node>
    decreases k,
{
    if k <= 0 {
        m
    } else {
        spec_apply_entry(spec_apply_prefix(m, base, es, k - 1), base, es[k - 1])
    }
}

/// Materializing every entry, in order.
pub open spec fn spec_apply_all(m: Map<Seq<char>, Node>, base: Seq<char>, es: Seq<ArchiveEntry>) -> Map<
    Seq<char>,
    Node,
> {
    spec_apply_prefix(m, base, es, es.len() as int)
}

/// The digest step: when the weight file exists, write the hex encoding of
/// its SHA-256 digest to the side file; otherwise change nothing.
pub open spec fn spec_digest_step(m: Map<Seq<char>, Node>, base: Seq<char>, model: Seq<char>) -> Map<
    Seq<char>,
    Node,
> {
    if spec_is_file(m, spec_weight_path(base, model)) {
        spec_write(
            m,
            spec_digest_path(base, model),
            spec_hex_bytes(spec_sha256(spec_content(m, spec_weight_path(base, model)))),
        )
    } else {
        m
    }
}

/// The whole successful extraction, as a map transformation: materialize
/// the entries, delete the archive file, write the digest side file.
pub open spec fn spec_extract_pipeline(
    m: Map<Seq<char>, Node>,
    base: Seq<char>,
    model: Seq<char>,
    arch: Seq<char>,
    es: Seq<ArchiveEntry>,
) -> Map<Seq<char>, Node> {
    spec_digest_step(spec_apply_all(m, base, es).remove(arch), base, model)
}

/// Create the parent directories one entry path names, then the entry.
fn apply_entry(fs: &mut FsTree, base: &str, e: &ArchiveEntry)
    requires
        old(fs).wf(),
    ensures
        final(fs).wf(),
        final(fs)@ =~= spec_apply_entry(old(fs)@, base@, *e),
{
    let ghost m0 = fs@;
    let n = e.path.as_str().unicode_len();
    let mut i: usize = 0;
    while i < n
        invariant
            i <= n,
            n == e.path@.len(),
            fs.wf(),
            fs@ =~= spec_mkdirs_prefix(m0, base@, e.path@, i as int),
        decreases n - i,
    {
        if e.path.as_str().get_char(i) == '/' {
            let pre = e.path.as_str().substring_char(0, i);
            proof {
                assert(pre@ =~= e.path@.take(i as int));
            }
            let jp = join_path(base, pre);
            fs.mkdir(jp.as_str());
        }
        i = i + 1;
    }
    let full = join_path(base, e.path.as_str());
    if e.is_dir {
        fs.mkdir(full.as_str());
    } else {
        let d = e.data.clone();
        proof {
            assert(d@ =~= e.data@) by {
                assert(forall|k: int| #![all_triggers] 0 <= k < e.data@.len() ==> d@[k] == e.data@[k]);
            }
        }
        fs.write_file(full.as_str(), d);
    }
}

/// Materialize every archive entry under `base`, in order.
pub fn apply_entries(fs: &mut FsTree, base: &str, entries: &Vec<ArchiveEntry>)
    requires
        old(fs).wf(),
    ensures
        final(fs).wf(),
        final(fs)@ =~= spec_apply_all(old(fs)@, base@, entries@),
{
    let ghost m0 = fs@;
    let mut i: usize = 0;
    while i < entries.len()
        invariant
            i <= entries@.len(),
            fs.wf(),
            fs@ =~= spec_apply_prefix(m0, base@, entries@, i as int),
        decreases entries@.len() - i,
    {
        apply_entry(fs, base, &entries[i]);
        i = i + 1;
    }
}

/// Handles extraction of one model's archive into the tree.
#[derive(Clone, Debug)]
pub struct ModelExtractor {
    pub archive_path: String,
    pub output_folder: String,
    pub model_name: String,
    pub archive_kind: ArchiveKind,
}

impl ModelExtractor {
    /// The extractor's paths cohere: the archive path is the tar or the zip
    /// path of its model under its output folder, matching its kind.
    pub open spec fn wf(&self) -> bool {
        match self.archive_kind {
            ArchiveKind::TarGz => self.archive_path@ == spec_tar_path(
                self.output_folder@,
                self.model_name@,
            ),
            ArchiveKind::Zip => self.archive_path@ == spec_zip_path(
                self.output_folder@,
                self.model_name@,
            ),
        }
    }

    /// Locate the model's archive. The model's directory already existing
    /// is reported as `AlreadyExists`; otherwise `{model}.tar.gz` is looked
    /// for first, then `{model}.zip`; neither existing is `NotFound`.
    pub fn new(model_name: &str, base_path: &str, fs: &FsTree) -> (r: Result<
        ModelExtractor,
        ExtractError,
    >)
        ensures
            match r {
                Ok(ex) => {
                    &&& !spec_is_dir(fs@, spec_model_dir(base_path@, model_name@))
                    &&& (spec_is_file(fs@, spec_tar_path(base_path@, model_name@))
                        || spec_is_file(fs@, spec_zip_path(base_path@, model_name@)))
                    &&& ex.wf()
                    &&& ex.model_name@ == model_name@
                    &&& ex.output_folder@ == base_path@
                    &&& ex.archive_path@ == spec_chosen_archive(fs@, base_path@, model_name@)
                    &&& ex.archive_kind == ArchiveKind::TarGz <==> spec_is_file(
                        fs@,
                        spec_tar_path(base_path@, model_name@),
                    )
                },
                Err(ExtractError::AlreadyExists) => spec_is_dir(
                    fs@,
                    spec_model_dir(base_path@, model_name@),
                ),
                Err(ExtractError::NotFound) => {
                    &&& !spec_is_dir(fs@, spec_model_dir(base_path@, model_name@))
                    &&& !spec_is_file(fs@, spec_tar_path(base_path@, model_name@))
                    &&& !spec_is_file(fs@, spec_zip_path(base_path@, model_name@))
                },
                Err(ExtractError::Corrupt) => false,
            },
    {
        let dir = join_path(base_path, model_name);
        if fs.is_dir(dir.as_str()) {
            return Err(ExtractError::AlreadyExists);
        }
        let mut tar_rel = String::from_str(model_name);
        tar_rel.append(".tar.gz");
        let tar_path = join_path(base_path, tar_rel.as_str());
        if fs.is_file(tar_path.as_str()) {
            return Ok(
                ModelExtractor {
                    archive_path: tar_path,
                    output_folder: String::from_str(base_path),
                    model_name: String::from_str(model_name),
                    archive_kind: ArchiveKind::TarGz,
                },
            );
        }
        let mut zip_rel = String::from_str(model_name);
        zip_rel.append(".zip");
        let zip_path = join_path(base_path, zip_rel.as_str());
        if fs.is_file(zip_path.as_str()) {
            return Ok(
                ModelExtractor {
                    archive_path: zip_path,
                    output_folder: String::from_str(base_path),
                    model_name: String::from_str(model_name),
                    archive_kind: ArchiveKind::Zip,
                },
            );
        }
        Err(ExtractError::NotFound)
    }

    /// Unpack the archive into the tree, delete the archive file, and when
    /// the weight file came with it, write its digest to the side file.
    /// Success is owed exactly when the archive file exists and its bytes
    /// parse as the expected format; the resulting tree is the extraction
    /// pipeline of that parse.
    pub fn extract_model(&self, fs: &mut FsTree) -> (r: Result<(), ExtractError>)
        requires
            old(fs).wf(),
            self.wf(),
        ensures
            final(fs).wf(),
            match r {
                Ok(()) => {
                    &&& spec_is_file(old(fs)@, self.archive_path@)
                    &&& spec_entries_for(
                        self.archive_kind,
                        spec_content(old(fs)@, self.archive_path@),
                    ) is Some
                    &&& final(fs)@ =~= spec_extract_pipeline(
                        old(fs)@,
                        self.output_folder@,
                        self.model_name@,
                        self.archive_path@,
                        spec_entries_for(
                            self.archive_kind,
                            spec_content(old(fs)@, self.archive_path@),
                        ).unwrap(),
                    )
                },
                Err(ExtractError::NotFound) => !spec_is_file(old(fs)@, self.archive_path@)
                    && final(fs)@ =~= old(fs)@,
                Err(ExtractError::Corrupt) => {
                    &&& spec_is_file(old(fs)@, self.archive_path@)
                    &&& spec_entries_for(
                        self.archive_kind,
                        spec_content(old(fs)@, self.archive_path@),
                    ) is None
                    &&& final(fs)@ =~= old(fs)@
                },
                Err(ExtractError::AlreadyExists) => false,
            },
    {
        let bytes = match fs.read_file(self.archive_path.as_str()) {
            Some(b) => b,
            None => {
                return Err(ExtractError::NotFound);
            },
        };
        let entries = match self.archive_kind {
            ArchiveKind::TarGz => untar_gz(&bytes),
            ArchiveKind::Zip => unzip(&bytes),
        };
        let entries = match entries {
            Some(es) => es,
            None => {
                return Err(ExtractError::Corrupt);
            },
        };
        let ghost m0 = fs@;
        apply_entries(fs, self.output_folder.as_str(), &entries);
        fs.remove_path(self.archive_path.as_str());
        let mut weight_rel = String::from_str(self.model_name.as_str());
        weight_rel.append("/1/model.onnx");
        let weight_path = join_path(self.output_folder.as_str(), weight_rel.as_str());
        let mut digest_rel = String::from_str(self.model_name.as_str());
        digest_rel.append(".sha256");
        let digest_path = join_path(self.output_folder.as_str(), digest_rel.as_str());
        match fs.read_file(weight_path.as_str()) {
            Some(content) => {
                let digest = sha256_digest(&content);
                let hex = hex_bytes(&digest);
                fs.write_file(digest_path.as_str(), hex);
            },
            None => {},
        }
        proof {
            assert(fs@ =~= spec_extract_pipeline(
                m0,
                self.output_folder@,
                self.model_name@,
                self.archive_path@,
                entries@,
            ));
        }
        Ok(())
    }
}

/// `p` is absent from `m` or bound to a directory.
pub open spec fn spec_absent_or_dir(m: Map<Seq<char>, Node>, p: Seq<char>) -> bool {
    !m.dom().contains(p) || m[p] is Dir
}

/// The entry marks the model's directory: a directory entry at exactly the
/// model path, or any entry strictly below it.
pub open spec fn spec_entry_marks_model(e: ArchiveEntry, model: Seq<char>) -> bool {
    (e.is_dir && e.path@ == model) || (e.path@.len() > model.len() && e.path@.take(
        model.len() as int,
    ) == model && e.path@[model.len() as int] == '/')
}

/// The entry writes a file at exactly the joined path `p`.
pub open spec fn spec_entry_files_at(e: ArchiveEntry, base: Seq<char>, p: Seq<char>) -> bool {
    !e.is_dir && spec_join(base, e.path@) == p
}

proof fn lemma_mkdirs_binding(
    m: Map<Seq<char>, Node>,
    base: Seq<char>,
    rel: Seq<char>,
    i: int,
    p: Seq<char>,
)
    ensures
        m.dom().contains(p) ==> spec_mkdirs_prefix(m, base, rel, i).dom().contains(p)
            && spec_mkdirs_prefix(m, base, rel, i)[p] == m[p],
        (!m.dom().contains(p) && spec_mkdirs_prefix(m, base, rel, i).dom().contains(p))
            ==> spec_mkdirs_prefix(m, base, rel, i)[p] is Dir,
    decreases i,
{
    if i > 0 {
        lemma_mkdirs_binding(m, base, rel, i - 1, p);
    }
}

proof fn lemma_mkdirs_creates(
    m: Map<Seq<char>, Node>,
    base: Seq<char>,
    rel: Seq<char>,
    i: int,
    t: int,
)
    requires
        0 <= t < i <= rel.len(),
        rel[t] == '/',
    ensures
        spec_mkdirs_prefix(m, base, rel, i).dom().contains(spec_join(base, rel.take(t))),
    decreases i,
{
    if t < i - 1 {
        lemma_mkdirs_creates(m, base, rel, i - 1, t);
    }
}

proof fn lemma_apply_entry_absent_or_dir(
    m: Map<Seq<char>, Node>,
    base: Seq<char>,
    e: ArchiveEntry,
    p: Seq<char>,
)
    requires
        spec_absent_or_dir(m, p),
        !spec_entry_files_at(e, base, p),
    ensures
        spec_absent_or_dir(spec_apply_entry(m, base, e), p),
        m.dom().contains(p) ==> spec_apply_entry(m, base, e).dom().contains(p),
{
    lemma_mkdirs_binding(m, base, e.path@, e.path@.len() as int, p);
}

proof fn lemma_apply_entry_creates(
    m: Map<Seq<char>, Node>,
    base: Seq<char>,
    e: ArchiveEntry,
    model: Seq<char>,
)
    requires
        spec_entry_marks_model(e, model),
    ensures
        spec_apply_entry(m, base, e).dom().contains(spec_join(base, model)),
{
    reveal_strlit("/");
    if e.is_dir && e.path@ == model {
    } else {
        let t = model.len() as int;
        lemma_mkdirs_creates(m, base, e.path@, e.path@.len() as int, t);
        assert(e.path@.take(t) == model);
        assert(spec_join(base, e.path@).len() == base.len() + 1 + e.path@.len());
        assert(spec_join(base, model).len() == base.len() + 1 + model.len());
    }
}

proof fn lemma_apply_prefix_model_dir(
    m: Map<Seq<char>, Node>,
    base: Seq<char>,
    es: Seq<ArchiveEntry>,
    k: int,
    model: Seq<char>,
)
    requires
        0 <= k <= es.len(),
        spec_absent_or_dir(m, spec_join(base, model)),
        forall|j: int|
            0 <= j < es.len() ==> !spec_entry_files_at(#[trigger] es[j], base, spec_join(base, model)),
    ensures
        spec_absent_or_dir(spec_apply_prefix(m, base, es, k), spec_join(base, model)),
        (exists|j: int| 0 <= j < k && spec_entry_marks_model(#[trigger] es[j], model))
            ==> spec_apply_prefix(m, base, es, k).dom().contains(spec_join(base, model)),
    decreases k,
{
    if k > 0 {
        lemma_apply_prefix_model_dir(m, base, es, k - 1, model);
        let prev = spec_apply_prefix(m, base, es, k - 1);
        lemma_apply_entry_absent_or_dir(prev, base, es[k - 1], spec_join(base, model));
        if exists|j: int| 0 <= j < k && spec_entry_marks_model(#[trigger] es[j], model) {
            let j = choose|j: int| 0 <= j < k && spec_entry_marks_model(#[trigger] es[j], model);
            if j == k - 1 {
                lemma_apply_entry_creates(prev, base, es[k - 1], model);
            } else {
                assert(exists|j2: int|
                    0 <= j2 < k - 1 && spec_entry_marks_model(#[trigger] es[j2], model));
            }
        }
    }
}

/// Sequence concatenation cancels on the left.
proof fn lemma_concat_cancel_left(a: Seq<char>, b: Seq<char>, c: Seq<char>)
    requires
        a + b == a + c,
    ensures
        b == c,
{
    assert((a + b).len() == a.len() + b.len());
    assert((a + c).len() == a.len() + c.len());
    assert(b =~= (a + b).subrange(a.len() as int, (a + b).len() as int));
    assert(c =~= (a + c).subrange(a.len() as int, (a + c).len() as int));
}

/// Two different relative names join to two different paths.
proof fn lemma_join_neq(base: Seq<char>, x: Seq<char>, y: Seq<char>)
    requires
        x != y,
    ensures
        spec_join(base, x) != spec_join(base, y),
{
    if spec_join(base, x) == spec_join(base, y) {
        lemma_concat_cancel_left(base + "/"@, x, y);
    }
}

/// A successful extraction of an archive that carries the model's directory
/// (an entry at the model path or strictly below it, and no file entry at
/// exactly the model path) leaves the model directory in place and the
/// chosen archive file gone. By the contract of `ensure_extracted`, an
/// immediate second run on the resulting tree therefore reports
/// `AlreadyPresent` and changes nothing.
pub proof fn lemma_extract_once_then_present(
    m: Map<Seq<char>, Node>,
    base: Seq<char>,
    model: Seq<char>,
    arch: Seq<char>,
    es: Seq<ArchiveEntry>,
)
    requires
        spec_absent_or_dir(m, spec_join(base, model)),
        exists|j: int| 0 <= j < es.len() && spec_entry_marks_model(#[trigger] es[j], model),
        forall|j: int|
            0 <= j < es.len() ==> !spec_entry_files_at(#[trigger] es[j], base, spec_join(base, model)),
        arch == spec_tar_path(base, model) || arch == spec_zip_path(base, model),
    ensures
        spec_is_dir(spec_extract_pipeline(m, base, model, arch, es), spec_join(base, model)),
        !spec_extract_pipeline(m, base, model, arch, es).dom().contains(arch),
{
    reveal_strlit("/");
    reveal_strlit(".tar.gz");
    reveal_strlit(".zip");
    reveal_strlit(".sha256");
    let dp = spec_join(base, model);
    let ddp = spec_digest_path(base, model);
    lemma_apply_prefix_model_dir(m, base, es, es.len() as int, model);
    let ma = spec_apply_all(m, base, es);
    assert(ma.dom().contains(dp) && ma[dp] is Dir);
    assert(arch != dp) by {
        assert((model + ".tar.gz"@).len() == model.len() + 7);
        assert((model + ".zip"@).len() == model.len() + 4);
        lemma_join_neq(base, model + ".tar.gz"@, model);
        lemma_join_neq(base, model + ".zip"@, model);
    }
    assert(ddp != dp) by {
        assert((model + ".sha256"@).len() == model.len() + 7);
        lemma_join_neq(base, model + ".sha256"@, model);
    }
    assert(ddp != arch) by {
        if arch == spec_tar_path(base, model) {
            assert((".sha256"@)[1] == 's' && (".tar.gz"@)[1] == 't');
            assert(model + ".sha256"@ != model + ".tar.gz"@) by {
                if model + ".sha256"@ == model + ".tar.gz"@ {
                    lemma_concat_cancel_left(model, ".sha256"@, ".tar.gz"@);
                }
            }
            lemma_join_neq(base, model + ".sha256"@, model + ".tar.gz"@);
        } else {
            assert((model + ".sha256"@).len() == model.len() + 7);
            assert((model + ".zip"@).len() == model.len() + 4);
            lemma_join_neq(base, model + ".sha256"@, model + ".zip"@);
        }
    }
    let mr = ma.remove(arch);
    assert(spec_is_dir(mr, dp));
    assert(!mr.dom().contains(arch));
    assert(spec_is_dir(spec_digest_step(mr, base, model), dp));
    assert(!spec_digest_step(mr, base, model).dom().contains(arch));
}

/// Ensure the model is present on disk: skip when its directory exists,
/// otherwise unpack the first archive found, delete it, and persist the
/// weight file's digest. Extraction is owed exactly when no directory
/// exists, an archive file does, and its bytes parse; the resulting tree
/// is the extraction pipeline of that parse.
pub fn ensure_extracted(fs: &mut FsTree, model_name: &str, base_dir: &str) -> (r: ExtractOutcome)
    requires
        old(fs).wf(),
    ensures
        final(fs).wf(),
        (r == ExtractOutcome::AlreadyPresent) <==> spec_is_dir(
            old(fs)@,
            spec_model_dir(base_dir@, model_name@),
        ),
        (r == ExtractOutcome::NotFound) <==> {
            &&& !spec_is_dir(old(fs)@, spec_model_dir(base_dir@, model_name@))
            &&& !spec_is_file(old(fs)@, spec_tar_path(base_dir@, model_name@))
            &&& !spec_is_file(old(fs)@, spec_zip_path(base_dir@, model_name@))
        },
        (r == ExtractOutcome::Extracted) <==> {
            &&& !spec_is_dir(old(fs)@, spec_model_dir(base_dir@, model_name@))
            &&& (spec_is_file(old(fs)@, spec_tar_path(base_dir@, model_name@)) || spec_is_file(
                old(fs)@,
                spec_zip_path(base_dir@, model_name@),
            ))
            &&& spec_chosen_entries(old(fs)@, base_dir@, model_name@) is Some
        },
        (r == ExtractOutcome::AlreadyPresent || r == ExtractOutcome::NotFound || r
            == ExtractOutcome::Corrupt) ==> final(fs)@ =~= old(fs)@,
        (r == ExtractOutcome::Extracted) ==> final(fs)@ =~= spec_extract_pipeline(
            old(fs)@,
            base_dir@,
            model_name@,
            spec_chosen_archive(old(fs)@, base_dir@, model_name@),
            spec_chosen_entries(old(fs)@, base_dir@, model_name@).unwrap(),
        ),
{
    match ModelExtractor::new(model_name, base_dir, fs) {
        Err(ExtractError::AlreadyExists) => ExtractOutcome::AlreadyPresent,
        Err(ExtractError::NotFound) => ExtractOutcome::NotFound,
        Err(ExtractError::Corrupt) => {
            proof {
                assert(false);
            }
            ExtractOutcome::Corrupt
        },
        Ok(ex) => {
            proof {
                if ex.archive_kind == ArchiveKind::TarGz {
                    assert(spec_is_file(fs@, ex.archive_path@));
                } else {
                    assert(spec_is_file(fs@, ex.archive_path@));
                }
            }
            match ex.extract_model(fs) {
                Ok(()) => ExtractOutcome::Extracted,
                Err(_) => ExtractOutcome::Corrupt,
            }
        },
    }
}

} // verus!
