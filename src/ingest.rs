//! Ingestion of one upload: length checks, extension and identifier
//! assignment, content hashing and the record that makes a blob live.
use vstd::prelude::*;
use crate::expiry::{compute_expiry, expiry_of, LATEST_UPLOAD_TIME};
use crate::records::{FileRecord, MetadataStore, RecordView};

verus! {

/// Number of random characters in an identifier.
pub const LINK_CHARS: usize = 6;

/// The largest declared upload length that is accepted: 512 MiB.
pub const MAX_UPLOAD_BYTES: u64 = 536870912;

/// Why an upload was refused.
#[derive(Clone, Copy, Debug, PartialEq, Eq, Structural)]
pub enum UploadError {
    /// The request declared no length.
    LengthRequired,
    /// The declared length is over [`MAX_UPLOAD_BYTES`].
    PayloadTooLarge,
    /// The request holds no file part.
    BadRequest,
}

/// One file part of an upload request.
pub struct FilePart {
    /// The name the client gave the file.
    pub filename: String,
    /// The file's bytes.
    pub bytes: Vec<u8>,
}

/// What an accepted upload carries forward to identifier assignment and
/// recording.
pub struct PreparedUpload {
    /// Extension of the uploaded file name.
    pub extension: String,
    /// Hex digest of the uploaded bytes.
    pub content_hash: String,
}

/// The hex SHA-1 digest of a byte sequence.
pub uninterp spec fn sha1_hex(bytes: Seq<u8>) -> Seq<char>;

/// A lowercase hexadecimal digit.
pub open spec fn is_lower_hex(c: char) -> bool {
    ('0' <= c && c <= '9') || ('a' <= c && c <= 'f')
}

/// Forty lowercase hexadecimal digits, the printed form of a SHA-1 digest.
pub open spec fn is_sha1_hex(s: Seq<char>) -> bool {
    s.len() == 40 && forall|i: int| 0 <= i < s.len() ==> is_lower_hex(#[trigger] s[i])
}

/// Relies on `sha1::Sha1` (`new`, `update`, `digest`, and `Display` of the
/// digest): the hex SHA-1 digest of the bytes, which depends on them alone;
/// `Display` prints the five state words as eight lowercase hex digits each.
#[verifier::external_body]
fn sha1_hex_digest(bytes: &[u8]) -> (r: String)
    ensures
        r@ == sha1_hex(bytes@),
        is_sha1_hex(r@),
{
    let mut m = sha1::Sha1::new();
    m.update(bytes);
    m.digest().to_string()
}

/// An ASCII letter or digit.
pub open spec fn is_link_char(c: char) -> bool {
    ('a' <= c && c <= 'z') || ('A' <= c && c <= 'Z') || ('0' <= c && c <= '9')
}

/// A well-formed random part of an identifier.
pub open spec fn is_link_stem(s: Seq<char>) -> bool {
    s.len() == LINK_CHARS && forall|i: int| 0 <= i < s.len() ==> is_link_char(#[trigger] s[i])
}

/// Relies on `rand`'s `Alphanumeric` distribution drawn from `OsRng`
/// through `DistString::sample_string`: `n` characters, each an ASCII letter
/// or digit.
#[verifier::external_body]
fn random_alphanumeric(n: usize) -> (r: String)
    ensures
        r@.len() == n,
        forall|i: int| 0 <= i < n ==> is_link_char(#[trigger] r@[i]),
{
    rand::distributions::DistString::sample_string(
        &rand::distributions::Alphanumeric,
        &mut rand::rngs::OsRng,
        n,
    )
}

/// Position of the last `.` among the first `n` characters of `s`, or -1.
pub open spec fn last_dot_before(s: Seq<char>, n: int) -> int
    decreases n,
{
    if n <= 0 {
        -1
    } else if s[n - 1] == '.' {
        n - 1
    } else {
        last_dot_before(s, n - 1)
    }
}

/// The extension of a file name: what follows its last `.`, or nothing when
/// it holds no `.`.
pub open spec fn extension_spec(name: Seq<char>) -> Seq<char> {
    let d = last_dot_before(name, name.len() as int);
    if d < 0 {
        Seq::empty()
    } else {
        name.subrange(d + 1, name.len() as int)
    }
}

/// The identifier made of a random stem and an extension.
pub open spec fn identifier_spec(stem: Seq<char>, ext: Seq<char>) -> Seq<char> {
    stem + seq!['.'] + ext
}

/// The path under which a stored file is served.
pub open spec fn public_path_spec(id: Seq<char>) -> Seq<char> {
    seq!['/', 'f', 'i', 'l', 'e', '/'] + id
}

/// The extension of `filename`: the text after its last `.`, empty when
/// there is none.
pub fn extension_of(filename: &str) -> (r: String)
    ensures
        r@ == extension_spec(filename@),
{
    let n = filename.unicode_len();
    let mut i: usize = n;
    while i > 0
        invariant
            i <= n,
            n == filename@.len(),
            last_dot_before(filename@, n as int) == last_dot_before(filename@, i as int),
        decreases i,
    {
        if filename.get_char(i - 1) == '.' {
            return String::from_str(filename.substring_char(i, n));
        }
        i = i - 1;
    }
    String::new()
}

/// The identifier `stem.ext`.
pub fn make_identifier(stem: &str, ext: &str) -> (r: String)
    ensures
        r@ == identifier_spec(stem@, ext@),
{
    let mut r = String::from_str(stem);
    r.append(".");
    r.append(ext);
    proof {
        reveal_strlit(".");
        assert("."@ =~= seq!['.']);
    }
    r
}

/// The path under which the file stored as `id` is served.
pub fn public_path(id: &str) -> (r: String)
    ensures
        r@ == public_path_spec(id@),
{
    let mut r = String::from_str("/file/");
    r.append(id);
    proof {
        reveal_strlit("/file/");
        assert("/file/"@ =~= seq!['/', 'f', 'i', 'l', 'e', '/']);
    }
    r
}

/// Checks the declared length of an upload: it must be present and at most
/// [`MAX_UPLOAD_BYTES`].
pub fn check_declared_length(declared: Option<u64>) -> (r: Result<u64, UploadError>)
    ensures
        declared is None ==> r == Err::<u64, UploadError>(UploadError::LengthRequired),
        declared matches Some(n) ==> (n > MAX_UPLOAD_BYTES ==> r == Err::<u64, UploadError>(
            UploadError::PayloadTooLarge,
        )),
        declared matches Some(n) ==> (n <= MAX_UPLOAD_BYTES ==> r == Ok::<u64, UploadError>(n)),
{
    match declared {
        None => Err(UploadError::LengthRequired),
        Some(n) => if n > MAX_UPLOAD_BYTES {
            Err(UploadError::PayloadTooLarge)
        } else {
            Ok(n)
        },
    }
}

/// The outcome of validating an upload, before anything is hashed.
pub open spec fn upload_check(declared: Option<u64>, has_file: bool) -> Result<(), UploadError> {
    match declared {
        None => Err(UploadError::LengthRequired),
        Some(n) => if n > MAX_UPLOAD_BYTES {
            Err(UploadError::PayloadTooLarge)
        } else if !has_file {
            Err(UploadError::BadRequest)
        } else {
            Ok(())
        },
    }
}

/// Validates an upload and computes what identifier assignment and recording
/// need: the file's extension and the digest of its bytes. Touches no store.
pub fn prepare_upload(declared: Option<u64>, file: Option<&FilePart>) -> (r: Result<
    PreparedUpload,
    UploadError,
>)
    ensures
        r is Ok <==> upload_check(declared, file is Some) is Ok,
        r matches Err(e) ==> upload_check(declared, file is Some) == Err::<(), UploadError>(e),
        declared is None ==> r == Err::<PreparedUpload, UploadError>(UploadError::LengthRequired),
        r matches Ok(p) ==> {
            let f = file->0;
            &&& p.extension@ == extension_spec(f.filename@)
            &&& p.content_hash@ == sha1_hex(f.bytes@)
            &&& is_sha1_hex(p.content_hash@)
        },
{
    match check_declared_length(declared) {
        Err(e) => Err(e),
        Ok(_) => match file {
            None => Err(UploadError::BadRequest),
            Some(f) => {
                let extension = extension_of(f.filename.as_str());
                let content_hash = sha1_hex_digest(f.bytes.as_slice());
                Ok(PreparedUpload { extension, content_hash })
            },
        },
    }
}

impl MetadataStore {
    /// The identifier `stem.ext` when no live record holds it.
    pub fn candidate_identifier(&self, stem: &str, ext: &str) -> (r: Option<String>)
        requires
            self.wf(),
        ensures
            r is Some <==> !self@.contains_key(identifier_spec(stem@, ext@)),
            r matches Some(id) ==> id@ == identifier_spec(stem@, ext@),
    {
        let id = make_identifier(stem, ext);
        if self.contains(&id) {
            None
        } else {
            Some(id)
        }
    }

    /// Draws one random identifier with extension `ext`: `Ok` with it when no
    /// live record holds it, `Err` with it when one does, so that the caller
    /// draws again.
    pub fn draw_identifier(&self, ext: &str) -> (r: Result<String, String>)
        requires
            self.wf(),
        ensures
            r matches Ok(id) ==> !self@.contains_key(id@),
            r matches Err(id) ==> self@.contains_key(id@),
            exists|stem: Seq<char>|
                is_link_stem(stem) && match r {
                    Ok(id) => id@ == identifier_spec(stem, ext@),
                    Err(id) => id@ == identifier_spec(stem, ext@),
                },
    {
        let stem = random_alphanumeric(LINK_CHARS);
        let id = make_identifier(stem.as_str(), ext);
        proof {
            assert(is_link_stem(stem@));
        }
        if self.contains(&id) {
            Err(id)
        } else {
            Ok(id)
        }
    }

    /// Records a stored blob: `id` now maps to the blob's digest and the
    /// expiry that `keyword` selects from `now`. Returns the path under
    /// which the file is served.
    pub fn record_upload(&mut self, id: String, content_hash: String, keyword: &str, now: i64) -> (r:
        String)
        requires
            old(self).wf(),
            now <= LATEST_UPLOAD_TIME,
        ensures
            final(self).wf(),
            final(self)@ == old(self)@.insert(
                id@,
                RecordView { content_hash: content_hash@, expiry: expiry_of(keyword@, now as int) },
            ),
            final(self)@[id@].expiry > now,
            r@ == public_path_spec(id@),
    {
        let expiry = compute_expiry(keyword, now);
        let path = public_path(id.as_str());
        self.put(id, FileRecord { content_hash, expiry });
        path
    }
}

proof fn lemma_assigned_stay(
    stores: Seq<Map<Seq<char>, RecordView>>,
    ids: Seq<Seq<char>>,
    recs: Seq<RecordView>,
    j: int,
)
    requires
        stores.len() == ids.len() + 1,
        recs.len() == ids.len(),
        forall|i: int|
            0 <= i < ids.len() ==> #[trigger] stores[i + 1] == stores[i].insert(ids[i], recs[i]),
        0 <= j <= ids.len(),
    ensures
        forall|i: int| 0 <= i < j ==> #[trigger] stores[j].contains_key(ids[i]),
    decreases j,
{
    if j > 0 {
        lemma_assigned_stay(stores, ids, recs, j - 1);
        let k = j - 1;
        assert(stores[k + 1] == stores[k].insert(ids[k], recs[k]));
    }
}

/// Identifiers assigned by a run of uploads, each drawn free against the
/// store of its moment and recorded before the next is drawn, are pairwise
/// distinct, and the final store holds every one of them.
pub proof fn lemma_sequential_identifiers_distinct(
    stores: Seq<Map<Seq<char>, RecordView>>,
    ids: Seq<Seq<char>>,
    recs: Seq<RecordView>,
)
    requires
        stores.len() == ids.len() + 1,
        recs.len() == ids.len(),
        forall|i: int| 0 <= i < ids.len() ==> !#[trigger] stores[i].contains_key(ids[i]),
        forall|i: int|
            0 <= i < ids.len() ==> #[trigger] stores[i + 1] == stores[i].insert(ids[i], recs[i]),
    ensures
        forall|i: int, j: int| 0 <= i < j < ids.len() ==> ids[i] != ids[j],
        forall|i: int| 0 <= i < ids.len() ==> stores[ids.len() as int].contains_key(ids[i]),
{
    assert forall|i: int, j: int| 0 <= i < j < ids.len() implies ids[i] != ids[j] by {
        lemma_assigned_stay(stores, ids, recs, j);
        assert(stores[j].contains_key(ids[i]));
        assert(!stores[j].contains_key(ids[j]));
    }
    lemma_assigned_stay(stores, ids, recs, ids.len() as int);
}

/// After bytes are accepted and recorded under `id` at `now`, looking up
/// `id` finds the digest of exactly those bytes and an expiry after `now`.
pub proof fn lemma_upload_round_trip(
    m: Map<Seq<char>, RecordView>,
    id: Seq<char>,
    bytes: Seq<u8>,
    keyword: Seq<char>,
    now: int,
)
    ensures
        ({
            let after = m.insert(
                id,
                RecordView { content_hash: sha1_hex(bytes), expiry: expiry_of(keyword, now) },
            );
            &&& after.contains_key(id)
            &&& after[id].content_hash == sha1_hex(bytes)
            &&& after[id].expiry > now
        }),
{
}

} // verus!
