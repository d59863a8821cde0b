use vstd::prelude::*;
use std::io::Read;
use sha2::Digest;
use crate::consult::{Error, consult};
use crate::grammar::sp_consult;
use crate::term::{TermV, Value, view_terms};
use crate::token::{erl_scan, lexical};

verus! {

/// The 256-bit content digest of a byte stream: a function of the
/// exact bytes alone.
pub uninterp spec fn sha256_of(data: Seq<u8>) -> Seq<u8>;

/// The entry list a tar reader derives from a byte stream: names and
/// contents in archive order, entries whose header cannot be read left
/// out; `None` when the stream is not a readable archive. A function
/// of the bytes alone.
pub uninterp spec fn tar_entries(data: Seq<u8>) -> Option<Seq<(Seq<char>, Seq<u8>)>>;

/// The characters of a byte sequence read as UTF-8; `None` when the
/// bytes are not valid UTF-8.
pub uninterp spec fn utf8_decode(data: Seq<u8>) -> Option<Seq<char>>;

/// Relies on sha2::Sha256 (through digest::Digest::digest): the
/// 256-bit digest of exactly the bytes given, 32 bytes long.
#[verifier::external_body]
fn sha256(data: &Vec<u8>) -> (r: Vec<u8>)
    ensures
        r@ == sha256_of(data@),
        r@.len() == 32,
{
    sha2::Sha256::digest(data.as_slice()).to_vec()
}

/// Relies on tar::Archive: walks the entries of a tar stream read from
/// a byte buffer, in archive order, skipping any entry whose header or
/// path cannot be read, and hands out each entry's path and content.
#[verifier::external_body]
fn tar_list(data: &Vec<u8>) -> (r: Option<Vec<(String, Vec<u8>)>>)
    ensures
        r matches Some(v) ==> tar_entries(data@) == Some(v.deep_view()),
        r is None ==> tar_entries(data@) is None,
{
    let mut ar = tar::Archive::new(std::io::Cursor::new(data.as_slice()));
    let mut out: Vec<(String, Vec<u8>)> = Vec::new();
    let entries = ar.entries().ok()?;
    for e in entries.filter_map(|x| x.ok()) {
        let mut e = e;
        let Some(p) = e.path().ok().and_then(|p| p.to_str().map(|s| s.to_owned())) else {
            continue;
        };
        let mut buf: Vec<u8> = Vec::new();
        if e.read_to_end(&mut buf).is_err() {
            continue;
        }
        out.push((p, buf));
    }
    Some(out)
}

/// Relies on String::from_utf8: `Some` of the decoded text exactly
/// when the bytes are valid UTF-8.
#[verifier::external_body]
fn utf8_to_string(data: &Vec<u8>) -> (r: Option<String>)
    ensures
        r matches Some(s) ==> utf8_decode(data@) == Some(s@),
        r is None ==> utf8_decode(data@) is None,
{
    String::from_utf8(data.clone()).ok()
}

/// Relies on str::eq: equality of the character sequences.
#[verifier::external_body]
fn str_eq(a: &str, b: &str) -> (r: bool)
    ensures
        r == (a@ == b@),
{
    a == b
}

/// Relies on Vec::clone: an equal byte vector.
#[verifier::external_body]
fn bytes_clone(v: &Vec<u8>) -> (r: Vec<u8>)
    ensures
        r@ == v@,
{
    v.clone()
}

/// Why verifying an archive failed.
#[derive(Debug)]
pub enum UnpackError {
    /// The byte stream is not a readable tar archive.
    Archive,
    /// The format-version entry was empty where one byte was required.
    EmptyVersion,
    /// The format-version entry held this byte instead of the
    /// supported version.
    UnsupportedVersion(u8),
    /// No format-version entry was seen.
    MissingVersion,
    /// No metadata entry was seen.
    MissingMetadata,
    /// The metadata entry was not valid UTF-8 text.
    InvalidUtf8,
    /// The metadata entry did not parse as term forms.
    Metadata(Error),
}

/// What verifying an archive yields.
#[derive(Debug)]
pub struct Unpacked {
    /// The whole-archive digest of the exact bytes supplied, for the
    /// caller to compare against a separately obtained expected value.
    pub checksum: Vec<u8>,
    /// The parsed forms of the metadata entry, in source order (of the
    /// last such entry, where several occur).
    pub metadata: Vec<Value>,
    /// The raw bytes of the nested content archive, when one was seen.
    pub contents: Option<Vec<u8>>,
}

/// A scan failure, at the specification level. The one parse failure
/// whose exact value the tokenizer keeps to itself is the lexical one;
/// it is told apart from an exact parse error.
pub enum ScanErr {
    EmptyVersion,
    UnsupportedVersion(u8),
    InvalidUtf8,
    MetadataLex,
    MetadataParse(Error),
}

/// Scans the entries from index `i` with the state gathered so far:
/// the format-version entry must hold the single supported byte; the
/// metadata entry must decode as UTF-8 and parse as term forms; the
/// nested content archive is kept as bytes; the deprecated inner
/// checksum entry and unknown entries are read and ignored.
pub open spec fn sp_scan(
    es: Seq<(Seq<char>, Seq<u8>)>,
    i: int,
    seen_version: bool,
    meta: Option<Seq<TermV>>,
    contents: Option<Seq<u8>>,
) -> Result<(bool, Option<Seq<TermV>>, Option<Seq<u8>>), ScanErr>
    decreases es.len() - i
        when 0 <= i <= es.len()
{
    if i >= es.len() {
        Ok((seen_version, meta, contents))
    } else {
        let name = es[i].0;
        let bytes = es[i].1;
        if name == "VERSION"@ {
            if bytes.len() == 0 {
                Err(ScanErr::EmptyVersion)
            } else if bytes[0] != 51 {
                Err(ScanErr::UnsupportedVersion(bytes[0]))
            } else {
                sp_scan(es, i + 1, true, meta, contents)
            }
        } else if name == "metadata.config"@ {
            match utf8_decode(bytes) {
                Option::None => Err(ScanErr::InvalidUtf8),
                Option::Some(text) => match erl_scan(text) {
                    Option::None => Err(ScanErr::MetadataLex),
                    Option::Some(raw) => match sp_consult(lexical(raw), 0) {
                        Result::Err(e) => Err(ScanErr::MetadataParse(e)),
                        Result::Ok(vs) => sp_scan(es, i + 1, seen_version, Some(vs), contents),
                    },
                },
            }
        } else if name == "contents.tar.gz"@ {
            sp_scan(es, i + 1, seen_version, meta, Some(bytes))
        } else {
            sp_scan(es, i + 1, seen_version, meta, contents)
        }
    }
}

/// Relates a scan failure to the error the verifier returns: exact,
/// except that a lexical failure's rendered report is not specified.
pub open spec fn scan_err_matches(ev: ScanErr, r: Result<Unpacked, UnpackError>) -> bool {
    match ev {
        ScanErr::EmptyVersion => r == Err::<Unpacked, UnpackError>(UnpackError::EmptyVersion),
        ScanErr::UnsupportedVersion(b) => r == Err::<Unpacked, UnpackError>(
            UnpackError::UnsupportedVersion(b),
        ),
        ScanErr::InvalidUtf8 => r == Err::<Unpacked, UnpackError>(UnpackError::InvalidUtf8),
        ScanErr::MetadataLex => (r matches Err(UnpackError::Metadata(e))
            && e is TokenizerError),
        ScanErr::MetadataParse(e) => r == Err::<Unpacked, UnpackError>(UnpackError::Metadata(e)),
    }
}

/// The whole contract of verifying one archive's bytes.
pub open spec fn unpack_post(data: Seq<u8>, r: Result<Unpacked, UnpackError>) -> bool {
    match tar_entries(data) {
        Option::None => r == Err::<Unpacked, UnpackError>(UnpackError::Archive),
        Option::Some(es) => match sp_scan(es, 0, false, Option::None, Option::None) {
            Result::Err(ev) => scan_err_matches(ev, r),
            Result::Ok((seen_version, meta, contents)) => if !seen_version {
                r == Err::<Unpacked, UnpackError>(UnpackError::MissingVersion)
            } else {
                match meta {
                    Option::None => r == Err::<Unpacked, UnpackError>(UnpackError::MissingMetadata),
                    Option::Some(ms) => (r matches Ok(u)
                        && u.checksum@ == sha256_of(data)
                        && view_terms(u.metadata@) == ms
                        && match contents {
                            Option::None => u.contents is None,
                            Option::Some(cs) => u.contents matches Some(c) && c@ == cs,
                        }),
                }
            },
        },
    }
}

/// The views of the gathered exec state, for relating the walk to the
/// specification scan.
pub open spec fn meta_view(m: Option<Vec<Value>>) -> Option<Seq<TermV>> {
    match m {
        Option::Some(v) => Option::Some(view_terms(v@)),
        Option::None => Option::None,
    }
}

pub open spec fn cont_view(c: Option<Vec<u8>>) -> Option<Seq<u8>> {
    match c {
        Option::Some(v) => Option::Some(v@),
        Option::None => Option::None,
    }
}

/// Verifies one package archive given as bytes: computes the
/// whole-archive digest, walks the tar entries in order, validates the
/// format-version entry, parses the metadata entry through `consult`,
/// and keeps the nested content archive's bytes. Succeeds exactly when
/// the walk accepts a format-version entry and parses a metadata
/// entry; the digest is handed back for the caller to compare, never
/// judged here.
#[verifier::loop_isolation(false)]
pub fn unpack(data: &Vec<u8>) -> (r: Result<Unpacked, UnpackError>)
    ensures
        unpack_post(data@, r),
{
    let checksum = sha256(data);
    let entries = match tar_list(data) {
        Some(es) => es,
        None => {
            return Err(UnpackError::Archive);
        },
    };
    let ghost es = entries.deep_view();
    let mut seen_version = false;
    let mut metadata: Option<Vec<Value>> = None;
    let mut contents: Option<Vec<u8>> = None;
    let n = entries.len();
    for k in 0..n
        invariant
            n == entries@.len(),
            sp_scan(es, 0, false, Option::None, Option::None)
                == sp_scan(es, k as int, seen_version, meta_view(metadata), cont_view(contents)),
    {
        proof {
            assert(es[k as int].0 == entries@[k as int].0@);
            assert(es[k as int].1 =~= entries@[k as int].1@);
        }
        if str_eq(entries[k].0.as_str(), "VERSION") {
            if entries[k].1.len() == 0 {
                return Err(UnpackError::EmptyVersion);
            }
            let b = entries[k].1[0];
            if b != 51 {
                return Err(UnpackError::UnsupportedVersion(b));
            }
            seen_version = true;
        } else if str_eq(entries[k].0.as_str(), "metadata.config") {
            let text = match utf8_to_string(&entries[k].1) {
                Some(t) => t,
                None => {
                    return Err(UnpackError::InvalidUtf8);
                },
            };
            let forms = match consult(text.as_str()) {
                Ok(f) => f,
                Err(e) => {
                    return Err(UnpackError::Metadata(e));
                },
            };
            metadata = Some(forms);
        } else if str_eq(entries[k].0.as_str(), "contents.tar.gz") {
            contents = Some(bytes_clone(&entries[k].1));
        }
        // Any other entry, the deprecated inner checksum included, is
        // read and ignored.
    }
    if !seen_version {
        return Err(UnpackError::MissingVersion);
    }
    let m = match metadata {
        Some(m) => m,
        None => {
            return Err(UnpackError::MissingMetadata);
        },
    };
    Ok(Unpacked { checksum, metadata: m, contents })
}

/// Verifying byte-identical streams is deterministic: two runs that
/// both succeed hand back the same whole-archive digest.
pub proof fn lemma_unpack_deterministic(
    d: Seq<u8>,
    r1: Result<Unpacked, UnpackError>,
    r2: Result<Unpacked, UnpackError>,
)
    requires
        unpack_post(d, r1),
        unpack_post(d, r2),
    ensures
        (r1 is Ok && r2 is Ok) ==> r1->Ok_0.checksum@ == r2->Ok_0.checksum@,
{
}

/// A metadata entry's bytes that decode as UTF-8, tokenize, and parse
/// as term forms.
pub open spec fn md_ok(bytes: Seq<u8>) -> bool {
    match utf8_decode(bytes) {
        Option::None => false,
        Option::Some(text) => match erl_scan(text) {
            Option::None => false,
            Option::Some(raw) => sp_consult(lexical(raw), 0) is Ok,
        },
    }
}

/// Scanning entries none of which is a metadata entry gathers no
/// metadata, and sees a version exactly where one stands; it succeeds
/// when every format-version entry holds the supported byte.
pub proof fn lemma_scan_missing_metadata(
    es: Seq<(Seq<char>, Seq<u8>)>,
    i: int,
    seen_version: bool,
    contents: Option<Seq<u8>>,
)
    requires
        0 <= i <= es.len(),
        forall|k: int| i <= k < es.len() ==> (#[trigger] es[k].0) != "metadata.config"@,
        forall|k: int| i <= k < es.len() && (#[trigger] es[k].0) == "VERSION"@
            ==> es[k].1.len() >= 1 && es[k].1[0] == 51,
    ensures
        sp_scan(es, i, seen_version, Option::None, contents) matches Ok((sv, m, c))
            && m is None
            && sv == (seen_version || exists|k: int|
                i <= k < es.len() && (#[trigger] es[k].0) == "VERSION"@),
    decreases es.len() - i,
{
    if i < es.len() {
        if es[i].0 == "VERSION"@ {
            lemma_scan_missing_metadata(es, i + 1, true, contents);
        } else if es[i].0 == "contents.tar.gz"@ {
            lemma_scan_missing_metadata(es, i + 1, seen_version, Some(es[i].1));
        } else {
            lemma_scan_missing_metadata(es, i + 1, seen_version, contents);
        }
    }
}

/// An archive with a valid format-version entry but no metadata entry
/// is rejected with the missing-required-entry failure.
pub proof fn lemma_missing_metadata_rejected(
    data: Seq<u8>,
    es: Seq<(Seq<char>, Seq<u8>)>,
    r: Result<Unpacked, UnpackError>,
)
    requires
        unpack_post(data, r),
        tar_entries(data) == Some(es),
        exists|k: int| 0 <= k < es.len() && (#[trigger] es[k].0) == "VERSION"@,
        forall|k: int| 0 <= k < es.len() ==> (#[trigger] es[k].0) != "metadata.config"@,
        forall|k: int| 0 <= k < es.len() && (#[trigger] es[k].0) == "VERSION"@
            ==> es[k].1.len() >= 1 && es[k].1[0] == 51,
    ensures
        r == Err::<Unpacked, UnpackError>(UnpackError::MissingMetadata),
{
    lemma_scan_missing_metadata(es, 0, false, Option::None);
}

/// Scanning entries that hold a format-version entry with a byte other
/// than the supported one fails with the unsupported-version failure,
/// whenever every format-version entry holds at least one byte and
/// every metadata entry is well-formed.
pub proof fn lemma_scan_bad_version(
    es: Seq<(Seq<char>, Seq<u8>)>,
    i: int,
    seen_version: bool,
    meta: Option<Seq<TermV>>,
    contents: Option<Seq<u8>>,
)
    requires
        0 <= i <= es.len(),
        exists|k: int| i <= k < es.len() && (#[trigger] es[k].0) == "VERSION"@
            && es[k].1.len() >= 1 && es[k].1[0] != 51,
        forall|k: int| i <= k < es.len() && (#[trigger] es[k].0) == "VERSION"@
            ==> es[k].1.len() >= 1,
        forall|k: int| i <= k < es.len() && (#[trigger] es[k].0) == "metadata.config"@
            ==> md_ok(es[k].1),
    ensures
        sp_scan(es, i, seen_version, meta, contents) matches Err(ev)
            && ev is UnsupportedVersion,
    decreases es.len() - i,
{
    let w = choose|k: int| i <= k < es.len() && (#[trigger] es[k].0) == "VERSION"@
        && es[k].1.len() >= 1 && es[k].1[0] != 51;
    if es[i].0 == "VERSION"@ {
        if es[i].1[0] != 51 {
        } else {
            assert(w != i);
            lemma_scan_bad_version(es, i + 1, true, meta, contents);
        }
    } else if es[i].0 == "metadata.config"@ {
        assert(md_ok(es[i].1));
        assert(w != i);
        match utf8_decode(es[i].1) {
            Option::Some(text) => match erl_scan(text) {
                Option::Some(raw) => match sp_consult(lexical(raw), 0) {
                    Result::Ok(vs) => {
                        lemma_scan_bad_version(es, i + 1, seen_version, Some(vs), contents);
                    },
                    Result::Err(_) => {},
                },
                Option::None => {},
            },
            Option::None => {},
        }
    } else if es[i].0 == "contents.tar.gz"@ {
        assert(w != i);
        lemma_scan_bad_version(es, i + 1, seen_version, meta, Some(es[i].1));
    } else {
        assert(w != i);
        lemma_scan_bad_version(es, i + 1, seen_version, meta, contents);
    }
}

/// An archive holding a format-version entry with an unsupported byte
/// is rejected with the unsupported-format-version failure, however
/// well-formed its other entries are.
pub proof fn lemma_bad_version_rejected(
    data: Seq<u8>,
    es: Seq<(Seq<char>, Seq<u8>)>,
    r: Result<Unpacked, UnpackError>,
)
    requires
        unpack_post(data, r),
        tar_entries(data) == Some(es),
        exists|k: int| 0 <= k < es.len() && (#[trigger] es[k].0) == "VERSION"@
            && es[k].1.len() >= 1 && es[k].1[0] != 51,
        forall|k: int| 0 <= k < es.len() && (#[trigger] es[k].0) == "VERSION"@
            ==> es[k].1.len() >= 1,
        forall|k: int| 0 <= k < es.len() && (#[trigger] es[k].0) == "metadata.config"@
            ==> md_ok(es[k].1),
    ensures
        r matches Err(e) && e is UnsupportedVersion,
{
    lemma_scan_bad_version(es, 0, false, Option::None, Option::None);
}

} // verus!
