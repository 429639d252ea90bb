//! Unpacking a downloaded subtitle: the download is usually a ZIP archive
//! holding one `.srt` file; failing that, the payload itself is the text.
//!
//! The archive format is the zip crate's affair, behind trusted items.
//! Parsing and entry reading are deterministic in the archive's bytes, so
//! their outcomes carry names (`zip_names_of`, `zip_opens_of`,
//! `zip_texts_of`), and the contracts here pin, over those names, which
//! entry is chosen, when the result is owed, and when it is an error.

use vstd::prelude::*;
use vstd::slice::slice_to_vec;
use vstd::string::StringExecFns;
use std::io::Read;

verus! {

/// The zip crate's archive, opaque to verification.
#[verifier::external_type_specification]
#[verifier::external_body]
#[verifier::reject_recursive_types(R)]
pub struct ExZipArchive<R>(zip::ZipArchive<R>);

/// The standard in-memory reader the archive is opened over.
#[verifier::external_type_specification]
#[verifier::external_body]
#[verifier::reject_recursive_types(T)]
pub struct ExCursor<T>(std::io::Cursor<T>);

/// Names the outcome of zip::ZipArchive::new on the bytes: the stored
/// entry names, in index order, of the archive the bytes parse as — or
/// nothing when they do not parse.  Parsing is a function of the bytes
/// alone.
pub uninterp spec fn zip_names_of(data: Seq<u8>) -> Option<Seq<Seq<u8>>>;

/// Names, per entry of the archive the bytes parse as, whether opening
/// that entry for reading (zip::ZipArchive::by_index) succeeds — a
/// function of the bytes alone.
pub uninterp spec fn zip_opens_of(data: Seq<u8>) -> Seq<bool>;

/// Names, per entry of the archive the bytes parse as, the entry's
/// decompressed bytes read as UTF-8 text — or nothing where opening,
/// decompression or decoding fails.  A function of the bytes alone.
pub uninterp spec fn zip_texts_of(data: Seq<u8>) -> Seq<Option<Seq<char>>>;

/// Names of an archive value's entries, in index order, as stored bytes.
pub uninterp spec fn zip_entry_names(a: zip::ZipArchive<std::io::Cursor<Vec<u8>>>) -> Seq<Seq<u8>>;

/// Whether opening each entry of an archive value for reading succeeds.
pub uninterp spec fn zip_entry_opens(a: zip::ZipArchive<std::io::Cursor<Vec<u8>>>) -> Seq<bool>;

/// Text of an archive value's entries: each entry's decompressed bytes
/// read as UTF-8, or nothing where opening, decompression or decoding
/// fails.
pub uninterp spec fn zip_entry_texts(a: zip::ZipArchive<std::io::Cursor<Vec<u8>>>) -> Seq<
    Option<Seq<char>>,
>;

/// Relies on zip::ZipArchive::new: reads the central directory of the
/// archive in the given bytes, failing exactly on input it cannot parse;
/// the same bytes always give the same outcome, with the same entries.
#[verifier::external_body]
fn zip_open(data: Vec<u8>) -> (r: Result<zip::ZipArchive<std::io::Cursor<Vec<u8>>>, String>)
    ensures
        r is Ok <==> zip_names_of(data@) is Some,
        r matches Ok(a) ==> {
            &&& zip_names_of(data@) == Some(zip_entry_names(a))
            &&& zip_opens_of(data@) == zip_entry_opens(a)
            &&& zip_texts_of(data@) == zip_entry_texts(a)
            &&& zip_entry_opens(a).len() == zip_entry_names(a).len()
            &&& zip_entry_texts(a).len() == zip_entry_names(a).len()
        },
{
    zip::ZipArchive::new(std::io::Cursor::new(data)).map_err(|e| format!("ZIP error: {}", e))
}

/// Relies on zip::ZipArchive::len: how many entries the archive holds.
#[verifier::external_body]
fn zip_len(a: &zip::ZipArchive<std::io::Cursor<Vec<u8>>>) -> (n: usize)
    ensures
        n == zip_entry_names(*a).len(),
{
    a.len()
}

/// Relies on zip::ZipArchive::by_index and zip::read::ZipFile::name: the
/// stored name of entry `i`, succeeding exactly when the entry opens.
/// Reading moves only the underlying cursor; the entry table is
/// untouched, so the archive's named views are unchanged.
#[verifier::external_body]
fn zip_name_at(a: &mut zip::ZipArchive<std::io::Cursor<Vec<u8>>>, i: usize) -> (r: Result<
    Vec<u8>,
    String,
>)
    requires
        i < zip_entry_names(*old(a)).len(),
    ensures
        zip_entry_names(*final(a)) == zip_entry_names(*old(a)),
        zip_entry_opens(*final(a)) == zip_entry_opens(*old(a)),
        zip_entry_texts(*final(a)) == zip_entry_texts(*old(a)),
        r is Ok <==> zip_entry_opens(*old(a))[i as int],
        r matches Ok(n) ==> n@ == zip_entry_names(*old(a))[i as int],
{
    match a.by_index(i) {
        Ok(f) => Ok(f.name().as_bytes().to_vec()),
        Err(e) => Err(format!("ZIP file error: {}", e)),
    }
}

/// Relies on zip::ZipArchive::by_index and std::io::Read::read_to_string
/// on the returned entry: entry `i`'s decompressed bytes as UTF-8 text,
/// succeeding exactly when opening, decompression and decoding all do.
/// Reading moves only the underlying cursor; the entry table is
/// untouched, so the archive's named views are unchanged.
#[verifier::external_body]
fn zip_text_at(a: &mut zip::ZipArchive<std::io::Cursor<Vec<u8>>>, i: usize) -> (r: Result<
    String,
    String,
>)
    requires
        i < zip_entry_names(*old(a)).len(),
    ensures
        zip_entry_names(*final(a)) == zip_entry_names(*old(a)),
        zip_entry_opens(*final(a)) == zip_entry_opens(*old(a)),
        zip_entry_texts(*final(a)) == zip_entry_texts(*old(a)),
        r is Ok <==> zip_entry_texts(*old(a))[i as int] is Some,
        r matches Ok(s) ==> zip_entry_texts(*old(a))[i as int] == Some(s@),
{
    match a.by_index(i) {
        Ok(mut f) => {
            let mut content = String::new();
            match f.read_to_string(&mut content) {
                Ok(_) => Ok(content),
                Err(e) => Err(format!("Read error: {}", e)),
            }
        },
        Err(e) => Err(format!("ZIP file error: {}", e)),
    }
}

/// An ASCII upper-case letter folded to lower case.
pub open spec fn lower8(b: u8) -> u8 {
    if 65 <= b <= 90 {
        (b + 32) as u8
    } else {
        b
    }
}

fn lower_byte(b: u8) -> (r: u8)
    ensures
        r == lower8(b),
{
    if 65 <= b && b <= 90 {
        b + 32
    } else {
        b
    }
}

/// A name ending in `.srt`, ASCII case-insensitively.
pub open spec fn is_srt_name(name: Seq<u8>) -> bool {
    &&& name.len() >= 4
    &&& name[name.len() - 4] == 46u8
    &&& lower8(name[name.len() - 3]) == 115u8
    &&& lower8(name[name.len() - 2]) == 114u8
    &&& lower8(name[name.len() - 1]) == 116u8
}

/// Whether the entry name picks it as the subtitle file.
pub fn srt_name(name: &[u8]) -> (r: bool)
    ensures
        r == is_srt_name(name@),
{
    let n = name.len();
    if n < 4 {
        return false;
    }
    name[n - 4] == 46 && lower_byte(name[n - 3]) == 115 && lower_byte(name[n - 2]) == 114
        && lower_byte(name[n - 1]) == 116
}

/// Index of the first `.srt` entry among the names at or after `i`, or
/// the length when there is none.
pub open spec fn spec_pick_srt_from(names: Seq<Seq<u8>>, i: int) -> int
    decreases names.len() - i, when 0 <= i
{
    if i >= names.len() {
        names.len() as int
    } else if is_srt_name(names[i]) {
        i
    } else {
        spec_pick_srt_from(names, i + 1)
    }
}

/// Index of the first `.srt` entry, or the length when there is none.
pub open spec fn spec_pick_srt(names: Seq<Seq<u8>>) -> int {
    spec_pick_srt_from(names, 0)
}

/// What `spec_pick_srt_from` returns: the first pick, within bounds.
proof fn lemma_pick_props(names: Seq<Seq<u8>>, i: int)
    requires
        0 <= i <= names.len(),
    ensures
        i <= spec_pick_srt_from(names, i) <= names.len(),
        spec_pick_srt_from(names, i) < names.len() ==> is_srt_name(
            names[spec_pick_srt_from(names, i)],
        ),
        forall|k: int| i <= k < spec_pick_srt_from(names, i) ==> !is_srt_name(names[k]),
    decreases names.len() - i,
{
    if i < names.len() && !is_srt_name(names[i]) {
        lemma_pick_props(names, i + 1);
    }
}

/// Find the first entry whose name ends in `.srt` and return its text.
/// The scan stops at the first pick.  The result is `Ok` exactly when a
/// pick exists, every entry up to it opens, and the pick's text decodes;
/// anything else — no pick, an entry that does not open before or at the
/// pick, a text that does not decode — is the error.
pub fn extract_srt_from_archive(a: &mut zip::ZipArchive<std::io::Cursor<Vec<u8>>>) -> (r: Result<
    String,
    String,
>)
    requires
        zip_entry_opens(*old(a)).len() == zip_entry_names(*old(a)).len(),
        zip_entry_texts(*old(a)).len() == zip_entry_names(*old(a)).len(),
    ensures
        zip_entry_names(*final(a)) == zip_entry_names(*old(a)),
        zip_entry_opens(*final(a)) == zip_entry_opens(*old(a)),
        zip_entry_texts(*final(a)) == zip_entry_texts(*old(a)),
        r is Ok <==> ({
            let j = spec_pick_srt(zip_entry_names(*old(a)));
            &&& j < zip_entry_names(*old(a)).len()
            &&& (forall|k: int| 0 <= k <= j ==> zip_entry_opens(*old(a))[k])
            &&& zip_entry_texts(*old(a))[j] is Some
        }),
        r matches Ok(s) ==> zip_entry_texts(*old(a))[spec_pick_srt(zip_entry_names(*old(a)))]
            == Some(s@),
{
    let n = zip_len(a);
    let mut i: usize = 0;
    while i < n
        invariant
            i <= n,
            n == zip_entry_names(*a).len(),
            zip_entry_names(*a) == zip_entry_names(*old(a)),
            zip_entry_opens(*a) == zip_entry_opens(*old(a)),
            zip_entry_texts(*a) == zip_entry_texts(*old(a)),
            zip_entry_opens(*a).len() == zip_entry_names(*a).len(),
            spec_pick_srt(zip_entry_names(*a)) == spec_pick_srt_from(
                zip_entry_names(*a),
                i as int,
            ),
            forall|k: int| 0 <= k < i ==> zip_entry_opens(*a)[k],
        decreases n - i,
    {
        proof {
            lemma_pick_props(zip_entry_names(*a), i as int);
        }
        let nm = match zip_name_at(a, i) {
            Ok(nm) => nm,
            Err(e) => {
                return Err(e);
            },
        };
        if srt_name(nm.as_slice()) {
            return zip_text_at(a, i);
        }
        i = i + 1;
    }
    Err(String::from_str("No SRT file found in ZIP"))
}

/// Whether the bytes parse as a ZIP archive holding a subtitle that can
/// be taken out: a first `.srt` entry exists, every entry up to it
/// opens, and its text decodes as UTF-8.
pub open spec fn spec_zip_has_subtitle(data: Seq<u8>) -> bool {
    match zip_names_of(data) {
        Some(ns) => {
            let j = spec_pick_srt(ns);
            &&& j < ns.len()
            &&& (forall|k: int| 0 <= k <= j ==> zip_opens_of(data)[k])
            &&& zip_texts_of(data)[j] is Some
        },
        None => false,
    }
}

/// The first `.srt` entry's text, where [`spec_zip_has_subtitle`] holds.
pub open spec fn spec_zip_subtitle_text(data: Seq<u8>) -> Seq<char> {
    match zip_names_of(data) {
        Some(ns) => match zip_texts_of(data)[spec_pick_srt(ns)] {
            Some(t) => t,
            None => Seq::<char>::empty(),
        },
        None => Seq::<char>::empty(),
    }
}

/// Try to read the payload as a ZIP archive and take the first `.srt`
/// entry's text.  The result is `Ok` exactly when the archive holds a
/// takeable subtitle; bytes that do not parse, an archive with no `.srt`
/// entry, and an entry that does not open or decode are the error.
pub fn extract_srt_from_zip(data: &Vec<u8>) -> (r: Result<String, String>)
    ensures
        r is Ok <==> spec_zip_has_subtitle(data@),
        r matches Ok(s) ==> s@ == spec_zip_subtitle_text(data@),
{
    let owned = slice_to_vec(data.as_slice());
    let mut archive = match zip_open(owned) {
        Ok(a) => a,
        Err(e) => {
            return Err(e);
        },
    };
    extract_srt_from_archive(&mut archive)
}

/// Names the result of String::from_utf8_lossy: the text with invalid
/// UTF-8 replaced, a function of the bytes alone.
pub uninterp spec fn lossy_text_of(bytes: Seq<u8>) -> Seq<char>;

/// Relies on String::from_utf8_lossy: decodes the bytes as UTF-8 with
/// replacement characters where they are invalid; empty bytes give empty
/// text.
#[verifier::external_body]
fn bytes_to_text_lossy(b: &Vec<u8>) -> (r: String)
    ensures
        r@ == lossy_text_of(b@),
        b@.len() == 0 ==> r@.len() == 0,
{
    String::from_utf8_lossy(b.as_slice()).into_owned()
}

/// A downloaded subtitle payload as text: the first `.srt` entry when
/// the payload unpacks as a ZIP archive with a takeable subtitle,
/// otherwise the payload itself decoded leniently as UTF-8.  An
/// unpacking failure never fails the whole operation.
pub fn subtitle_text_from_download(data: &Vec<u8>) -> (r: String)
    ensures
        r@ == if spec_zip_has_subtitle(data@) {
            spec_zip_subtitle_text(data@)
        } else {
            lossy_text_of(data@)
        },
{
    match extract_srt_from_zip(data) {
        Ok(text) => text,
        Err(_) => bytes_to_text_lossy(data),
    }
}

} // verus!
