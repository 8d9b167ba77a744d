//! Portable identity export and import.
//!
//! File layout: the magic `BCID`, a version byte, the display name's length in
//! bytes, the display name, and a 104-byte key file.

use crate::bytes::{append, same_bytes, to_vec};
use crate::identity::keystore::{keystore_blob, keystore_key, usable_passphrase, KeyStore};
use crate::identity::NodeIdentity;
use crate::text::utf8_text;
use vstd::prelude::*;
use vstd::slice::slice_subrange;
use vstd::string::*;
use vstd::utf8::*;

verus! {

/// Why an export file could not be read.
#[derive(Clone, Copy, Debug, PartialEq, Eq, Structural)]
pub enum ExportError {
    TooShort,
    WrongMagic,
    WrongVersion,
    Truncated,
    NameNotUtf8,
    Decryption,
}

/// The first bytes of every export file.
pub const MAGIC: &'static str = "BCID";

/// The format version.
pub const VERSION: u8 = 1;

/// Where a cut to at most `max` bytes falls: the last character boundary that
/// is not beyond `max`, or the end when everything fits.
pub open spec fn is_cut(bytes: Seq<u8>, max: int, end: int) -> bool {
    if bytes.len() <= max {
        end == bytes.len()
    } else {
        &&& 0 <= end <= max
        &&& is_char_boundary(bytes, end)
        &&& forall|j: int| end < j <= max ==> !#[trigger] is_char_boundary(bytes, j)
    }
}

/// Return the longest prefix of `s` that is at most `max_bytes` long, cut on a
/// character boundary.
pub fn truncate_to_byte_len(s: &str, max_bytes: usize) -> (r: &str)
    ensures
        is_cut(encode_utf8(s@), max_bytes as int, encode_utf8(r@).len() as int),
        encode_utf8(r@) == encode_utf8(s@).subrange(0, encode_utf8(r@).len() as int),
        encode_utf8(r@).len() <= max_bytes,
{
    let ghost bytes = encode_utf8(s@);
    let n: usize = s.as_bytes().len();
    if n <= max_bytes {
        assert(bytes.subrange(0, bytes.len() as int) =~= bytes);
        return s;
    }
    let mut end: usize = max_bytes;
    proof {
        encode_utf8_valid_utf8(s@);
        is_char_boundary_start_end_of_seq(bytes);
    }
    while end > 0 && !s.is_char_boundary(end)
        invariant
            bytes == encode_utf8(s@),
            is_char_boundary(bytes, 0),
            end <= max_bytes,
            max_bytes < bytes.len(),
            forall|j: int| end < j <= max_bytes ==> !#[trigger] is_char_boundary(bytes, j),
        decreases end,
    {
        end -= 1;
    }
    let (head, _) = s.split_at(end);
    head
}

/// The content of an export file.
pub open spec fn export_file(name: Seq<u8>, blob: Seq<u8>) -> Seq<u8> {
    encode_utf8(MAGIC@) + seq![VERSION, name.len() as u8] + name + blob
}

/// Whether `file` is the export of a signing key under the given salt and nonce,
/// with the name cut to at most 64 bytes.
pub open spec fn is_export(
    file: Seq<u8>,
    key: Seq<u8>,
    name: Seq<char>,
    passphrase: Seq<char>,
    salt: Seq<u8>,
    nonce: Seq<u8>,
) -> bool {
    exists|end: int|
        is_cut(encode_utf8(name), 64, end) && file == export_file(
            #[trigger] encode_utf8(name).subrange(0, end),
            keystore_blob(key, passphrase, salt, nonce),
        )
}

/// What an export file holds: the signing key and the display name, if any.
pub open spec fn export_content(bytes: Seq<u8>, passphrase: Seq<char>) -> Result<
    (Seq<u8>, Option<Seq<char>>),
    ExportError,
> {
    let n = bytes[5] as int;
    let name = bytes.subrange(6, 6 + n);
    if bytes.len() < 6 {
        Err(ExportError::TooShort)
    } else if bytes.subrange(0, 4) != encode_utf8(MAGIC@) {
        Err(ExportError::WrongMagic)
    } else if bytes[4] != VERSION {
        Err(ExportError::WrongVersion)
    } else if bytes.len() < 6 + n + 104 {
        Err(ExportError::Truncated)
    } else if !valid_utf8(name) {
        Err(ExportError::NameNotUtf8)
    } else {
        match keystore_key(bytes.subrange(6 + n, 6 + n + 104), passphrase) {
            Ok(key) => Ok(
                (
                    key,
                    if n == 0 {
                        None
                    } else {
                        Some(decode_utf8(name))
                    },
                ),
            ),
            Err(_) => Err(ExportError::Decryption),
        }
    }
}

/// A portable, passphrase-encrypted bundle that carries an identity and an
/// optional display name.
pub struct IdentityExport;

impl IdentityExport {
    /// The export file of `identity`, with the given salt and nonce. Names are
    /// cut to at most 64 bytes; an empty name counts as none.
    pub fn create_with(
        identity: &NodeIdentity,
        display_name: Option<&str>,
        export_passphrase: &str,
        salt: &[u8; 32],
        nonce: &[u8; 24],
    ) -> (r: Vec<u8>)
        requires
            usable_passphrase(export_passphrase@),
        ensures
            r@.len() == 6 + r@[5] + 104,
            is_export(
                r@,
                identity@,
                given_name(display_name),
                export_passphrase@,
                salt@,
                nonce@,
            ),
            recovers(r@, export_passphrase@, identity@, given_name(display_name)),
    {
        let given = match display_name {
            Some(s) => s,
            None => "",
        };
        proof {
            reveal_strlit("");
            assert(given_name(display_name) =~= given@);
        }
        let name = truncate_to_byte_len(given, 64);
        let blob = KeyStore::save_with(identity, export_passphrase, salt, nonce);
        let name_bytes = name.as_bytes();
        let n: usize = name_bytes.len();
        let mut out = to_vec(MAGIC.as_bytes());
        out.push(VERSION);
        out.push(n as u8);
        append(&mut out, name_bytes);
        append(&mut out, blob.as_slice());
        proof {
            magic_is_four_bytes();
            let nb = encode_utf8(name@);
            assert(out@ =~= export_file(nb, blob@));
            let end = nb.len() as int;
            assert(encode_utf8(given@).subrange(0, end) == nb);
            assert(out@.subrange(0, 4) =~= encode_utf8(MAGIC@));
            assert(out@[5] == n);
            assert(out@.subrange(6, 6 + n) =~= nb);
            assert(out@.subrange(6 + n, 6 + n + 104) =~= blob@);
            encode_utf8_valid_utf8(name@);
            encode_utf8_decode_utf8(name@);
            if n == 0 {
                assert(name@.len() == 0) by {
                    if name@.len() > 0 {
                        assert(decode_utf8(nb) == name@);
                        assert(decode_utf8(nb).len() == 0);
                    }
                }
            }
        }
        out
    }

    /// Serialise `identity` and `display_name` into a portable byte bundle
    /// encrypted under `export_passphrase`.
    pub fn create(
        identity: &NodeIdentity,
        display_name: Option<&str>,
        export_passphrase: &str,
    ) -> (r: Vec<u8>)
        requires
            usable_passphrase(export_passphrase@),
        ensures
            r@.len() == 6 + r@[5] + 104,
            exists|salt: Seq<u8>, nonce: Seq<u8>|
                salt.len() == 32 && nonce.len() == 24 && #[trigger] is_export(
                    r@,
                    identity@,
                    given_name(display_name),
                    export_passphrase@,
                    salt,
                    nonce,
                ),
            recovers(r@, export_passphrase@, identity@, given_name(display_name)),
    {
        let salt = crate::crypto::primitives::random_array::<32>();
        let nonce = crate::crypto::primitives::random_array::<24>();
        Self::create_with(identity, display_name, export_passphrase, &salt, &nonce)
    }

    /// Recover an identity and its display name from an export file.
    pub fn load(bytes: &[u8], export_passphrase: &str) -> (r: Result<
        (NodeIdentity, Option<String>),
        ExportError,
    >)
        requires
            usable_passphrase(export_passphrase@),
        ensures
            match r {
                Ok((id, name)) => id.wf() && export_content(bytes@, export_passphrase@) == Ok::<
                    (Seq<u8>, Option<Seq<char>>),
                    ExportError,
                >((id@, crate::wire::opt_text(name))),
                Err(e) => export_content(bytes@, export_passphrase@) == Err::<
                    (Seq<u8>, Option<Seq<char>>),
                    ExportError,
                >(e),
            },
    {
        if bytes.len() < 6 {
            return Err(ExportError::TooShort);
        }
        if !same_bytes(slice_subrange(bytes, 0, 4), MAGIC.as_bytes()) {
            return Err(ExportError::WrongMagic);
        }
        if bytes[4] != VERSION {
            return Err(ExportError::WrongVersion);
        }
        let n: usize = bytes[5] as usize;
        let header_end: usize = 6 + n;
        if bytes.len() < header_end + 104 {
            return Err(ExportError::Truncated);
        }
        let name = match utf8_text(slice_subrange(bytes, 6, header_end)) {
            Some(s) => s,
            None => {
                return Err(ExportError::NameNotUtf8);
            },
        };
        let display_name = if n == 0 {
            None
        } else {
            Some(name)
        };
        let blob = slice_subrange(bytes, header_end, header_end + 104);
        match KeyStore::load(blob, export_passphrase) {
            Ok(identity) => Ok((identity, display_name)),
            Err(_) => Err(ExportError::Decryption),
        }
    }
}

/// The display name that an export is asked to carry; none is the empty one.
pub open spec fn given_name(display_name: Option<&str>) -> Seq<char> {
    match display_name {
        Some(s) => s@,
        None => Seq::empty(),
    }
}

/// Loading `file` gives the signing key back, and the display name cut to at
/// most 64 bytes: none when that cut is empty.
pub open spec fn recovers(
    file: Seq<u8>,
    passphrase: Seq<char>,
    key: Seq<u8>,
    name: Seq<char>,
) -> bool {
    exists|kept: Seq<char>|
        {
            &&& is_cut(encode_utf8(name), 64, #[trigger] encode_utf8(kept).len() as int)
            &&& encode_utf8(kept) == encode_utf8(name).subrange(0, encode_utf8(kept).len() as int)
            &&& export_content(file, passphrase) == Ok::<
                (Seq<u8>, Option<Seq<char>>),
                ExportError,
            >(
                (
                    key,
                    if kept.len() == 0 {
                        None
                    } else {
                        Some(kept)
                    },
                ),
            )
        }
}

proof fn magic_is_four_bytes()
    ensures
        encode_utf8(MAGIC@).len() == 4,
{
    reveal_strlit("BCID");
    assert(is_ascii_chars(MAGIC@));
    is_ascii_chars_encode_utf8(MAGIC@);
}

/// A file that is too short for a header, starts with other letters or carries
/// another version is refused, whatever the passphrase.
pub proof fn foreign_files_are_refused(bytes: Seq<u8>, passphrase: Seq<char>)
    requires
        bytes.len() < 6 || bytes.subrange(0, 4) != encode_utf8(MAGIC@) || bytes[4] != VERSION,
    ensures
        export_content(bytes, passphrase) == Err::<(Seq<u8>, Option<Seq<char>>), ExportError>(
            if bytes.len() < 6 {
                ExportError::TooShort
            } else if bytes.subrange(0, 4) != encode_utf8(MAGIC@) {
                ExportError::WrongMagic
            } else {
                ExportError::WrongVersion
            },
        ),
{
}

} // verus!
