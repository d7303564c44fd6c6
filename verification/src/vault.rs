//! Sealing and opening of the stored bytes with a passphrase.

use age::secrecy::Secret;
use std::io::Read;
use std::io::Write;
use vstd::prelude::*;

verus! {

/// The bytes that the age file `file` holds for the holder of `passphrase`,
/// or nothing where `file` is no age file sealed with that passphrase.
pub uninterp spec fn age_payload(file: Seq<u8>, passphrase: Seq<char>) -> Option<Seq<u8>>;

/// Seals `plaintext` with `age::Encryptor::with_user_passphrase`: writes it
/// through `wrap_output` into a buffer and calls `finish`.
///
/// The file differs from call to call, by the salt and the nonce drawn and
/// by the work factor measured. Claimed of every file that comes back: it
/// holds `plaintext` for the holder of `passphrase`.
#[verifier::external_body]
pub(crate) fn age_encrypt(plaintext: &[u8], passphrase: &str) -> (file: Option<Vec<u8>>)
    ensures
        file.is_some() ==> age_payload(file.unwrap()@, passphrase@) == Some(plaintext@),
{
    let encryptor = age::Encryptor::with_user_passphrase(Secret::new(passphrase.to_owned()));
    let mut file = Vec::new();
    let mut writer = encryptor.wrap_output(&mut file).ok()?;
    writer.write_all(plaintext).ok()?;
    writer.finish().ok()?;
    Some(file)
}

/// Opens `file` with `age::Decryptor::new` and, where it is sealed with a
/// passphrase, `decrypt` with `passphrase` and no work factor of its own,
/// then reads the plaintext to its end.
///
/// The call gives up on a file that asks for more work than this machine is
/// measured to do in about sixteen seconds, so it may fail on a file that
/// holds bytes. Claimed of every plaintext that comes back: it is what the
/// file holds for the holder of `passphrase`.
#[verifier::external_body]
pub(crate) fn age_decrypt(file: &[u8], passphrase: &str) -> (plaintext: Option<Vec<u8>>)
    ensures
        plaintext.is_some() ==> age_payload(file@, passphrase@) == Some(plaintext.unwrap()@),
{
    let decryptor = match age::Decryptor::new(file) {
        Ok(age::Decryptor::Passphrase(decryptor)) => decryptor,
        _ => return None,
    };
    let mut reader = decryptor.decrypt(&Secret::new(passphrase.to_owned()), None).ok()?;
    let mut plaintext = Vec::new();
    reader.read_to_end(&mut plaintext).ok()?;
    Some(plaintext)
}

} // verus!
