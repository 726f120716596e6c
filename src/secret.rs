//! The persisted form of one sealed secret, and its decoded form.
use crate::codec::{base64_bytes, base64_text, decode_base64, encode_base64, has_foreign_char};
use vstd::prelude::*;

verus! {

/// A sealed secret as it is stored: nonce and ciphertext, each as base64 text.
pub struct SecretBase64 {
    pub nonce: String,
    pub ciphertext: String,
}

impl View for SecretBase64 {
    type V = (Seq<char>, Seq<char>);

    /// The nonce text and the ciphertext text.
    open spec fn view(&self) -> (Seq<char>, Seq<char>) {
        (self.nonce@, self.ciphertext@)
    }
}

/// A sealed secret as borrowed text, e.g. straight out of a document.
pub struct SecretBase64Ref<'a> {
    pub nonce: &'a str,
    pub ciphertext: &'a str,
}

/// A sealed secret as raw bytes: the nonce and the ciphertext with its tag.
pub struct SecretBytes {
    pub nonce: Vec<u8>,
    pub ciphertext: Vec<u8>,
}

/// The diagnostic rendering of an envelope stored under `name`.
pub open spec fn yaml_text(name: Seq<char>, nonce: Seq<char>, ciphertext: Seq<char>) -> Seq<char> {
    name + ":\n\tnonce: '"@ + nonce + "'\n\tciphertext: '"@ + ciphertext + "'"@
}

impl<'a> SecretBase64Ref<'a> {
    /// An owned envelope with the same two fields.
    pub fn deep_clone(&self) -> (r: SecretBase64)
        ensures
            r.nonce@ == self.nonce@,
            r.ciphertext@ == self.ciphertext@,
    {
        SecretBase64 { nonce: self.nonce.to_owned(), ciphertext: self.ciphertext.to_owned() }
    }
}

impl SecretBase64 {
    /// Decodes both fields; fails if either is not valid base64.
    pub fn base64_decode(&self) -> (r: Result<SecretBytes, base64::DecodeError>)
        ensures
            match r {
                Ok(b) => base64_bytes(self.nonce@) == Some(b.nonce@) && base64_bytes(
                    self.ciphertext@,
                ) == Some(b.ciphertext@),
                Err(_) => base64_bytes(self.nonce@).is_none() || base64_bytes(
                    self.ciphertext@,
                ).is_none(),
            },
            has_foreign_char(self.nonce@) || has_foreign_char(self.ciphertext@) ==> r is Err,
    {
        let nonce = match decode_base64(self.nonce.as_str()) {
            Ok(v) => v,
            Err(e) => {
                return Err(e);
            },
        };
        let ciphertext = match decode_base64(self.ciphertext.as_str()) {
            Ok(v) => v,
            Err(e) => {
                return Err(e);
            },
        };
        Ok(SecretBytes { nonce, ciphertext })
    }

    /// Renders the envelope under `name`, both fields quoted verbatim.
    pub fn to_yaml(&self, name: &str) -> (r: String)
        ensures
            r@ == yaml_text(name@, self.nonce@, self.ciphertext@),
    {
        let mut out = name.to_owned();
        out.append(":\n\tnonce: '");
        out.append(self.nonce.as_str());
        out.append("'\n\tciphertext: '");
        out.append(self.ciphertext.as_str());
        out.append("'");
        out
    }
}

impl SecretBytes {
    /// Encodes both fields as padded base64 text.
    pub fn base64_encode(&self) -> (r: SecretBase64)
        ensures
            r.nonce@ == base64_text(self.nonce@),
            r.ciphertext@ == base64_text(self.ciphertext@),
            base64_bytes(r.nonce@) == Some(self.nonce@),
            base64_bytes(r.ciphertext@) == Some(self.ciphertext@),
    {
        SecretBase64 {
            nonce: encode_base64(self.nonce.as_slice()),
            ciphertext: encode_base64(self.ciphertext.as_slice()),
        }
    }
}

} // verus!
