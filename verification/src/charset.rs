//! Text encodings.
//!
//! Encodings are those of the `encoding_rs` crate, and guessing one from
//! content is the work of `chardetng`. This module is the only place that
//! touches an encoding of that crate: a [`Charset`] keeps it together with its
//! name, and nothing outside this module can build one. The contracts below
//! are stated over names and bytes; they are believed, not proved.

use vstd::prelude::*;

verus! {

#[verifier::external_type_specification]
#[verifier::external_body]
pub struct ExEncoding(encoding_rs::Encoding);

/// The name of the encoding that content detection guesses for `bytes`;
/// `whole` says whether `bytes` is the whole stream.
pub uninterp spec fn detected_encoding(bytes: Seq<u8>, whole: bool) -> Seq<char>;

/// The text that `bytes` decode to in the encoding named `encoding`.
pub uninterp spec fn decoded_text(encoding: Seq<char>, bytes: Seq<u8>) -> Seq<char>;

/// The name of the encoding that the label `label` stands for, if it stands
/// for one.
pub uninterp spec fn labelled_encoding(label: Seq<char>) -> Option<Seq<char>>;

/// The name of the encoding whose byte-order mark `bytes` start with.
pub open spec fn bom_encoding(bytes: Seq<u8>) -> Option<Seq<char>> {
    if bytes.len() >= 3 && bytes[0] == 0xEF && bytes[1] == 0xBB && bytes[2] == 0xBF {
        Some("UTF-8"@)
    } else if bytes.len() >= 2 && bytes[0] == 0xFF && bytes[1] == 0xFE {
        Some("UTF-16LE"@)
    } else if bytes.len() >= 2 && bytes[0] == 0xFE && bytes[1] == 0xFF {
        Some("UTF-16BE"@)
    } else {
        None
    }
}

/// The longest input that can be decoded in one go.
pub open spec fn decode_limit() -> int {
    (usize::MAX / 8) as int
}

/// A text encoding.
#[derive(Clone, Copy, Debug)]
pub struct Charset {
    name: &'static str,
    encoding: &'static encoding_rs::Encoding,
}

impl Charset {
    /// The name of this encoding.
    pub closed spec fn label(&self) -> Seq<char> {
        self.name@
    }

    /// The name of this encoding.
    pub fn name(&self) -> (name: &'static str)
        ensures
            name@ == self.label(),
    {
        self.name
    }

    /// Calls `encoding_rs::Encoding::for_bom`. Claims that it knows the
    /// byte-order marks of UTF-8, UTF-16LE and UTF-16BE and no other.
    #[verifier::external_body]
    pub(crate) fn for_bom(buffer: &[u8]) -> (r: Option<Charset>)
        ensures
            match r {
                Some(c) => bom_encoding(buffer@) == Some(c.label()),
                None => bom_encoding(buffer@) is None,
            },
    {
        match encoding_rs::Encoding::for_bom(buffer) {
            Some((encoding, _)) => Some(Charset { name: encoding.name(), encoding }),
            None => None,
        }
    }

    /// Feeds `buffer` to a fresh `chardetng::EncodingDetector` and asks for
    /// its guess, with no domain hint and UTF-8 allowed. Claims that the
    /// guess depends on the bytes and on `whole` alone.
    #[verifier::external_body]
    pub(crate) fn detect(buffer: &[u8], whole: bool) -> (c: Charset)
        ensures
            c.label() == detected_encoding(buffer@, whole),
    {
        let mut detector = chardetng::EncodingDetector::new();
        detector.feed(buffer, whole);
        let (encoding, _) = detector.guess_assess(None, true);
        Charset { name: encoding.name(), encoding }
    }

    /// Calls `encoding_rs::Encoding::for_label`. Claims that the encoding
    /// found depends on the label alone.
    #[verifier::external_body]
    pub(crate) fn for_label(label: &str) -> (r: Option<Charset>)
        ensures
            match r {
                Some(c) => labelled_encoding(label@) == Some(c.label()),
                None => labelled_encoding(label@) is None,
            },
    {
        match encoding_rs::Encoding::for_label(label.as_bytes()) {
            Some(encoding) => Some(Charset { name: encoding.name(), encoding }),
            None => None,
        }
    }

    /// Calls `encoding_rs::Encoding::decode`. Claims that the text depends on
    /// the encoding and the bytes alone. Inputs so long that sizing the
    /// output would overflow are left out.
    #[verifier::external_body]
    pub(crate) fn decode(&self, bytes: &[u8]) -> (text: String)
        requires
            bytes@.len() <= decode_limit(),
        ensures
            text@ == decoded_text(self.label(), bytes@),
    {
        let (text, _, _) = self.encoding.decode(bytes);
        text.into_owned()
    }
}

} // verus!
