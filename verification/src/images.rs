//! Images as URIs: which URI an image has, and what a data URI holds.
//!
//! Reading and writing the files is left to the caller.

use vstd::prelude::*;
use vstd::string::StringSliceAdditionalSpecFns;
use crate::digest::{hash_of_text, hashed, sea_hash};
use crate::text::{
    chars_of, count_char, count_of, find_first, first_index, hexadecimal, lemma_first_index,
    spec_starts_with, starts_with, str_eq, to_hexadecimal,
};

verus! {

/// What a URL of an image is.
#[derive(Clone, Debug, PartialEq, Eq)]
pub enum ImageUrl {
    /// A URL of the web, or a data URI: used as it is
    AsIs(String),
    /// A path of the filesystem, to be turned into a data URI
    Path(String),
}

/// The URL is used as it is: it starts with `http://`, `https://` or
/// `data:`.
pub open spec fn is_http_or_data_uri(url: Seq<char>) -> bool {
    spec_starts_with(url, "http://"@) || spec_starts_with(url, "https://"@) || spec_starts_with(
        url,
        "data:"@,
    )
}

/// The path that a URL stands for: the URL without `file://` before it.
pub open spec fn path_of(url: Seq<char>) -> Seq<char> {
    if spec_starts_with(url, "file://"@) {
        url.skip(7)
    } else {
        url
    }
}

/// What a URL of an image is: a URL that starts with `http://`, `https://`
/// or `data:` is used as it is; any other is a path of the filesystem, with
/// or without `file://` before it.
pub fn ensure_http_or_data_uri(url: &str) -> (kind: ImageUrl)
    ensures
        match kind {
            ImageUrl::AsIs(same) => is_http_or_data_uri(url@) && same@ == url@,
            ImageUrl::Path(path) => !is_http_or_data_uri(url@) && path@ == path_of(url@),
        },
{
    let text = chars_of(url);
    if starts_with(&text, "http://") || starts_with(&text, "https://") || starts_with(
        &text,
        "data:",
    ) {
        return ImageUrl::AsIs(String::from_str(url));
    }
    if starts_with(&text, "file://") {
        proof {
            reveal_strlit("file://");
            assert(url@.subrange(7, url@.len() as int) =~= url@.skip(7));
        }
        ImageUrl::Path(String::from_str(url.substring_char(7, text.len())))
    } else {
        ImageUrl::Path(String::from_str(url))
    }
}

/// What is wrong with a data URI.
#[derive(Clone, Debug, PartialEq, Eq)]
pub enum DataUriError {
    /// The URI does not have exactly one comma
    InvalidFormat,
    /// The part before the comma does not start with `data:`
    InvalidHeader,
    /// The type of the data is none of the types of image that are taken
    UnsupportedFormat(String),
    /// The data is not Base64
    InvalidData,
}

/// The parts of a data URI.
pub struct DataUriView {
    /// The type of the data: what stands between `data:` and the first `;`
    /// of the header, or the end of the header
    pub mime_type: Seq<char>,
    /// The data: what follows the comma
    pub data: Seq<char>,
}

/// The header of a data URI: what stands before its comma.
pub open spec fn header_of(uri: Seq<char>) -> Seq<char> {
    uri.take(first_index(uri, ','))
}

/// The parts of a data URI, for one with exactly one comma and a header
/// that starts with `data:`.
pub open spec fn parts_of(uri: Seq<char>) -> DataUriView {
    let header = header_of(uri);
    DataUriView {
        mime_type: header.subrange(5, first_index(header, ';')),
        data: uri.skip(first_index(uri, ',') + 1),
    }
}

/// The extension of the files of a type of image.
pub open spec fn spec_extension_for(mime_type: Seq<char>) -> Option<Seq<char>> {
    if mime_type == "image/jpeg"@ {
        Some("jpg"@)
    } else if mime_type == "image/png"@ {
        Some("png"@)
    } else if mime_type == "image/gif"@ {
        Some("gif"@)
    } else if mime_type == "image/webp"@ {
        Some("webp"@)
    } else {
        None
    }
}

/// The extension of the files of a type of image.
pub fn extension_for(mime_type: &str) -> (extension: Option<&'static str>)
    ensures
        match extension {
            Some(extension) => spec_extension_for(mime_type@) == Some(extension@),
            None => spec_extension_for(mime_type@) is None,
        },
{
    if str_eq(mime_type, "image/jpeg") {
        Some("jpg")
    } else if str_eq(mime_type, "image/png") {
        Some("png")
    } else if str_eq(mime_type, "image/gif") {
        Some("gif")
    } else if str_eq(mime_type, "image/webp") {
        Some("webp")
    } else {
        None
    }
}

/// A data URI taken apart.
#[derive(Clone, Debug, PartialEq, Eq)]
pub struct DataUri {
    /// The extension of the files of its type of image
    pub extension: String,
    /// The data, in Base64
    pub data: String,
}

/// Take a data URI apart.
///
/// The URI has to have exactly one comma, and what stands before the comma
/// has to start with `data:`. The type of the data, which follows up to
/// the first `;`, has to be one of the types of image that are taken.
pub fn parse_data_uri(data_uri: &str) -> (parsed: Result<DataUri, DataUriError>)
    ensures
        count_of(data_uri@, ',') != 1 ==> parsed == Err::<DataUri, DataUriError>(
            DataUriError::InvalidFormat,
        ),
        count_of(data_uri@, ',') == 1 && !spec_starts_with(header_of(data_uri@), "data:"@)
            ==> parsed == Err::<DataUri, DataUriError>(DataUriError::InvalidHeader),
        count_of(data_uri@, ',') == 1 && spec_starts_with(header_of(data_uri@), "data:"@)
            ==> match spec_extension_for(parts_of(data_uri@).mime_type) {
            Some(extension) => parsed matches Ok(uri) && uri.extension@ == extension && uri.data@
                == parts_of(data_uri@).data,
            None => parsed matches Err(DataUriError::UnsupportedFormat(mime_type)) && mime_type@
                == parts_of(data_uri@).mime_type,
        },
{
    let text = chars_of(data_uri);
    if count_char(&text, ',') != 1 {
        return Err(DataUriError::InvalidFormat);
    }
    let comma = find_first(&text, ',');
    proof {
        lemma_first_index(text@, ',');
        // one comma, so there is a first
        if comma == text.len() {
            lemma_no_char(text@, ',');
        }
    }
    let header = data_uri.substring_char(0, comma);
    let header_chars = chars_of(header);
    proof {
        assert(header@ =~= header_of(data_uri@));
    }
    if !starts_with(&header_chars, "data:") {
        return Err(DataUriError::InvalidHeader);
    }
    let end = find_first(&header_chars, ';');
    proof {
        reveal_strlit("data:");
        lemma_first_index(header@, ';');
        // the prefix `data:` holds no `;`
        if end < 5 {
            assert(header@.take(5)[end as int] == header@[end as int]);
        }
    }
    let mime_type = header.substring_char(5, end);
    let data = data_uri.substring_char(comma + 1, text.len());
    proof {
        assert(data@ =~= parts_of(data_uri@).data);
    }
    match extension_for(mime_type) {
        Some(extension) => Ok(
            DataUri { extension: String::from_str(extension), data: String::from_str(data) },
        ),
        None => Err(DataUriError::UnsupportedFormat(String::from_str(mime_type))),
    }
}

/// A text without a place of a character holds it no times.
pub proof fn lemma_no_char(text: Seq<char>, c: char)
    requires
        forall|k: int| 0 <= k < text.len() ==> #[trigger] text[k] != c,
    ensures
        count_of(text, c) == 0,
    decreases text.len(),
{
    if text.len() > 0 {
        assert forall|k: int| 0 <= k < text.drop_last().len() implies #[trigger] text.drop_last()[k]
            != c by {
            assert(text.drop_last()[k] == text[k]);
        }
        lemma_no_char(text.drop_last(), c);
    }
}

/// The bytes that the standard Base64 alphabet, with padding, decodes a
/// text to; none where the text is not Base64.
pub uninterp spec fn base64_decoded(text: Seq<u8>) -> Option<Seq<u8>>;

/// The text that the standard Base64 alphabet, with padding, encodes
/// bytes to.
pub uninterp spec fn base64_encoded(bytes: Seq<u8>) -> Seq<char>;

/// The bytes of a Base64 text, by `decode` of the engine
/// `base64::engine::general_purpose::STANDARD`; none where the engine
/// refuses the text.
#[verifier::external_body]
fn decode_base64(text: &str) -> (bytes: Option<Vec<u8>>)
    ensures
        match bytes {
            Some(bytes) => base64_decoded(text.spec_bytes()) == Some(bytes@),
            None => base64_decoded(text.spec_bytes()) is None,
        },
{
    base64::Engine::decode(&base64::engine::general_purpose::STANDARD, text.as_bytes()).ok()
}

/// The Base64 text of bytes, by `encode` of the engine
/// `base64::engine::general_purpose::STANDARD`. The engine gives up where
/// the length of the text would not fit a number: such bytes are left out.
#[verifier::external_body]
fn encode_base64(bytes: &Vec<u8>) -> (text: String)
    requires
        bytes.len() <= usize::MAX / 2,
    ensures
        text@ == base64_encoded(bytes@),
{
    base64::Engine::encode(&base64::engine::general_purpose::STANDARD, bytes)
}

/// An image out of a data URI: the name of its file and its bytes.
#[derive(Clone, Debug, PartialEq, Eq)]
pub struct ImageFile {
    /// The name of the file: the hash of the URI in hexadecimal digits, a
    /// dot and the extension
    pub name: String,
    /// The bytes of the image
    pub bytes: Vec<u8>,
}

/// The name of the file of a data URI: the hash of the URI in hexadecimal
/// digits, a dot and the extension.
pub open spec fn file_name(uri: Seq<char>, extension: Seq<char>) -> Seq<char> {
    hexadecimal(sea_hash(hashed(Some(uri))) as nat) + "."@ + extension
}

/// Turn a data URI that was taken apart, and its data decoded, into the
/// file of its image.
pub fn image_file(data_uri: &str, extension: &str, bytes: Vec<u8>) -> (file: ImageFile)
    ensures
        file.name@ == file_name(data_uri@, extension@),
        file.bytes == bytes,
{
    let hash = hash_of_text(data_uri);
    let mut name = to_hexadecimal(hash);
    name.append(".");
    name.append(extension);
    ImageFile { name, bytes }
}

/// Convert a data URI into the file of its image: its name, made of the
/// hash of the URI and the extension of its type, and its bytes.
///
/// The errors are those of `parse_data_uri`, and `InvalidData` where the
/// data is not Base64.
pub fn data_uri_to_path(data_uri: &str) -> (file: Result<ImageFile, DataUriError>)
    ensures
        count_of(data_uri@, ',') != 1 ==> file == Err::<ImageFile, DataUriError>(
            DataUriError::InvalidFormat,
        ),
        count_of(data_uri@, ',') == 1 && !spec_starts_with(header_of(data_uri@), "data:"@)
            ==> file == Err::<ImageFile, DataUriError>(DataUriError::InvalidHeader),
        count_of(data_uri@, ',') == 1 && spec_starts_with(header_of(data_uri@), "data:"@)
            ==> match spec_extension_for(parts_of(data_uri@).mime_type) {
            Some(extension) => match base64_decoded(
                vstd::utf8::encode_utf8(parts_of(data_uri@).data),
            ) {
                Some(bytes) => file matches Ok(image) && image.bytes@ == bytes && image.name@
                    == file_name(data_uri@, extension),
                None => file == Err::<ImageFile, DataUriError>(DataUriError::InvalidData),
            },
            None => file matches Err(DataUriError::UnsupportedFormat(mime_type)) && mime_type@
                == parts_of(data_uri@).mime_type,
        },
{
    match parse_data_uri(data_uri) {
        Err(error) => Err(error),
        Ok(uri) => match decode_base64(uri.data.as_str()) {
            Some(bytes) => Ok(image_file(data_uri, uri.extension.as_str(), bytes)),
            None => Err(DataUriError::InvalidData),
        },
    }
}

/// The data URI of an image: `data:`, its type, `;base64,` and its bytes
/// in Base64.
pub open spec fn data_uri_of(mime_type: Seq<char>, bytes: Seq<u8>) -> Seq<char> {
    "data:"@ + mime_type + ";base64,"@ + base64_encoded(bytes)
}

/// The data URI of an image of the type `mime_type` with the bytes `bytes`;
/// none for more bytes than Base64 can take.
pub fn path_to_data_uri(mime_type: &str, bytes: &Vec<u8>) -> (uri: Option<String>)
    ensures
        match uri {
            Some(uri) => bytes.len() <= usize::MAX / 2 && uri@ == data_uri_of(mime_type@, bytes@),
            None => bytes.len() > usize::MAX / 2,
        },
{
    if bytes.len() > usize::MAX / 2 {
        return None;
    }
    let mut uri = String::from_str("data:");
    uri.append(mime_type);
    uri.append(";base64,");
    let encoded = encode_base64(bytes);
    uri.append(encoded.as_str());
    Some(uri)
}

} // verus!
