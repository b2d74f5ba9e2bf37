//! File transfer: the addresses of a server's file service, the checks of an upload, the
//! headers of a download, and the content type a client gives an upload.

use vstd::prelude::*;
use vstd::string::StringExecFns;
use crate::definitions::PublicKey;
use crate::home::HttpStatus;
use crate::server::Registry;
use crate::text::{decimal, push_char, push_decimal, chars_of};
use vstd::utf8::encode_utf8;

verus! {

/// `host:6766` followed by `path`.
pub open spec fn file_service_url(host: Seq<char>, path: Seq<char>) -> Seq<char> {
    host + ":6766"@ + path
}

fn file_service_base(host: &str) -> (s: String)
    ensures
        s@ == host@ + ":6766"@,
{
    let mut s = String::from_str(host);
    s.append(":6766");
    s
}

/// The address a client posts an upload to.
pub fn upload_url(host: &str) -> (url: String)
    ensures
        url@ == file_service_url(host@, "/upload_file"@),
{
    let mut s = file_service_base(host);
    s.append("/upload_file");
    s
}

/// The address a client fetches a stored file from.
pub fn download_url(host: &str, file_id: u64) -> (url: String)
    ensures
        url@ == file_service_url(host@, "/download_file/"@ + decimal(file_id as nat)),
{
    let mut s = file_service_base(host);
    s.append("/download_file/");
    push_decimal(&mut s, file_id);
    s
}

/// The address a client fetches the description of a stored file from.
pub fn download_meta_url(host: &str, file_id: u64) -> (url: String)
    ensures
        url@ == file_service_url(host@, "/download_file_meta/"@ + decimal(file_id as nat)),
{
    let mut s = file_service_base(host);
    s.append("/download_file_meta/");
    push_decimal(&mut s, file_id);
    s
}

/// An upload that passed the checks: who sent it, and the file.
#[derive(Debug)]
pub struct Upload {
    pub uploader: PublicKey,
    pub file_name: String,
    pub file_data: Vec<u8>,
}

/// Checks the fields of an upload form: a session token, a file name and the file's
/// bytes must all be there (else a bad request), and the token must belong to a connected
/// member (else the upload is unauthorized); the uploader is that member's key.
pub fn check_upload(
    session_id: Option<String>,
    file_name: Option<String>,
    file_data: Option<Vec<u8>>,
    registry: &Registry,
) -> (res: Result<Upload, HttpStatus>)
    requires
        registry.wf(),
    ensures
        session_id is None || file_name is None || file_data is None ==> res == Err::<
            Upload,
            HttpStatus,
        >(HttpStatus::BadRequest),
        session_id is Some && file_name is Some && file_data is Some ==> match res {
            Ok(u) => {
                &&& exists|c: u64| #[trigger] registry@.contains_key(c) && registry@[c].session_id == session_id->0@
                    && registry@[c].public_key == u.uploader@
                &&& Some(u.file_name) == file_name
                &&& Some(u.file_data) == file_data
            },
            Err(e) => e == HttpStatus::Unauthorized && forall|c: u64| #[trigger] registry@.contains_key(c)
                ==> registry@[c].session_id != session_id->0@,
        },
{
    let session_id = match session_id {
        Some(s) => s,
        None => return Err(HttpStatus::BadRequest),
    };
    let file_name = match file_name {
        Some(n) => n,
        None => return Err(HttpStatus::BadRequest),
    };
    let file_data = match file_data {
        Some(d) => d,
        None => return Err(HttpStatus::BadRequest),
    };
    match registry.session_owner(&session_id) {
        Some(uploader) => Ok(Upload { uploader, file_name, file_data }),
        None => Err(HttpStatus::Unauthorized),
    }
}

/// The character stands for itself in the plain file name of a download: a visible ASCII
/// character other than `"` and `\`.
pub open spec fn plain_name_char(c: char) -> bool {
    '!' <= c <= '~' && c != '"' && c != '\\'
}

/// The file name with each character that cannot stand in a quoted header value
/// replaced by `_`.
pub open spec fn ascii_fallback_of(name: Seq<char>) -> Seq<char> {
    name.map_values(|c: char| if plain_name_char(c) { c } else { '_' })
}

/// The file name with each character that cannot stand in a quoted header value
/// replaced by `_`.
pub fn ascii_fallback(name: &str) -> (s: String)
    ensures
        s@ == ascii_fallback_of(name@),
{
    let cs = chars_of(name);
    let mut s = String::new();
    let mut i: usize = 0;
    while i < cs.len()
        invariant
            i <= cs@.len(),
            cs@ == name@,
            s@ == ascii_fallback_of(name@.take(i as int)),
        decreases cs@.len() - i,
    {
        let c = cs[i];
        let d = if '!' <= c && c <= '~' && c != '"' && c != '\\' {
            c
        } else {
            '_'
        };
        push_char(&mut s, d);
        proof {
            assert(name@.take(i + 1) =~= name@.take(i as int).push(c));
            assert(ascii_fallback_of(name@.take(i + 1)) =~= ascii_fallback_of(name@.take(i as int)).push(d));
        }
        i = i + 1;
    }
    proof {
        assert(name@.take(i as int) =~= name@);
    }
    s
}

/// The byte stands for itself in a percent-encoded text: an ASCII letter or digit, or
/// one of `-`, `.`, `_`, `~`.
pub open spec fn unreserved(b: u8) -> bool {
    (48 <= b <= 57) || (65 <= b <= 90) || (97 <= b <= 122) || b == 45 || b == 46 || b == 95 || b == 126
}

/// The upper-case hexadecimal digit of a value below 16.
pub open spec fn hex_digit(d: u8) -> char {
    if d < 10 {
        (d + 48) as char
    } else {
        (d + 55) as char
    }
}

/// The percent-encoding of bytes: each byte that is not unreserved becomes `%` and its two
/// upper-case hexadecimal digits.
pub open spec fn percent_encoded(bytes: Seq<u8>) -> Seq<char>
    decreases bytes.len(),
{
    if bytes.len() == 0 {
        Seq::empty()
    } else {
        let b = bytes[0];
        let head = if unreserved(b) {
            seq![b as char]
        } else {
            seq!['%', hex_digit(b / 16), hex_digit(b % 16)]
        };
        head + percent_encoded(bytes.drop_first())
    }
}

/// `urlencoding::encode`: percent-encodes the UTF-8 bytes of the text, leaving ASCII
/// letters, digits and `-`, `.`, `_`, `~` as they are, with upper-case hexadecimal digits.
#[verifier::external_body]
fn url_encode(text: &str) -> (s: String)
    ensures
        s@ == percent_encoded(encode_utf8(text@)),
{
    urlencoding::encode(text).into_owned()
}

/// The `Content-Disposition` header of a download: an attachment with the plain file name
/// in quotes and the full name percent-encoded as UTF-8.
pub open spec fn disposition_of(name: Seq<char>) -> Seq<char> {
    "attachment; filename=\""@ + ascii_fallback_of(name) + "\"; filename*=UTF-8''"@ + percent_encoded(
        encode_utf8(name),
    )
}

/// The `Content-Disposition` header of a download: an attachment with the plain file name
/// in quotes and the full name percent-encoded as UTF-8.
pub fn content_disposition(name: &str) -> (s: String)
    ensures
        s@ == disposition_of(name@),
{
    let mut s = String::from_str("attachment; filename=\"");
    let fallback = ascii_fallback(name);
    s.append(fallback.as_str());
    s.append("\"; filename*=UTF-8''");
    let encoded = url_encode(name);
    s.append(encoded.as_str());
    s
}

/// The file id of a download's address, or a bad request where it is not a number.
pub fn file_id_of(segment: &str) -> (res: Result<u64, HttpStatus>)
    ensures
        match crate::text::parsed_u64(segment@) {
            Some(v) => res == Ok::<u64, HttpStatus>(v),
            None => res == Err::<u64, HttpStatus>(HttpStatus::BadRequest),
        },
{
    match crate::text::parse_u64(segment) {
        Some(v) => Ok(v),
        None => Err(HttpStatus::BadRequest),
    }
}

/// The MIME type that `infer::get` recognises from the leading bytes of a file, if any.
pub uninterp spec fn sniffed_mime(data: Seq<u8>) -> Option<Seq<char>>;

/// The MIME type that `mime_guess::from_path` maps the file name's extension to first, or
/// `application/octet-stream` where it knows none.
pub uninterp spec fn guessed_mime(file_name: Seq<char>) -> Seq<char>;

/// `infer::get` on the bytes, as the found type's `mime_type`.
#[verifier::external_body]
fn sniff_mime(data: &[u8]) -> (m: Option<String>)
    ensures
        match m {
            Some(t) => sniffed_mime(data@) == Some(t@),
            None => sniffed_mime(data@) is None,
        },
{
    infer::get(data).map(|t| t.mime_type().to_string())
}

/// `mime_guess::from_path(..).first_or_octet_stream()`, as its essence text.
#[verifier::external_body]
fn guess_mime(file_name: &str) -> (m: String)
    ensures
        m@ == guessed_mime(file_name@),
{
    mime_guess::from_path(file_name).first_or_octet_stream().essence_str().to_string()
}

/// The content type given to an upload whose leading bytes were (or were not) recognised
/// as `sniffed`: that type, or else the one guessed from the file name.
pub fn content_type_of(sniffed: Option<String>, file_name: &str) -> (t: String)
    ensures
        t@ == match sniffed {
            Some(m) => m@,
            None => guessed_mime(file_name@),
        },
{
    match sniffed {
        Some(m) => m,
        None => guess_mime(file_name),
    }
}

/// The content type given to an upload: the type recognised from the file's leading
/// bytes, or else the one guessed from its name.
pub fn upload_content_type(data: &Vec<u8>, file_name: &str) -> (t: String)
    ensures
        t@ == match sniffed_mime(data@) {
            Some(m) => m,
            None => guessed_mime(file_name@),
        },
{
    let sniffed = sniff_mime(data.as_slice());
    content_type_of(sniffed, file_name)
}

} // verus!
