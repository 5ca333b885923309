//! Internal helpers of the service: input validation, random strings, image
//! thumbnails, and the bearer token of a request.
use vstd::prelude::*;
use crate::text::{
    chars_of, decimal, decimal_string, has_prefix, starts_with_chars, string_of,
    trim_prefix_repeated, trim_start_matches_chars,
};
use rand::Rng;

verus! {

/// Errors of the services, as the routes answer them.
#[derive(Debug)]
pub enum ServiceError {
    /// The request carried data that is not acceptable; the text says why.
    InvalidData(String),
}

pub type ServiceResult<T> = Result<T, ServiceError>;

/// The message of a value that is too long.
pub open spec fn too_long_message(resource: Seq<char>, max_length: nat) -> Seq<char> {
    resource + " too long (maximum "@ + decimal(max_length) + " characters)"@
}

/// The message of a value that is too short.
pub open spec fn too_short_message(resource: Seq<char>, min_length: nat) -> Seq<char> {
    resource + " too short (minimum "@ + decimal(min_length) + " characters)"@
}

/// Validate length of resource: its UTF-8 length in bytes must lie between
/// `min_length` and `max_length`, both included.
///
/// A value longer than `max_length` is too long; otherwise one shorter than
/// `min_length` is too short. The message names the resource and the limit.
pub fn validate_length(resource: &str, min_length: usize, max_length: usize, string: &str) -> (r:
    ServiceResult<()>)
    ensures
        vstd::utf8::encode_utf8(string@).len() > max_length ==> (r matches Err(
            ServiceError::InvalidData(m),
        ) && m@ == too_long_message(resource@, max_length as nat)),
        vstd::utf8::encode_utf8(string@).len() <= max_length && vstd::utf8::encode_utf8(string@).len()
            < min_length ==> (r matches Err(ServiceError::InvalidData(m)) && m@ == too_short_message(
            resource@,
            min_length as nat,
        )),
        r is Ok <==> (min_length <= vstd::utf8::encode_utf8(string@).len() <= max_length),
{
    let byte_len = string.as_bytes().len();
    if byte_len > max_length {
        let mut message = resource.to_owned();
        message.append(" too long (maximum ");
        message.append(decimal_string(max_length as u64).as_str());
        message.append(" characters)");
        Err(ServiceError::InvalidData(message))
    } else if byte_len < min_length {
        let mut message = resource.to_owned();
        message.append(" too short (minimum ");
        message.append(decimal_string(min_length as u64).as_str());
        message.append(" characters)");
        Err(ServiceError::InvalidData(message))
    } else {
        Ok(())
    }
}

/// The characters random strings are made of: `A`-`Z`, `a`-`z`, `0`-`9`.
pub open spec fn is_charset_char(c: char) -> bool {
    ('A' <= c <= 'Z') || ('a' <= c <= 'z') || ('0' <= c <= '9')
}

/// Number of characters in the charset of random strings.
pub const CHARSET_LEN: usize = 62;

/// The `idx`th character of `ABCDEFGHIJKLMNOPQRSTUVWXYZabcdefghijklmnopqrstuvwxyz0123456789`.
pub open spec fn spec_charset_char(idx: int) -> char {
    if idx < 26 {
        (65 + idx) as char
    } else if idx < 52 {
        (97 + idx - 26) as char
    } else {
        (48 + idx - 52) as char
    }
}

pub fn charset_char(idx: usize) -> (c: char)
    requires
        idx < CHARSET_LEN,
    ensures
        c == spec_charset_char(idx as int),
        is_charset_char(c),
{
    let code: u8 = if idx < 26 {
        65 + idx as u8
    } else if idx < 52 {
        97 + (idx - 26) as u8
    } else {
        48 + (idx - 52) as u8
    };
    code as char
}

/// A uniformly random index below `n` (`rand::thread_rng` and `Rng::gen_range(0..n)`).
///
/// rand documents the result to lie in the range; which value comes is left
/// to chance.
#[verifier::external_body]
fn random_index(n: usize) -> (r: usize)
    requires
        n > 0,
    ensures
        r < n,
{
    rand::thread_rng().gen_range(0..n)
}

/// The string whose characters are the charset characters at `indices`.
pub fn charset_string(indices: &Vec<usize>) -> (r: String)
    requires
        forall|i: int| 0 <= i < indices@.len() ==> #[trigger] indices@[i] < CHARSET_LEN,
    ensures
        r@.len() == indices@.len(),
        forall|i: int| 0 <= i < indices@.len() ==> #[trigger] r@[i] == spec_charset_char(indices@[i] as int),
        forall|i: int| 0 <= i < indices@.len() ==> is_charset_char(#[trigger] r@[i]),
{
    let mut chars: Vec<char> = Vec::new();
    let mut i: usize = 0;
    while i < indices.len()
        invariant
            i <= indices@.len(),
            chars@.len() == i,
            forall|k: int| 0 <= k < indices@.len() ==> #[trigger] indices@[k] < CHARSET_LEN,
            forall|k: int| 0 <= k < i ==> #[trigger] chars@[k] == spec_charset_char(indices@[k] as int),
            forall|k: int| 0 <= k < i ==> is_charset_char(#[trigger] chars@[k]),
        decreases indices@.len() - i,
    {
        chars.push(charset_char(indices[i]));
        i = i + 1;
    }
    string_of(&chars)
}

/// A random string of `length` characters from `A`-`Z`, `a`-`z`, `0`-`9`.
pub fn random_string(length: usize) -> (r: String)
    ensures
        r@.len() == length,
        forall|i: int| 0 <= i < length ==> is_charset_char(#[trigger] r@[i]),
{
    let mut indices: Vec<usize> = Vec::new();
    let mut i: usize = 0;
    while i < length
        invariant
            i <= length,
            indices@.len() == i,
            forall|k: int| 0 <= k < i ==> #[trigger] indices@[k] < CHARSET_LEN,
        decreases length - i,
    {
        indices.push(random_index(CHARSET_LEN));
        i = i + 1;
    }
    charset_string(&indices)
}

/// File extensions (upper case) of images that get a thumbnail.
pub open spec fn is_image_extension_spec(ext: Seq<char>) -> bool {
    ||| ext == "PNG"@
    ||| ext == "JPG"@
    ||| ext == "JPEG"@
    ||| ext == "GIF"@
    ||| ext == "WEBP"@
    ||| ext == "JFIF"@
    ||| ext == "PJPEG"@
    ||| ext == "PJP"@
}

/// Image extensions.
pub fn image_exts() -> (r: Vec<&'static str>)
    ensures
        r@.len() == 8,
        r@[0]@ == "PNG"@,
        r@[1]@ == "JPG"@,
        r@[2]@ == "JPEG"@,
        r@[3]@ == "GIF"@,
        r@[4]@ == "WEBP"@,
        r@[5]@ == "JFIF"@,
        r@[6]@ == "PJPEG"@,
        r@[7]@ == "PJP"@,
        forall|e: Seq<char>| is_image_extension_spec(e) <==> exists|i: int| 0 <= i < 8 && #[trigger] r@[i]@ == e,
{
    let r = vec!["PNG", "JPG", "JPEG", "GIF", "WEBP", "JFIF", "PJPEG", "PJP"];
    proof {
        assert forall|e: Seq<char>| is_image_extension_spec(e) implies exists|i: int| 0 <= i < 8 && #[trigger] r@[i]@ == e by {
            if e == "PNG"@ { assert(r@[0]@ == e); }
            else if e == "JPG"@ { assert(r@[1]@ == e); }
            else if e == "JPEG"@ { assert(r@[2]@ == e); }
            else if e == "GIF"@ { assert(r@[3]@ == e); }
            else if e == "WEBP"@ { assert(r@[4]@ == e); }
            else if e == "JFIF"@ { assert(r@[5]@ == e); }
            else if e == "PJPEG"@ { assert(r@[6]@ == e); }
            else { assert(r@[7]@ == e); }
        }
    }
    r
}

/// The image extensions are PNG, JPG, JPEG, GIF, WEBP, JFIF, PJPEG and PJP,
/// and no other text: in particular lower case or a leading dot is none.
pub proof fn lemma_image_extensions()
    ensures
        is_image_extension_spec("PNG"@),
        is_image_extension_spec("JPG"@),
        is_image_extension_spec("JPEG"@),
        is_image_extension_spec("GIF"@),
        is_image_extension_spec("WEBP"@),
        is_image_extension_spec("JFIF"@),
        is_image_extension_spec("PJPEG"@),
        is_image_extension_spec("PJP"@),
        !is_image_extension_spec("jpg"@),
        !is_image_extension_spec(".PNG"@),
        !is_image_extension_spec("TXT"@),
        !is_image_extension_spec(Seq::empty()),
        forall|e: Seq<char>| is_image_extension_spec(e) ==> 3 <= e.len() <= 5,
{
    reveal_strlit("PNG");
    reveal_strlit("JPG");
    reveal_strlit("JPEG");
    reveal_strlit("GIF");
    reveal_strlit("WEBP");
    reveal_strlit("JFIF");
    reveal_strlit("PJPEG");
    reveal_strlit("PJP");
    reveal_strlit("jpg");
    reveal_strlit(".PNG");
    reveal_strlit("TXT");
    assert forall|e: Seq<char>| is_image_extension_spec(e) implies 3 <= e.len() <= 5 by {}
    assert(!is_image_extension_spec(Seq::empty())) by {
        assert(Seq::<char>::empty().len() == 0);
    }
    assert("jpg"@[0] != "PNG"@[0] && "jpg"@[0] != "JPG"@[0] && "jpg"@[0] != "GIF"@[0]);
    assert(!is_image_extension_spec("jpg"@));
    assert(".PNG"@[0] != "JPEG"@[0] && ".PNG"@[0] != "WEBP"@[0] && ".PNG"@[0] != "JFIF"@[0]);
    assert(!is_image_extension_spec(".PNG"@));
    assert("TXT"@[0] != "PNG"@[0] && "TXT"@[0] != "JPG"@[0] && "TXT"@[0] != "GIF"@[0]);
    assert(!is_image_extension_spec("TXT"@));
}

/// Whether an (upper case) extension is one of the image extensions.
pub fn is_image_extension(ext: &str) -> (r: bool)
    ensures
        r == is_image_extension_spec(ext@),
{
    let exts = image_exts();
    let mut i: usize = 0;
    while i < exts.len()
        invariant
            exts@.len() == 8,
            forall|e: Seq<char>| is_image_extension_spec(e) <==> exists|i: int| 0 <= i < 8 && #[trigger] exts@[i]@ == e,
            i <= 8,
            forall|k: int| 0 <= k < i ==> exts@[k]@ != ext@,
        decreases 8 - i,
    {
        if crate::text::str_equal(exts[i], ext) {
            return true;
        }
        i = i + 1;
    }
    false
}

/// The last component of a path, as `Path::file_name` reads it.
pub uninterp spec fn file_name_of(path: Seq<char>) -> Option<Seq<char>>;

/// The upper case of a string, as `str::to_uppercase` maps it.
pub uninterp spec fn uppercase_of(s: Seq<char>) -> Seq<char>;

/// The file name of a path (`Path::new`, `Path::file_name`, `OsStr::to_str`).
#[verifier::external_body]
fn path_file_name(path: &str) -> (r: Option<String>)
    ensures
        r matches Some(n) ==> file_name_of(path@) == Some(n@),
        r is None ==> file_name_of(path@) is None,
{
    match std::path::Path::new(path).file_name() {
        Some(n) => n.to_str().map(str::to_owned),
        None => None,
    }
}

/// The extension of a file name, as `Path::extension` documents it: none
/// without an embedded `.`, none for a name that begins with `.` and has no
/// other `.`, and otherwise what follows the final `.`.
pub open spec fn extension_of(file_name: Seq<char>) -> Option<Seq<char>> {
    let i = crate::text::last_index_of(file_name, '.');
    if i <= 0 {
        None
    } else {
        Some(file_name.skip(i + 1))
    }
}

/// The extension of a path.
pub open spec fn path_extension_of(path: Seq<char>) -> Option<Seq<char>> {
    match file_name_of(path) {
        Some(n) => extension_of(n),
        None => None,
    }
}

/// The extension of a file name.
pub fn file_extension(file_name: &str) -> (r: Option<String>)
    ensures
        match extension_of(file_name@) {
            Some(e) => (r matches Some(s) && s@ == e),
            None => r is None,
        },
{
    let chars = chars_of(file_name);
    let n = chars.len();
    let dot = crate::text::last_char_index(&chars, '.');
    match dot {
        Some(i) => {
            if i == 0 {
                return None;
            }
            let mut ext: Vec<char> = Vec::new();
            let mut k: usize = i + 1;
            while k < n
                invariant
                    n == chars@.len(),
                    i < chars@.len(),
                    i + 1 <= k <= chars@.len(),
                    ext@ == chars@.subrange(i + 1, k as int),
                decreases chars@.len() - k,
            {
                ext.push(chars[k]);
                proof {
                    assert(chars@.subrange(i + 1, k + 1) == chars@.subrange(i + 1, k as int).push(chars@[k as int]));
                }
                k = k + 1;
            }
            proof {
                assert(chars@.subrange(i + 1, chars@.len() as int) == chars@.skip(i + 1));
            }
            Some(string_of(&ext))
        },
        None => None,
    }
}

/// The extension of a path.
pub fn path_extension(path: &str) -> (r: Option<String>)
    ensures
        match path_extension_of(path@) {
            Some(e) => (r matches Some(s) && s@ == e),
            None => r is None,
        },
{
    match path_file_name(path) {
        Some(n) => file_extension(n.as_str()),
        None => None,
    }
}

/// `str::to_uppercase`.
#[verifier::external_body]
fn to_uppercase(s: &str) -> (r: String)
    ensures
        r@ == uppercase_of(s@),
{
    s.to_uppercase()
}

/// The upper case extension of a path, empty when it has none.
pub open spec fn upper_extension(path: Seq<char>) -> Seq<char> {
    uppercase_of(
        match path_extension_of(path) {
            Some(e) => e,
            None => Seq::empty(),
        },
    )
}

/// Can the path trigger a thumbnail to be created.
pub fn can_have_thumbnail(path: &str) -> (r: bool)
    ensures
        r == is_image_extension_spec(upper_extension(path@)),
{
    let ext = match path_extension(path) {
        Some(e) => e,
        None => String::new(),
    };
    let upper = to_uppercase(ext.as_str());
    is_image_extension(upper.as_str())
}

/// The names, among `names`, of files that can have a thumbnail, in order.
pub fn thumbnail_candidates(names: &Vec<String>) -> (r: Vec<String>)
    ensures
        r@.map_values(|n: String| n@) == names@.map_values(|n: String| n@).filter(
            |n: Seq<char>| is_image_extension_spec(upper_extension(n)),
        ),
{
    let ghost views = names@.map_values(|n: String| n@);
    let ghost keep = |n: Seq<char>| is_image_extension_spec(upper_extension(n));
    let mut out: Vec<String> = Vec::new();
    let mut i: usize = 0;
    while i < names.len()
        invariant
            i <= names@.len(),
            views == names@.map_values(|n: String| n@),
            keep == (|n: Seq<char>| is_image_extension_spec(upper_extension(n))),
            out@.map_values(|n: String| n@) == views.take(i as int).filter(keep),
        decreases names@.len() - i,
    {
        let ghost before = out@;
        proof {
            reveal_with_fuel(Seq::<_>::filter, 1);
            assert(views.take(i as int + 1).drop_last() == views.take(i as int));
            assert(views[i as int] == names@[i as int]@);
        }
        if can_have_thumbnail(names[i].as_str()) {
            out.push(names[i].clone());
            proof {
                assert(out@.map_values(|n: String| n@) == before.map_values(|n: String| n@).push(
                    names@[i as int]@,
                ));
            }
        }
        i = i + 1;
    }
    proof {
        assert(views.take(names@.len() as int) == views);
    }
    out
}

/// Thumbnails are at most this many pixels wide and this many high.
pub const THUMBNAIL_SIZE: u32 = 500;

/// The directory of the storage that holds the thumbnails.
pub open spec fn thumbnail_dir() -> Seq<char> {
    "thumb/"@
}

/// Where the thumbnail of the stored file `name` is kept: `thumb/<name>`.
pub fn thumbnail_name(name: &str) -> (r: String)
    ensures
        r@ == thumbnail_dir() + name@,
{
    let mut r = "thumb/".to_owned();
    r.append(name);
    r
}

/// `Bearer `, the scheme of an authorization header.
pub open spec fn bearer_prefix() -> Seq<char> {
    "Bearer "@
}

/// The token of an `Authorization` header value: present when the value
/// starts with `Bearer `, and then the value with every leading `Bearer `
/// taken off.
pub open spec fn bearer_token_spec(value: Seq<char>) -> Option<Seq<char>> {
    if has_prefix(value, bearer_prefix()) {
        Some(trim_prefix_repeated(value, bearer_prefix()))
    } else {
        None
    }
}

/// The token of the `Authorization` header, if the request has one (as text)
/// and it is a bearer token.
pub fn get_token(authorization: Option<&str>) -> (r: Option<String>)
    ensures
        match authorization {
            None => r is None,
            Some(v) => match bearer_token_spec(v@) {
                None => r is None,
                Some(t) => (r matches Some(s) && s@ == t),
            },
        },
{
    match authorization {
        None => None,
        Some(value) => {
            let chars = chars_of(value);
            let prefix = chars_of("Bearer ");
            proof {
                reveal_strlit("Bearer ");
            }
            if starts_with_chars(&chars, &prefix) {
                Some(string_of(&trim_start_matches_chars(&chars, &prefix)))
            } else {
                None
            }
        },
    }
}

} // verus!

verus! {

/// A bearer token reads back from the header that carries it (when the token
/// does not itself start with `Bearer `).
pub proof fn lemma_bearer_token_roundtrip(token: Seq<char>)
    requires
        !has_prefix(token, bearer_prefix()),
    ensures
        bearer_token_spec(bearer_prefix() + token) == Some(token),
{
    reveal_strlit("Bearer ");
    crate::text::lemma_trim_prefix_once(bearer_prefix(), token);
    let s = bearer_prefix() + token;
    assert(s.take(bearer_prefix().len() as int) == bearer_prefix());
}

} // verus!
