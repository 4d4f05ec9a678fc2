//! Image loading split at the protocol boundary: deciding the format
//! from the file name and packaging bytes as base64 happen here; reading
//! the file from disk is the caller's business.

use vstd::prelude::*;
use vstd::string::StringExecFns;
use base64::Engine;
use crate::content::{spec_extension, Image, ImageType};
use crate::text::{chars_string, str_chars};

verus! {

/// Why an image could not be loaded: the path had no extension, an
/// extension outside the accepted four, or the file could not be read
/// (with the reader's message).
#[derive(Debug)]
pub enum ImageLoadError {
    FileError(String),
    UnsupportedExtension,
    NoExtension,
}

/// The sentence an image-load failure reads as.
pub open spec fn image_error_text(e: ImageLoadErrorV) -> Seq<char> {
    match e {
        ImageLoadErrorV::FileError(m) => "Failed to read file: "@ + m,
        ImageLoadErrorV::UnsupportedExtension => "Unsupported image extension"@,
        ImageLoadErrorV::NoExtension => "File has no extension"@,
    }
}

impl ImageLoadError {
    /// The error as a sentence.
    pub fn describe(&self) -> (r: String)
        ensures
            r@ == image_error_text(self@),
    {
        match self {
            ImageLoadError::FileError(m) => {
                let mut s = String::from_str("Failed to read file: ");
                s.append(m.as_str());
                s
            },
            ImageLoadError::UnsupportedExtension => String::from_str(
                "Unsupported image extension",
            ),
            ImageLoadError::NoExtension => String::from_str("File has no extension"),
        }
    }
}

/// Mathematical value of an [`ImageLoadError`].
pub ghost enum ImageLoadErrorV {
    FileError(Seq<char>),
    UnsupportedExtension,
    NoExtension,
}

impl View for ImageLoadError {
    type V = ImageLoadErrorV;

    open spec fn view(&self) -> ImageLoadErrorV {
        match self {
            ImageLoadError::FileError(m) => ImageLoadErrorV::FileError(m@),
            ImageLoadError::UnsupportedExtension => ImageLoadErrorV::UnsupportedExtension,
            ImageLoadError::NoExtension => ImageLoadErrorV::NoExtension,
        }
    }
}

/// A character lowered ASCII-wise; other characters are untouched.
pub open spec fn ascii_lower(c: char) -> char {
    if 'A' <= c && c <= 'Z' {
        ((c as u32) + 32) as char
    } else {
        c
    }
}

/// A text lowered ASCII-wise.
pub open spec fn ascii_lower_seq(s: Seq<char>) -> Seq<char> {
    s.map_values(|c: char| ascii_lower(c))
}

/// The image format an extension names, compared ASCII-case-insensitively.
pub open spec fn spec_from_extension(e: Seq<char>) -> Option<ImageType> {
    let l = ascii_lower_seq(e);
    if l == "jpg"@ || l == "jpeg"@ {
        Some(ImageType::Jpeg)
    } else if l == "png"@ {
        Some(ImageType::Png)
    } else if l == "gif"@ {
        Some(ImageType::Gif)
    } else if l == "webp"@ {
        Some(ImageType::Webp)
    } else {
        None
    }
}

/// The extension of a path: what follows the last dot of the final
/// component, unless that component has no dot past its first character.
pub open spec fn spec_path_extension(p: Seq<char>) -> Option<Seq<char>> {
    let f = p.skip(last_index_past(p, '/'));
    let d = last_index_of(f, '.');
    if d > 0 {
        Some(f.skip(d + 1))
    } else {
        None
    }
}

/// One past the last occurrence of `c`, or zero when `c` is absent.
pub open spec fn last_index_past(s: Seq<char>, c: char) -> int
    decreases s.len(),
{
    if s.len() == 0 {
        0
    } else if s.last() == c {
        s.len() as int
    } else {
        last_index_past(s.drop_last(), c)
    }
}

/// The index of the last occurrence of `c`, or `-1` when `c` is absent.
pub open spec fn last_index_of(s: Seq<char>, c: char) -> int
    decreases s.len(),
{
    if s.len() == 0 {
        -1
    } else if s.last() == c {
        s.len() - 1
    } else {
        last_index_of(s.drop_last(), c)
    }
}

fn lower_char(c: char) -> (r: char)
    ensures
        r == ascii_lower(c),
{
    if 'A' <= c && c <= 'Z' {
        proof {
            vstd::utf8::char_is_scalar(c);
        }
        let v = (c as u32) + 32;
        proof {
            assert(v < 0xD800) by {
                assert(c as u32 <= 'Z' as u32);
            }
        }
        match crate::text::char_from_u32(v) {
            Some(l) => {
                proof {
                    vstd::utf8::char_u32_cast(l, v);
                }
                l
            },
            None => {
                // unreachable: the lowered value stays below the surrogates
                proof {
                    assert(false);
                }
                c
            },
        }
    } else {
        c
    }
}

impl ImageType {
    /// The image format an extension names, case-insensitively.
    pub fn from_extension(ext: &str) -> (r: Option<ImageType>)
        ensures
            r == spec_from_extension(ext@),
    {
        let cs = str_chars(ext);
        let n = cs.len();
        let mut low: Vec<char> = Vec::new();
        let mut i: usize = 0;
        while i < n
            invariant
                0 <= i <= n,
                n == cs@.len(),
                cs@ == ext@,
                low@ =~= ascii_lower_seq(ext@.take(i as int)),
            decreases n - i,
        {
            low.push(lower_char(cs[i]));
            proof {
                assert(low@ =~= ascii_lower_seq(ext@.take(i as int + 1)));
            }
            i = i + 1;
        }
        proof {
            assert(ext@.take(n as int) =~= ext@);
        }
        if crate::text::chars_is(&low, "jpg") || crate::text::chars_is(&low, "jpeg") {
            Some(ImageType::Jpeg)
        } else if crate::text::chars_is(&low, "png") {
            Some(ImageType::Png)
        } else if crate::text::chars_is(&low, "gif") {
            Some(ImageType::Gif)
        } else if crate::text::chars_is(&low, "webp") {
            Some(ImageType::Webp)
        } else {
            None
        }
    }
}

/// What the base64 encoding of the bytes reads; standard alphabet, with
/// padding. The encoding depends on the bytes alone.
pub uninterp spec fn base64_of(bytes: Seq<u8>) -> Seq<char>;

/// Relies on base64's `Engine::encode` with the standard alphabet and
/// padding: the result is a function of the input bytes alone, and an
/// empty input encodes to the empty string.
#[verifier::external_body]
fn base64_encode(bytes: &Vec<u8>) -> (r: String)
    ensures
        r@ == base64_of(bytes@),
        bytes@.len() == 0 ==> r@.len() == 0,
{
    base64::engine::general_purpose::STANDARD.encode(bytes)
}

/// The extension of `path`, as a string.
pub fn path_extension(path: &str) -> (r: Option<String>)
    ensures
        match r {
            Some(e) => spec_path_extension(path@) == Some(e@),
            None => spec_path_extension(path@) is None,
        },
{
    let cs = str_chars(path);
    let n = cs.len();
    // find one past the last '/'
    let mut f_start: usize = 0;
    let mut k: usize = n;
    proof {
        assert(path@.take(n as int) =~= path@);
    }
    loop
        invariant
            0 <= k <= n,
            n == cs@.len(),
            cs@ == path@,
            last_index_past(path@, '/') == last_index_past(path@.take(k as int), '/'),
            forall|q: int| k <= q < n ==> path@[q] != '/',
        ensures
            0 <= f_start <= n,
            f_start as int == last_index_past(path@, '/'),
        decreases k,
    {
        if k == 0 {
            f_start = 0;
            proof {
                assert(path@.take(0) =~= Seq::<char>::empty());
            }
            break;
        }
        proof {
            assert(path@.take(k as int).last() == path@[k - 1]);
            assert(path@.take(k as int).drop_last() =~= path@.take(k as int - 1));
        }
        if cs[k - 1] == '/' {
            f_start = k;
            break;
        }
        k = k - 1;
    }
    let ghost f = path@.skip(f_start as int);
    // find the last '.' of the final component
    let mut dot: usize = 0;
    let mut found = false;
    let mut j: usize = n;
    loop
        invariant
            f_start <= j <= n,
            n == cs@.len(),
            cs@ == path@,
            f == path@.skip(f_start as int),
            last_index_of(f, '.') == last_index_of(
                path@.subrange(f_start as int, j as int),
                '.',
            ) || (last_index_of(f, '.') >= j - f_start),
            forall|q: int| j <= q < n ==> path@[q] != '.',
        ensures
            found ==> f_start <= dot < n && path@[dot as int] == '.' && last_index_of(f, '.')
                == dot - f_start,
            !found ==> last_index_of(f, '.') == -1,
        decreases j,
    {
        if j == f_start {
            found = false;
            proof {
                assert(path@.subrange(f_start as int, f_start as int) =~= Seq::<char>::empty());
                lemma_last_index_of_none(f, '.');
            }
            break;
        }
        proof {
            assert(path@.subrange(f_start as int, j as int).last() == path@[j - 1]);
            assert(path@.subrange(f_start as int, j as int).drop_last() =~= path@.subrange(
                f_start as int,
                j as int - 1,
            ));
        }
        if cs[j - 1] == '.' {
            dot = j - 1;
            found = true;
            proof {
                lemma_last_index_of_suffix(f, path@.subrange(f_start as int, j as int), '.');
            }
            break;
        }
        j = j - 1;
    }
    if !found || dot == f_start {
        return None;
    }
    // the extension text
    let mut out: Vec<char> = Vec::new();
    let mut q: usize = dot + 1;
    while q < n
        invariant
            dot + 1 <= q <= n,
            n == cs@.len(),
            cs@ == path@,
            out@ =~= path@.subrange(dot + 1 as int, q as int),
        decreases n - q,
    {
        out.push(cs[q]);
        q = q + 1;
    }
    proof {
        assert(out@ =~= f.skip(dot + 1 - f_start));
    }
    Some(chars_string(&out))
}

/// When no character of `s` is `c`, the last index is `-1`.
proof fn lemma_last_index_of_none(s: Seq<char>, c: char)
    requires
        forall|q: int| 0 <= q < s.len() ==> s[q] != c,
    ensures
        last_index_of(s, c) == -1,
    decreases s.len(),
{
    if s.len() > 0 {
        lemma_last_index_of_none(s.drop_last(), c);
    }
}

/// The last index in a prefix-extension: when `t` is a prefix of `s` and
/// everything past `t` in `s` is not `c`, both agree.
proof fn lemma_last_index_of_suffix(s: Seq<char>, t: Seq<char>, c: char)
    requires
        t.len() <= s.len(),
        t =~= s.take(t.len() as int),
        forall|q: int| t.len() <= q < s.len() ==> s[q] != c,
    ensures
        last_index_of(s, c) == last_index_of(t, c),
    decreases s.len(),
{
    if s.len() > t.len() {
        assert(s.drop_last() =~= s.take(s.len() - 1));
        assert(t =~= s.drop_last().take(t.len() as int));
        lemma_last_index_of_suffix(s.drop_last(), t, c);
    } else {
        assert(t =~= s);
    }
}

impl Image {
    /// Build an image from a path and the outcome of reading its bytes:
    /// the format is decided by the path's extension first, then the
    /// read outcome is examined, and sound bytes are packaged as base64.
    pub fn from_file_bytes(path: &str, bytes: Result<Vec<u8>, String>) -> (r: Result<
        Image,
        ImageLoadError,
    >)
        ensures
            match r {
                Ok(img) => {
                    &&& spec_path_extension(path@) is Some
                    &&& spec_from_extension(spec_path_extension(path@)->0) == Some(img.image_type)
                    &&& bytes is Ok
                    &&& img.data@ == base64_of(bytes->Ok_0@)
                },
                Err(e) => match e@ {
                    ImageLoadErrorV::NoExtension => spec_path_extension(path@) is None,
                    ImageLoadErrorV::UnsupportedExtension => spec_path_extension(path@) is Some
                        && spec_from_extension(spec_path_extension(path@)->0) is None,
                    ImageLoadErrorV::FileError(m) => spec_path_extension(path@) is Some
                        && spec_from_extension(spec_path_extension(path@)->0) is Some && bytes
                        is Err && m == bytes->Err_0@,
                },
            },
    {
        let ext = match path_extension(path) {
            Some(e) => e,
            None => {
                return Err(ImageLoadError::NoExtension);
            },
        };
        let image_type = match ImageType::from_extension(ext.as_str()) {
            Some(t) => t,
            None => {
                return Err(ImageLoadError::UnsupportedExtension);
            },
        };
        let buffer = match bytes {
            Ok(b) => b,
            Err(m) => {
                return Err(ImageLoadError::FileError(m));
            },
        };
        let data = base64_encode(&buffer);
        Ok(Image { image_type, data })
    }
}

} // verus!
