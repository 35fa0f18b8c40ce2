//! How the language bindings read the names their callers pass: archive
//! compressions and source languages.

use vstd::prelude::*;

use crate::error::{ErrorCode, SysandError, SysandErrorView};
use crate::text::{
    ascii_lowercase, ascii_uppercase, chars_equal, chars_of, concat_chars, string_from_chars,
    to_ascii_lowercase, to_ascii_uppercase,
};
use crate::types::{Compression, Language};

verus! {

/// The compression an upper-case name selects.
pub open spec fn compression_of_upper(name: Seq<char>) -> Option<Compression> {
    if name == "STORED"@ {
        Some(Compression::Stored)
    } else if name == "DEFLATED"@ {
        Some(Compression::Deflated)
    } else if name == "BZIP2"@ {
        Some(Compression::Bzip2)
    } else if name == "ZSTD"@ {
        Some(Compression::Zstd)
    } else if name == "XZ"@ {
        Some(Compression::Xz)
    } else if name == "PPMD"@ {
        Some(Compression::Ppmd)
    } else {
        None
    }
}

/// The compression a lower-case name selects.
pub open spec fn compression_of_lower(name: Seq<char>) -> Option<Compression> {
    if name == "stored"@ {
        Some(Compression::Stored)
    } else if name == "deflated"@ {
        Some(Compression::Deflated)
    } else if name == "bzip2"@ {
        Some(Compression::Bzip2)
    } else if name == "zstd"@ {
        Some(Compression::Zstd)
    } else if name == "xz"@ {
        Some(Compression::Xz)
    } else if name == "ppmd"@ {
        Some(Compression::Ppmd)
    } else {
        None
    }
}

fn eq_text(a: &Vec<char>, b: &str) -> (r: bool)
    ensures
        r == (a@ == b@),
{
    chars_equal(a, &chars_of(b))
}

/// Reads a compression name in any ASCII case, as the Java binding does;
/// an unknown name is refused with its upper-case spelling.
pub fn parse_compression(s: &str) -> (r: Result<Compression, SysandError>)
    ensures
        match compression_of_upper(ascii_uppercase(s@)) {
            Some(c) => r == Ok::<Compression, SysandError>(c),
            None => r is Err && r->Err_0@ == (SysandErrorView {
                code: ErrorCode::FieldInvalid,
                message: "unknown compression: "@ + ascii_uppercase(s@),
                context: None,
            }),
        },
{
    let u = to_ascii_uppercase(&chars_of(s));
    if eq_text(&u, "STORED") {
        Ok(Compression::Stored)
    } else if eq_text(&u, "DEFLATED") {
        Ok(Compression::Deflated)
    } else if eq_text(&u, "BZIP2") {
        Ok(Compression::Bzip2)
    } else if eq_text(&u, "ZSTD") {
        Ok(Compression::Zstd)
    } else if eq_text(&u, "XZ") {
        Ok(Compression::Xz)
    } else if eq_text(&u, "PPMD") {
        Ok(Compression::Ppmd)
    } else {
        let m = concat_chars(&chars_of("unknown compression: "), &u);
        Err(SysandError::new(ErrorCode::FieldInvalid, string_from_chars(m.as_slice()).as_str()))
    }
}

/// Reads an optional compression name in any ASCII case, as the Python
/// binding does: none means Deflate; an unknown name is refused with its
/// lower-case spelling.
pub fn compression_from_option(s: Option<&str>) -> (r: Result<Compression, String>)
    ensures
        match s {
            None => r == Ok::<Compression, String>(Compression::Deflated),
            Some(t) => match compression_of_lower(ascii_lowercase(t@)) {
                Some(c) => r == Ok::<Compression, String>(c),
                None => r is Err && r->Err_0@ == "unknown compression: "@ + ascii_lowercase(t@),
            },
        },
{
    let t = match s {
        None => return Ok(Compression::Deflated),
        Some(t) => t,
    };
    let l = to_ascii_lowercase(&chars_of(t));
    if eq_text(&l, "stored") {
        Ok(Compression::Stored)
    } else if eq_text(&l, "deflated") {
        Ok(Compression::Deflated)
    } else if eq_text(&l, "bzip2") {
        Ok(Compression::Bzip2)
    } else if eq_text(&l, "zstd") {
        Ok(Compression::Zstd)
    } else if eq_text(&l, "xz") {
        Ok(Compression::Xz)
    } else if eq_text(&l, "ppmd") {
        Ok(Compression::Ppmd)
    } else {
        let m = concat_chars(&chars_of("unknown compression: "), &l);
        Err(string_from_chars(m.as_slice()))
    }
}

/// Reads an optional source language name, as the Python binding does:
/// `sysml`, `kerml`, and `auto` or none for detection.
pub fn language_from_option(s: Option<&str>) -> (r: Result<Language, String>)
    ensures
        match s {
            None => r == Ok::<Language, String>(Language::Auto),
            Some(t) => if t@ == "sysml"@ {
                r == Ok::<Language, String>(Language::Sysml)
            } else if t@ == "kerml"@ {
                r == Ok::<Language, String>(Language::Kerml)
            } else if t@ == "auto"@ {
                r == Ok::<Language, String>(Language::Auto)
            } else {
                r is Err && r->Err_0@ == "unknown language: "@ + t@
            },
        },
{
    let t = match s {
        None => return Ok(Language::Auto),
        Some(t) => t,
    };
    let cs = chars_of(t);
    if eq_text(&cs, "sysml") {
        Ok(Language::Sysml)
    } else if eq_text(&cs, "kerml") {
        Ok(Language::Kerml)
    } else if eq_text(&cs, "auto") {
        Ok(Language::Auto)
    } else {
        let m = concat_chars(&chars_of("unknown language: "), &cs);
        Err(string_from_chars(m.as_slice()))
    }
}

} // verus!
