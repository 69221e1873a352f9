//! Which static files the web server serves, and with which content type.
use crate::text::str_eq;
use vstd::prelude::*;
use vstd::string::*;

verus! {

#[verifier::external_type_specification]
#[verifier::external_body]
pub struct ExContentType(rocket::http::ContentType);

/// The content type that Rocket associates with a file extension (the
/// comparison ignores ASCII case), if it knows one.
pub uninterp spec fn content_type_of_extension(ext: Seq<char>) -> Option<rocket::http::ContentType>;

/// Calls `rocket::http::ContentType::from_extension`, whose result depends on
/// the extension alone: it is named `content_type_of_extension`.
#[verifier::external_body]
fn content_type_from_extension(ext: &str) -> (r: Option<rocket::http::ContentType>)
    ensures
        r == content_type_of_extension(ext@),
{
    rocket::http::ContentType::from_extension(ext)
}

/// The files served under `/resources/`.
pub open spec fn allowed_resource(file: Seq<char>) -> bool {
    file == "github.webp"@
}

/// The files served under `/css/`.
pub open spec fn allowed_css(file: Seq<char>) -> bool {
    ||| file == "contact.css"@
    ||| file == "home.css"@
    ||| file == "notification.css"@
    ||| file == "style.css"@
    ||| file == "theme.css"@
}

/// Position `i` holds the last dot of `name`.
pub open spec fn is_last_dot(name: Seq<char>, i: int) -> bool {
    0 <= i < name.len() && name[i] == '.' && forall|j: int| i < j < name.len() ==> name[j] != '.'
}

/// The extension of a file name: what follows its last dot, where it has
/// one.
pub open spec fn extension_of(name: Seq<char>) -> Option<Seq<char>> {
    if exists|i: int| 0 <= i < name.len() && name[i] == '.' {
        let i = choose|i: int| is_last_dot(name, i);
        Some(name.subrange(i + 1, name.len() as int))
    } else {
        None
    }
}

/// The content type of a file, from its extension.
pub open spec fn content_type_of_file(name: Seq<char>) -> Option<rocket::http::ContentType> {
    match extension_of(name) {
        Some(ext) => content_type_of_extension(ext),
        None => None,
    }
}

/// Whether `file` may be served under `/resources/`.
pub fn is_allowed_resource(file: &str) -> (r: bool)
    ensures
        r == allowed_resource(file@),
{
    str_eq(file, "github.webp")
}

/// Whether `file` may be served under `/css/`.
pub fn is_allowed_css(file: &str) -> (r: bool)
    ensures
        r == allowed_css(file@),
{
    str_eq(file, "contact.css") || str_eq(file, "home.css") || str_eq(file, "notification.css")
        || str_eq(file, "style.css") || str_eq(file, "theme.css")
}

/// The extension of `file_name`: what follows its last dot.
pub fn file_extension(file_name: &str) -> (r: Option<&str>)
    ensures
        match r {
            Some(ext) => extension_of(file_name@) == Some(ext@),
            None => extension_of(file_name@) is None,
        },
{
    let n = file_name.unicode_len();
    let mut last: Option<usize> = None;
    let mut i: usize = 0;
    while i < n
        invariant
            n == file_name@.len(),
            i <= n,
            match last {
                Some(d) => d < i && file_name@[d as int] == '.' && forall|j: int|
                    d < j < i ==> file_name@[j] != '.',
                None => forall|j: int| 0 <= j < i ==> file_name@[j] != '.',
            },
        decreases n - i,
    {
        if file_name.get_char(i) == '.' {
            last = Some(i);
        }
        i = i + 1;
    }
    match last {
        Some(d) => {
            assert(is_last_dot(file_name@, d as int));
            proof {
                let c = choose|c: int| is_last_dot(file_name@, c);
                assert(c == d) by {
                    if c < d {
                        assert(file_name@[d as int] == '.');
                    } else if c > d {
                        assert(file_name@[c] == '.');
                    }
                }
            }
            Some(file_name.substring_char(d + 1, n))
        },
        None => None,
    }
}

/// The content type of `file`, from its extension; `None` where the file has
/// no extension or Rocket knows none for it.
pub fn content_type_for_file(file: &str) -> (r: Option<rocket::http::ContentType>)
    ensures
        r == content_type_of_file(file@),
{
    match file_extension(file) {
        Some(ext) => content_type_from_extension(ext),
        None => None,
    }
}

} // verus!
