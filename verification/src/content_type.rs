//! The fixed mapping from a file name's extension to the `Content-Type`
//! value a static response carries. Only the extension (the part after the
//! last `.`) decides the type; an unmapped or missing extension falls back
//! to `application/octet-stream`.

use vstd::prelude::*;
use crate::text::{find_last_dot, last_dot_index, lemma_last_dot_props, str_eq};

verus! {

/// The extension of `name`: the characters after the last `.`, if any.
pub open spec fn extension_of(name: Seq<char>) -> Option<Seq<char>> {
    match last_dot_index(name) {
        None => None::<Seq<char>>,
        Some(i) => Some(name.subrange(i + 1, name.len() as int)),
    }
}

/// `ext` is one of the extensions the fixed mapping knows.
pub open spec fn mapped_extension(ext: Seq<char>) -> bool {
    ||| ext == "html"@
    ||| ext == "css"@
    ||| ext == "js"@
    ||| ext == "png"@
    ||| ext == "jpg"@
    ||| ext == "jpeg"@
    ||| ext == "gif"@
    ||| ext == "svg"@
}

/// The content type the fixed mapping gives to extension `ext`.
pub open spec fn mapped_type(ext: Seq<char>) -> Seq<char> {
    if ext == "html"@ {
        "text/html"@
    } else if ext == "css"@ {
        "text/css"@
    } else if ext == "js"@ {
        "application/javascript"@
    } else if ext == "png"@ {
        "image/png"@
    } else if ext == "jpg"@ || ext == "jpeg"@ {
        "image/jpeg"@
    } else if ext == "gif"@ {
        "image/gif"@
    } else if ext == "svg"@ {
        "image/svg+xml"@
    } else {
        "application/octet-stream"@
    }
}

/// The content type of a file named `name`, decided by its extension alone.
pub open spec fn content_type_of(name: Seq<char>) -> Seq<char> {
    match extension_of(name) {
        None => "application/octet-stream"@,
        Some(ext) => mapped_type(ext),
    }
}

/// The `Content-Type` value for a file named `name`.
pub fn content_type_for(name: &str) -> (r: String)
    ensures
        r@ == content_type_of(name@),
{
    match find_last_dot(name) {
        None => "application/octet-stream".to_owned(),
        Some(i) => {
            proof {
                lemma_last_dot_props(name@);
            }
            let len = name.unicode_len();
            let ext = name.substring_char(i + 1, len);
            if str_eq(ext, "html") {
                "text/html".to_owned()
            } else if str_eq(ext, "css") {
                "text/css".to_owned()
            } else if str_eq(ext, "js") {
                "application/javascript".to_owned()
            } else if str_eq(ext, "png") {
                "image/png".to_owned()
            } else if str_eq(ext, "jpg") || str_eq(ext, "jpeg") {
                "image/jpeg".to_owned()
            } else if str_eq(ext, "gif") {
                "image/gif".to_owned()
            } else if str_eq(ext, "svg") {
                "image/svg+xml".to_owned()
            } else {
                "application/octet-stream".to_owned()
            }
        },
    }
}

/// Every extension of the fixed mapping yields its mapped content type, and
/// any other or missing extension yields `application/octet-stream`.
pub proof fn lemma_content_type_mapping(name: Seq<char>)
    ensures
        extension_of(name) == Some("html"@) ==> content_type_of(name) == "text/html"@,
        extension_of(name) == Some("css"@) ==> content_type_of(name) == "text/css"@,
        extension_of(name) == Some("js"@) ==> content_type_of(name) == "application/javascript"@,
        extension_of(name) == Some("png"@) ==> content_type_of(name) == "image/png"@,
        extension_of(name) == Some("jpg"@) ==> content_type_of(name) == "image/jpeg"@,
        extension_of(name) == Some("jpeg"@) ==> content_type_of(name) == "image/jpeg"@,
        extension_of(name) == Some("gif"@) ==> content_type_of(name) == "image/gif"@,
        extension_of(name) == Some("svg"@) ==> content_type_of(name) == "image/svg+xml"@,
        (extension_of(name) matches Some(ext) && !mapped_extension(ext)) ==> content_type_of(
            name,
        ) == "application/octet-stream"@,
        extension_of(name) is None ==> content_type_of(name) == "application/octet-stream"@,
{
    reveal_strlit("html");
    reveal_strlit("css");
    reveal_strlit("js");
    reveal_strlit("png");
    reveal_strlit("jpg");
    reveal_strlit("jpeg");
    reveal_strlit("gif");
    reveal_strlit("svg");
    assert("html"@.len() == 4 && "html"@[0] == 'h');
    assert("css"@.len() == 3 && "css"@[0] == 'c');
    assert("js"@.len() == 2 && "js"@[0] == 'j');
    assert("png"@.len() == 3 && "png"@[0] == 'p');
    assert("jpg"@.len() == 3 && "jpg"@[0] == 'j');
    assert("jpeg"@.len() == 4 && "jpeg"@[0] == 'j');
    assert("gif"@.len() == 3 && "gif"@[0] == 'g');
    assert("svg"@.len() == 3 && "svg"@[0] == 's');
    assert("jpg"@[1] == 'p' && "gif"@[1] == 'i' && "svg"@[1] == 'v' && "css"@[1] == 's'
        && "png"@[1] == 'n');
    assert("html"@[1] == 't' && "jpeg"@[1] == 'p');
}

} // verus!
