//! Resolution of static file requests: which file a request path denotes,
//! whether that name is safe to join with the static root, and the response
//! owed once the file has (or has not) been read.

use vstd::prelude::*;
use vstd::string::StringSliceAdditionalSpecFns;
use vstd::string::StrSliceExecFns;
use vstd::string::StringExecFns;
use crate::content_type::{content_type_of, content_type_for};
use crate::text::{contains_dot_dot, has_dot_dot, str_eq};

verus! {

/// A response to a static file request: status code, `Content-Type` header
/// value, and body bytes.
pub struct StaticResponse {
    pub status: u16,
    pub content_type: String,
    pub body: Vec<u8>,
}

/// The file name a request path denotes: `/` (or an empty path) is an alias
/// for `index.html`; otherwise the path without its leading `/`.
pub open spec fn resolved_name(path: Seq<char>) -> Seq<char> {
    if path.len() == 0 {
        "index.html"@
    } else if path == "/"@ {
        "index.html"@
    } else if path[0] == '/' {
        path.subrange(1, path.len() as int)
    } else {
        path
    }
}

/// A file name that may be joined with the static root: non-empty, not
/// absolute, and free of parent-directory references.
pub open spec fn safe_name(name: Seq<char>) -> bool {
    name.len() > 0 && name[0] != '/' && !has_dot_dot(name)
}

/// The response owed for a file named `name` when reading it gave `read`:
/// status, content type, and body bytes.
pub open spec fn static_reply(name: Seq<char>, read: Option<Seq<u8>>) -> (int, Seq<char>, Seq<
    u8,
>) {
    match read {
        Some(bytes) => (200int, content_type_of(name), bytes),
        None => (404int, "text/plain"@, "File not found".spec_bytes()),
    }
}

/// The view of an optional byte buffer.
pub open spec fn read_view(read: Option<Vec<u8>>) -> Option<Seq<u8>> {
    match read {
        Some(bytes) => Some(bytes@),
        None => None::<Seq<u8>>,
    }
}

/// The file name `path` denotes, or `None` when that name may not be joined
/// with the static root (such a request is answered as not found).
pub fn resolve_request(path: &str) -> (r: Option<String>)
    ensures
        match r {
            Some(name) => safe_name(resolved_name(path@)) && name@ == resolved_name(path@),
            None => !safe_name(resolved_name(path@)),
        },
{
    let name: String = if path.unicode_len() == 0 || str_eq(path, "/") {
        "index.html".to_owned()
    } else if path.get_char(0) == '/' {
        let len = path.unicode_len();
        path.substring_char(1, len).to_owned()
    } else {
        path.to_owned()
    };
    let nlen = name.as_str().unicode_len();
    if nlen > 0 && name.as_str().get_char(0) != '/' && !contains_dot_dot(name.as_str()) {
        Some(name)
    } else {
        None
    }
}

/// The response for a static request that resolved to `name`, where `read`
/// is the file's content if it could be read in full and `None` otherwise.
/// Any unreadable file is answered as 404 with a fixed plain-text body.
pub fn respond_static(name: &str, read: Option<Vec<u8>>) -> (r: StaticResponse)
    ensures
        (r.status as int, r.content_type@, r.body@) == static_reply(name@, read_view(read)),
{
    match read {
        Some(bytes) => StaticResponse {
            status: 200,
            content_type: content_type_for(name),
            body: bytes,
        },
        None => StaticResponse {
            status: 404,
            content_type: "text/plain".to_owned(),
            body: "File not found".as_bytes_vec(),
        },
    }
}

/// The path of `name` under the static root.
pub open spec fn static_path_of(name: Seq<char>) -> Seq<char> {
    "static/"@ + name
}

/// The on-disk path a resolved static file name is read from.
pub fn static_path(name: &str) -> (r: String)
    ensures
        r@ == static_path_of(name@),
{
    let prefix: String = "static/".to_owned();
    prefix.concat(name)
}

/// Requesting `/` and requesting `/index.html` resolve to the same file
/// name, so with the same read result they are answered with byte-identical
/// responses.
pub proof fn lemma_root_alias(read: Option<Seq<u8>>)
    ensures
        resolved_name("/"@) == resolved_name("/index.html"@),
        static_reply(resolved_name("/"@), read) == static_reply(resolved_name("/index.html"@), read),
{
    reveal_strlit("/");
    reveal_strlit("/index.html");
    reveal_strlit("index.html");
    assert("/"@.len() == 1);
    assert("/index.html"@.len() == 11);
    assert("/index.html"@[0] == '/');
    assert("/index.html"@.subrange(1, 11) =~= "index.html"@);
}

/// A missing or unreadable file is answered 404 with the fixed not-found
/// body, and 404 is answered exactly then: no file content is ever carried
/// by a 404 response, and no 200 response lacks the file's bytes.
pub proof fn lemma_not_found_reply(name: Seq<char>, read: Option<Seq<u8>>)
    ensures
        static_reply(name, read).0 == 404 <==> read is None,
        read is None ==> static_reply(name, read).2 == "File not found".spec_bytes(),
        read matches Some(bytes) ==> static_reply(name, read).0 == 200 && static_reply(
            name,
            read,
        ).2 == bytes,
{
}

} // verus!
