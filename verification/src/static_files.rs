//! Serving the web console's files: which file a request path names, and the
//! headers it is served with. Paths under the API prefixes are never files;
//! a path without an extension is the console's page.
use vstd::prelude::*;
use vstd::string::*;
use crate::text::{text_eq, contains_char, is_prefix, char_prefix};

verus! {

/// The console's page, served for every path that names no file.
pub const FALLBACK: &'static str = "index.html";

/// Cache policy of every file but the console's page.
pub const CACHE_IMMUTABLE: &'static str = "public, max-age=31536000, immutable";

/// The console's files: each name with its bytes.
pub struct StaticAssets {
    files: Vec<(String, Vec<u8>)>,
}

/// Position of the first file named `name`, from position `i` on.
pub open spec fn file_index(files: Seq<(String, Vec<u8>)>, name: Seq<char>, i: int) -> Option<int>
    decreases files.len() - i,
{
    if i < 0 || i >= files.len() {
        None
    } else if files[i].0@ == name {
        Some(i)
    } else {
        file_index(files, name, i + 1)
    }
}

impl StaticAssets {
    /// The files, in order.
    pub closed spec fn files_spec(&self) -> Seq<(String, Vec<u8>)> {
        self.files@
    }

    /// The console made of `files`.
    pub fn new(files: Vec<(String, Vec<u8>)>) -> (r: StaticAssets)
        ensures
            r.files_spec() == files@,
    {
        StaticAssets { files }
    }

    /// The bytes of the file at position `i`.
    pub fn file(&self, i: usize) -> (r: Option<&Vec<u8>>)
        ensures
            i < self.files_spec().len() ==> r == Some(&self.files_spec()[i as int].1),
            i >= self.files_spec().len() ==> r is None,
    {
        if i < self.files.len() {
            Some(&self.files[i].1)
        } else {
            None
        }
    }

    /// The bytes of the first file named `name`.
    pub fn get(&self, name: &str) -> (r: Option<&Vec<u8>>)
        ensures
            match file_index(self.files_spec(), name@, 0) {
                Some(i) => r == Some(&self.files_spec()[i].1),
                None => r is None,
            },
    {
        let mut i: usize = 0;
        while i < self.files.len()
            invariant
                0 <= i <= self.files@.len(),
                file_index(self.files@, name@, 0) == file_index(self.files@, name@, i as int),
            decreases self.files@.len() - i,
        {
            if text_eq(self.files[i].0.as_str(), name) {
                return Some(&self.files[i].1);
            }
            i = i + 1;
        }
        None
    }
}

/// `s` without its leading `/` characters.
pub open spec fn trim_leading_slashes(s: Seq<char>) -> Seq<char>
    decreases s.len(),
{
    if s.len() > 0 && s[0] == '/' {
        trim_leading_slashes(s.drop_first())
    } else {
        s
    }
}

/// The file a request path names: none under `/api/` or `/v1/`; the console's
/// page for the root, the empty path, or a path without a `.`; else the path
/// without its leading `/`.
pub open spec fn asset_path_spec(path: Seq<char>) -> Option<Seq<char>> {
    if is_prefix("/api/"@, path) || is_prefix("/v1/"@, path) {
        None
    } else if path == "/"@ || path.len() == 0 || !path.contains('.') {
        Some(FALLBACK@)
    } else {
        Some(trim_leading_slashes(path))
    }
}

fn trim_start_slashes(s: &str) -> (r: &str)
    ensures
        r@ == trim_leading_slashes(s@),
{
    let n = s.unicode_len();
    let mut i: usize = 0;
    assert(s@.subrange(0, n as int) =~= s@);
    while i < n && s.get_char(i) == '/'
        invariant
            n == s@.len(),
            0 <= i <= n,
            trim_leading_slashes(s@) == trim_leading_slashes(s@.subrange(i as int, n as int)),
        decreases n - i,
    {
        assert(s@.subrange(i as int, n as int).drop_first() =~= s@.subrange(i + 1, n as int));
        i = i + 1;
    }
    s.substring_char(i, n)
}

/// The file a request path names, if any.
pub fn asset_path(path: &str) -> (r: Option<String>)
    ensures
        match asset_path_spec(path@) {
            Some(p) => r matches Some(s) && s@ == p,
            None => r is None,
        },
{
    if char_prefix("/api/", path) || char_prefix("/v1/", path) {
        return None;
    }
    if text_eq(path, "/") || path.unicode_len() == 0 || !contains_char(path, '.') {
        Some(String::from_str(FALLBACK))
    } else {
        Some(String::from_str(trim_start_slashes(path)))
    }
}

/// The MIME type `mime_guess` gives a file name, by its extension.
pub uninterp spec fn guessed_mime(name: Seq<char>) -> Seq<char>;

/// The MIME type of a file name: `mime_guess::from_path`, then
/// `first_or_octet_stream`, as text. The type itself is only named.
#[verifier::external_body]
fn mime_for(name: &str) -> (r: String)
    ensures
        r@ == guessed_mime(name@),
{
    mime_guess::from_path(name).first_or_octet_stream().to_string()
}

/// How a request for a console file is answered.
#[derive(Debug, Clone)]
pub enum AssetReply {
    /// 404 with an empty body.
    NotFound,
    /// 200 with the file at `file`, its MIME type and cache policy.
    File { file: usize, content_type: String, cache_control: String },
    /// 200 with the console's page at `file`, as HTML, with no cache policy.
    Page { file: usize },
}

/// The answer to a request path: the named file with its MIME type (no
/// caching for the console's page, long-lived caching otherwise); a missing
/// file falls back to the console's page; anything else is 404.
pub open spec fn reply_spec(files: Seq<(String, Vec<u8>)>, path: Seq<char>, r: AssetReply) -> bool {
    match asset_path_spec(path) {
        None => r is NotFound,
        Some(p) => match file_index(files, p, 0) {
            Some(i) => r matches AssetReply::File { file, content_type, cache_control }
                && file == i
                && content_type@ == guessed_mime(p)
                && cache_control@ == (if p == FALLBACK@ { "no-cache"@ } else { CACHE_IMMUTABLE@ }),
            None => if p != FALLBACK@ && file_index(files, FALLBACK@, 0) is Some {
                r == AssetReply::Page { file: file_index(files, FALLBACK@, 0)->0 as usize }
            } else {
                r is NotFound
            },
        },
    }
}

fn index_of(assets: &StaticAssets, name: &str) -> (r: Option<usize>)
    ensures
        match r {
            Some(i) => file_index(assets.files_spec(), name@, 0) == Some(i as int),
            None => file_index(assets.files_spec(), name@, 0) is None,
        },
{
    let mut i: usize = 0;
    while i < assets.files.len()
        invariant
            0 <= i <= assets.files@.len(),
            file_index(assets.files@, name@, 0) == file_index(assets.files@, name@, i as int),
        decreases assets.files@.len() - i,
    {
        if text_eq(assets.files[i].0.as_str(), name) {
            return Some(i);
        }
        i = i + 1;
    }
    None
}

/// How a request for `path` is answered from `assets`.
pub fn serve(assets: &StaticAssets, path: &str) -> (r: AssetReply)
    ensures
        reply_spec(assets.files_spec(), path@, r),
{
    let file_path = match asset_path(path) {
        Some(p) => p,
        None => return AssetReply::NotFound,
    };
    match index_of(assets, file_path.as_str()) {
        Some(i) => {
            let cache_control = if text_eq(file_path.as_str(), FALLBACK) {
                String::from_str("no-cache")
            } else {
                String::from_str(CACHE_IMMUTABLE)
            };
            AssetReply::File { file: i, content_type: mime_for(file_path.as_str()), cache_control }
        },
        None => {
            if !text_eq(file_path.as_str(), FALLBACK) {
                match index_of(assets, FALLBACK) {
                    Some(i) => return AssetReply::Page { file: i },
                    None => {},
                }
            }
            AssetReply::NotFound
        },
    }
}

} // verus!
