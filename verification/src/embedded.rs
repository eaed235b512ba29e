//! The files of the front end, and what a request for one of them is
//! answered with.

use crate::text::{
    has_prefix, same_text, strip_leading, text_starts_with, without_leading,
};
use vstd::prelude::*;

verus! {

/// One file of the front end.
#[derive(Clone, Debug, PartialEq)]
pub struct EmbeddedFile {
    /// The file's path below the front end's root, without a leading `/`.
    pub path: String,
    pub data: Vec<u8>,
}

/// The files of the front end.
#[derive(Clone, Debug, PartialEq)]
pub struct Asset {
    pub files: Vec<EmbeddedFile>,
}

/// The media type that `mime_guess` finds for a path, by the path's
/// extension alone.
pub uninterp spec fn guessed_mime(path: Seq<char>) -> Seq<char>;

/// Calls `mime_guess::from_path` and then `first_or_octet_stream` on the
/// guess: the first media type that the crate's table holds for the path's
/// extension, and `application/octet-stream` where it holds none. No file is
/// looked at.
#[verifier::external_body]
fn guess_mime(path: &str) -> (r: String)
    ensures
        r@ == guessed_mime(path@),
{
    mime_guess::from_path(path).first_or_octet_stream().as_ref().to_owned()
}

/// The answer to a request.
#[derive(Clone, Debug, PartialEq)]
pub struct StaticResponse {
    pub status: u16,
    pub content_type: Option<String>,
    pub body: Vec<u8>,
}

/// The place of the first file with the path `path`.
pub open spec fn file_index(files: Seq<EmbeddedFile>, path: Seq<char>) -> Option<int>
    decreases files.len(),
{
    if files.len() == 0 {
        None
    } else if file_index(files.drop_last(), path) is Some {
        file_index(files.drop_last(), path)
    } else if files.last().path@ == path {
        Some(files.len() - 1)
    } else {
        None
    }
}

/// What `file_index` finds is the place of a file with that path.
pub proof fn lemma_file_index(files: Seq<EmbeddedFile>, path: Seq<char>)
    ensures
        match file_index(files, path) {
            Some(i) => 0 <= i < files.len() && files[i].path@ == path && forall|j: int|
                0 <= j < i ==> (#[trigger] files[j]).path@ != path,
            None => forall|j: int| 0 <= j < files.len() ==> (#[trigger] files[j]).path@ != path,
        },
    decreases files.len(),
{
    if files.len() > 0 {
        lemma_file_index(files.drop_last(), path);
        assert forall|j: int| 0 <= j < files.len() - 1 implies files.drop_last()[j] == files[j] by {}
        match file_index(files.drop_last(), path) {
            Some(i) => {
                assert(files.drop_last()[i] == files[i]);
                assert forall|j: int| 0 <= j < i implies (#[trigger] files[j]).path@ != path by {
                    assert(files.drop_last()[j] == files[j]);
                }
            },
            None => {
                assert forall|j: int| 0 <= j < files.len() - 1 implies (#[trigger] files[j]).path@
                    != path by {
                    assert(files.drop_last()[j] == files[j]);
                }
            },
        }
    }
}

/// Whether `r` answers with the file `f`, with the media type `mime`.
pub open spec fn serves(r: StaticResponse, f: EmbeddedFile, mime: Seq<char>) -> bool {
    &&& r.status == 200
    &&& r.content_type matches Some(t)
    &&& t@ == mime
    &&& r.body@ == f.data@
}

/// Whether `r` says that nothing was found, with the words `text`.
pub open spec fn not_found(r: StaticResponse, text: Seq<char>) -> bool {
    &&& r.status == 404
    &&& r.content_type is None
    &&& r.body@ == vstd::utf8::encode_utf8(text)
}

/// Whether `r` is the answer to a request for the start page.
pub open spec fn answers_index(files: Seq<EmbeddedFile>, r: StaticResponse) -> bool {
    match file_index(files, "index.html"@) {
        Some(i) => serves(r, files[i], "text/html"@),
        None => not_found(r, "Frontend not found. Please build the frontend first."@),
    }
}

/// Whether `r` is the answer to a request for `path`: the file of that
/// path, after its leading `/` were dropped, with the media type that its
/// name suggests; else, unless the path belongs to the API, the start page;
/// else the word that nothing was found.
pub open spec fn answers_static(files: Seq<EmbeddedFile>, path: Seq<char>, r: StaticResponse) -> bool {
    let p = without_leading(path, '/');
    match file_index(files, p) {
        Some(i) => serves(r, files[i], guessed_mime(p)),
        None => if !has_prefix(p, "api/"@) && file_index(files, "index.html"@) is Some {
            serves(r, files[file_index(files, "index.html"@)->Some_0], "text/html"@)
        } else {
            not_found(r, "404 Not Found"@)
        },
    }
}

/// A copy of the bytes.
fn copy_bytes(data: &Vec<u8>) -> (r: Vec<u8>)
    ensures
        r@ == data@,
{
    let mut out: Vec<u8> = Vec::new();
    let mut i: usize = 0;
    while i < data.len()
        invariant
            i <= data.len(),
            out@ == data@.take(i as int),
        decreases data.len() - i,
    {
        out.push(data[i]);
        assert(out@ =~= data@.take(i + 1));
        i = i + 1;
    }
    assert(data@.take(data.len() as int) =~= data@);
    out
}

impl Asset {
    /// The front end with these files.
    pub fn new(files: Vec<EmbeddedFile>) -> (r: Self)
        ensures
            r.files == files,
    {
        Asset { files }
    }

    /// The first file with the path `path`.
    pub fn get(&self, path: &str) -> (r: Option<&EmbeddedFile>)
        ensures
            match r {
                Some(f) => file_index(self.files@, path@) matches Some(i) && *f == self.files@[i],
                None => file_index(self.files@, path@) is None,
            },
    {
        let mut i: usize = 0;
        proof {
            lemma_file_index(self.files@, path@);
        }
        while i < self.files.len()
            invariant
                i <= self.files.len(),
                forall|j: int| 0 <= j < i ==> (#[trigger] self.files@[j]).path@ != path@,
                match file_index(self.files@, path@) {
                    Some(k) => 0 <= k < self.files@.len() && self.files@[k].path@ == path@
                        && forall|j: int| 0 <= j < k ==> (#[trigger] self.files@[j]).path@ != path@,
                    None => forall|j: int|
                        0 <= j < self.files@.len() ==> (#[trigger] self.files@[j]).path@ != path@,
                },
            decreases self.files.len() - i,
        {
            if same_text(self.files[i].path.as_str(), path) {
                return Some(&self.files[i]);
            }
            i = i + 1;
        }
        None
    }

    /// The answer with the file `f` and the media type `mime`.
    fn serve(f: &EmbeddedFile, mime: String) -> (r: StaticResponse)
        ensures
            serves(r, *f, mime@),
    {
        StaticResponse { status: 200, content_type: Some(mime), body: copy_bytes(&f.data) }
    }

    /// The answer that nothing was found, with the words `text`.
    fn missing(text: &str) -> (r: StaticResponse)
        ensures
            not_found(r, text@),
    {
        StaticResponse { status: 404, content_type: None, body: text.as_bytes_vec() }
    }

    /// The answer to a request for the start page.
    pub fn serve_index(&self) -> (r: StaticResponse)
        ensures
            answers_index(self.files@, r),
    {
        match self.get("index.html") {
            Some(f) => Self::serve(f, "text/html".to_owned()),
            None => Self::missing("Frontend not found. Please build the frontend first."),
        }
    }

    /// The answer to a request for the file at `path`.
    pub fn serve_static(&self, path: &str) -> (r: StaticResponse)
        ensures
            answers_static(self.files@, path@, r),
    {
        let p = strip_leading(path, '/');
        match self.get(p.as_str()) {
            Some(f) => {
                return Self::serve(f, guess_mime(p.as_str()));
            },
            None => {},
        }
        if !text_starts_with(p.as_str(), "api/") {
            match self.get("index.html") {
                Some(f) => {
                    return Self::serve(f, "text/html".to_owned());
                },
                None => {},
            }
        }
        Self::missing("404 Not Found")
    }
}

} // verus!
