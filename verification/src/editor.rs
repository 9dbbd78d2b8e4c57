//! The data editors' HTTP server logic: which request goes where, which
//! static file a URL names, the media type of a file, and the JSON error
//! body. The server loop, files and RON/JSON conversion live in the app.

use vstd::prelude::*;
use vstd::string::{StrSliceExecFns, StringExecFns};

verus! {

/// A dialogue choice, as the editors exchange it.
#[derive(Clone, Debug)]
pub struct Choice {
    pub event: u32,
    pub text: String,
    pub next: Option<String>,
}

/// A dialogue line, as the editors exchange it.
#[derive(Clone, Debug)]
pub struct Dialogue {
    pub id: String,
    pub speaker: String,
    pub text: String,
    pub next: Option<String>,
    pub choices: Option<Vec<Choice>>,
}

/// The request methods the server tells apart.
#[derive(Clone, Copy, Debug, PartialEq, Eq, Structural)]
pub enum RequestMethod {
    Get,
    Post,
    Other,
}

/// Where a request goes.
#[derive(Clone, Debug)]
pub enum EditorRoute {
    LoadAbilities,
    SaveAbilities,
    LoadDialogues,
    SaveDialogues,
    /// A static file, by its URL path.
    Static(String),
    MethodNotAllowed,
}

/// The index of the first `c` in `s`, or `s.len()` when there is none.
pub open spec fn first_index_of(s: Seq<char>, c: char) -> int
    decreases s.len(),
{
    if s.len() == 0 {
        0
    } else if s[0] == c {
        0
    } else {
        1 + first_index_of(s.drop_first(), c)
    }
}

/// The path part of a URL: everything before the first `?`.
pub open spec fn url_path(url: Seq<char>) -> Seq<char> {
    url.take(first_index_of(url, '?'))
}

pub(crate) proof fn lemma_first_index_bounds(s: Seq<char>, c: char)
    ensures
        0 <= first_index_of(s, c) <= s.len(),
        forall|k: int| 0 <= k < first_index_of(s, c) ==> s[k] != c,
        first_index_of(s, c) < s.len() ==> s[first_index_of(s, c)] == c,
    decreases s.len(),
{
    if s.len() > 0 && s[0] != c {
        lemma_first_index_bounds(s.drop_first(), c);
        assert forall|k: int| 0 <= k < first_index_of(s, c) implies s[k] != c by {
            if k > 0 {
                assert(s[k] == s.drop_first()[k - 1]);
            }
        }
    }
}

/// Whether two strings hold the same characters.
pub fn same_text(a: &str, b: &str) -> (r: bool)
    ensures
        r == (a@ == b@),
{
    let n = a.unicode_len();
    if n != b.unicode_len() {
        return false;
    }
    let mut i: usize = 0;
    while i < n
        invariant
            n == a@.len(),
            n == b@.len(),
            i <= n,
            forall|k: int| 0 <= k < i ==> a@[k] == b@[k],
        decreases n - i,
    {
        if a.get_char(i) != b.get_char(i) {
            return false;
        }
        i = i + 1;
    }
    assert(a@ =~= b@);
    true
}

/// The path part of a URL: everything before the first `?`.
pub fn path_of_url(url: &str) -> (r: &str)
    ensures
        r@ == url_path(url@),
{
    proof {
        lemma_first_index_bounds(url@, '?');
    }
    let n = url.unicode_len();
    let mut i: usize = 0;
    while i < n
        invariant
            n == url@.len(),
            i <= n,
            forall|k: int| 0 <= k < i ==> url@[k] != '?',
        decreases n - i,
    {
        if url.get_char(i) == '?' {
            proof {
                lemma_first_index_is(url@, '?', i as int);
            }
            return url.substring_char(0, i);
        }
        i = i + 1;
    }
    proof {
        lemma_first_index_is(url@, '?', n as int);
    }
    url.substring_char(0, n)
}

proof fn lemma_first_index_is(s: Seq<char>, c: char, i: int)
    requires
        0 <= i <= s.len(),
        forall|k: int| 0 <= k < i ==> s[k] != c,
        i < s.len() ==> s[i] == c,
    ensures
        first_index_of(s, c) == i,
    decreases s.len(),
{
    if s.len() > 0 && i > 0 {
        assert(s[0] != c);
        assert forall|k: int| 0 <= k < i - 1 implies s.drop_first()[k] != c by {
            assert(s.drop_first()[k] == s[k + 1]);
        }
        lemma_first_index_is(s.drop_first(), c, i - 1);
    }
}

/// Where a request with `method` and `url` goes: by the URL's path (what
/// precedes any `?`), GET and POST of `/api/abilities` load and save the
/// abilities, GET and POST of `/api/dialogues` load and save the dialogues,
/// any other GET names a static file, and anything else is refused.
pub fn route_request(method: RequestMethod, url: &str) -> (r: EditorRoute)
    ensures
        ({
            let p = url_path(url@);
            if p == "/api/abilities"@ && method == RequestMethod::Get {
                r is LoadAbilities
            } else if p == "/api/abilities"@ && method == RequestMethod::Post {
                r is SaveAbilities
            } else if p == "/api/dialogues"@ && method == RequestMethod::Get {
                r is LoadDialogues
            } else if p == "/api/dialogues"@ && method == RequestMethod::Post {
                r is SaveDialogues
            } else if method == RequestMethod::Get {
                r matches EditorRoute::Static(s) && s@ == p
            } else {
                r is MethodNotAllowed
            }
        }),
{
    let path = path_of_url(url);
    let abilities = same_text(path, "/api/abilities");
    let dialogues = same_text(path, "/api/dialogues");
    match method {
        RequestMethod::Get => {
            if abilities {
                EditorRoute::LoadAbilities
            } else if dialogues {
                EditorRoute::LoadDialogues
            } else {
                EditorRoute::Static(String::from_str(path))
            }
        },
        RequestMethod::Post => {
            if abilities {
                EditorRoute::SaveAbilities
            } else if dialogues {
                EditorRoute::SaveDialogues
            } else {
                EditorRoute::MethodNotAllowed
            }
        },
        RequestMethod::Other => EditorRoute::MethodNotAllowed,
    }
}

/// The number of leading `/` characters.
pub open spec fn leading_slashes(s: Seq<char>) -> int
    decreases s.len(),
{
    if s.len() > 0 && s[0] == '/' {
        1 + leading_slashes(s.drop_first())
    } else {
        0
    }
}

proof fn lemma_leading_slashes(s: Seq<char>, i: int)
    requires
        0 <= i <= s.len(),
        forall|k: int| 0 <= k < i ==> s[k] == '/',
        i < s.len() ==> s[i] != '/',
    ensures
        leading_slashes(s) == i,
    decreases s.len(),
{
    if i > 0 {
        assert forall|k: int| 0 <= k < i - 1 implies s.drop_first()[k] == '/' by {
            assert(s.drop_first()[k] == s[k + 1]);
        }
        lemma_leading_slashes(s.drop_first(), i - 1);
    }
}

/// The file a static URL path names, relative to the static root: the path
/// without its leading slashes, or `index.html` when nothing is left.
pub fn static_relative_path(url_path: &str) -> (r: String)
    ensures
        r@ == (if leading_slashes(url_path@) == url_path@.len() {
            "index.html"@
        } else {
            url_path@.skip(leading_slashes(url_path@))
        }),
{
    let n = url_path.unicode_len();
    let mut i: usize = 0;
    while i < n && url_path.get_char(i) == '/'
        invariant
            n == url_path@.len(),
            i <= n,
            forall|k: int| 0 <= k < i ==> url_path@[k] == '/',
        decreases n - i,
    {
        i = i + 1;
    }
    proof {
        lemma_leading_slashes(url_path@, i as int);
    }
    if i == n {
        String::from_str("index.html")
    } else {
        let rest = url_path.substring_char(i, n);
        assert(rest@ =~= url_path@.skip(i as int));
        String::from_str(rest)
    }
}

/// `s` with each double quote turned into a single quote.
pub open spec fn quotes_to_apostrophes(s: Seq<char>) -> Seq<char> {
    s.map_values(|c: char| if c == '"' { '\'' } else { c })
}

/// The JSON body of an error reply: `{"error":"` the message with double
/// quotes turned into single quotes `"}`.
pub fn error_body(msg: &str) -> (r: String)
    ensures
        r@ == "{\"error\":\""@ + quotes_to_apostrophes(msg@) + "\"}"@,
{
    let mut out = String::from_str("{\"error\":\"");
    let ghost head = out@;
    let n = msg.unicode_len();
    let mut i: usize = 0;
    while i < n
        invariant
            n == msg@.len(),
            i <= n,
            out@ == head + quotes_to_apostrophes(msg@.take(i as int)),
        decreases n - i,
    {
        let c = msg.get_char(i);
        if c == '"' {
            out.append("'");
        } else {
            out.append(msg.substring_char(i, i + 1));
        }
        proof {
            assert(quotes_to_apostrophes(msg@.take(i as int + 1)) =~= quotes_to_apostrophes(
                msg@.take(i as int),
            ).push(if c == '"' { '\'' } else { c }));
            reveal_strlit("'");
        }
        i = i + 1;
    }
    assert(msg@.take(n as int) =~= msg@);
    out.append("\"}");
    out
}

/// The index of the last `c` in `s`, or -1.
pub open spec fn last_index_of_char(s: Seq<char>, c: char) -> int
    decreases s.len(),
{
    if s.len() == 0 {
        -1
    } else if s.last() == c {
        s.len() - 1
    } else {
        last_index_of_char(s.drop_last(), c)
    }
}

/// A path without what its last segment is followed by: the `/` characters
/// it ends with and the `.` segments (current directory) among them.
pub open spec fn trimmed_path(path: Seq<char>) -> Seq<char>
    decreases path.len(),
{
    if path.len() > 0 && (path.last() == '/' || (path.last() == '.' && path.len() >= 2 && path[path.len() - 2]
        == '/')) {
        trimmed_path(path.drop_last())
    } else {
        path
    }
}

/// The last segment of a path: what follows its last `/`, once the slashes
/// and `.` segments it ends with are set aside.
pub open spec fn file_name(path: Seq<char>) -> Seq<char> {
    let t = trimmed_path(path);
    t.skip(last_index_of_char(t, '/') + 1)
}

fn trimmed_end(path: &str) -> (r: &str)
    ensures
        r@ == trimmed_path(path@),
{
    let n = path.unicode_len();
    let mut end: usize = n;
    proof {
        assert(path@.take(n as int) =~= path@);
    }
    while end > 0 && (path.get_char(end - 1) == '/' || (end >= 2 && path.get_char(end - 1) == '.'
        && path.get_char(end - 2) == '/'))
        invariant
            n == path@.len(),
            end <= n,
            trimmed_path(path@.take(end as int)) == trimmed_path(path@),
        decreases end,
    {
        proof {
            let t = path@.take(end as int);
            assert(t.drop_last() =~= path@.take(end - 1));
        }
        end = end - 1;
    }
    let r = path.substring_char(0, end);
    assert(r@ =~= path@.take(end as int));
    r
}

/// The extension of a path: what follows the last `.` of its last segment,
/// when that dot is not the segment's first character and the segment is not
/// `..` (the parent directory).
pub open spec fn extension(path: Seq<char>) -> Option<Seq<char>> {
    let f = file_name(path);
    let d = last_index_of_char(f, '.');
    if d > 0 && f != ".."@ {
        Some(f.skip(d + 1))
    } else {
        None
    }
}

/// The media type the server sends for an extension.
pub open spec fn mime_for(ext: Seq<char>) -> Seq<char> {
    if ext == "html"@ || ext == "htm"@ {
        "text/html; charset=utf-8"@
    } else if ext == "js"@ || ext == "mjs"@ {
        "application/javascript; charset=utf-8"@
    } else if ext == "css"@ {
        "text/css; charset=utf-8"@
    } else if ext == "json"@ {
        "application/json"@
    } else if ext == "ron"@ {
        "text/plain; charset=utf-8"@
    } else if ext == "svg"@ {
        "image/svg+xml"@
    } else if ext == "png"@ {
        "image/png"@
    } else if ext == "webp"@ {
        "image/webp"@
    } else {
        "application/octet-stream"@
    }
}

proof fn lemma_last_index_char(s: Seq<char>, c: char, i: int)
    requires
        -1 <= i < s.len(),
        forall|k: int| i < k < s.len() ==> s[k] != c,
        i >= 0 ==> s[i] == c,
    ensures
        last_index_of_char(s, c) == i,
    decreases s.len(),
{
    if s.len() > 0 && i < s.len() - 1 {
        assert forall|k: int| i < k < s.drop_last().len() implies s.drop_last()[k] != c by {
            assert(s.drop_last()[k] == s[k]);
        }
        lemma_last_index_char(s.drop_last(), c, i);
    }
}

fn last_char_index(s: &str, c: char) -> (r: Option<usize>)
    ensures
        match r {
            Some(i) => last_index_of_char(s@, c) == i && i < s@.len(),
            None => last_index_of_char(s@, c) == -1,
        },
{
    let n = s.unicode_len();
    let mut i: usize = n;
    while i > 0
        invariant
            n == s@.len(),
            i <= n,
            forall|k: int| i <= k < n ==> s@[k] != c,
        decreases i,
    {
        if s.get_char(i - 1) == c {
            proof {
                lemma_last_index_char(s@, c, i - 1);
            }
            return Some(i - 1);
        }
        i = i - 1;
    }
    proof {
        lemma_last_index_char(s@, c, -1);
    }
    None
}

/// The media type of a file by its path's extension: HTML, JavaScript, CSS,
/// JSON, RON (as plain text), SVG, PNG and WebP; anything else is sent as an
/// octet stream.
pub fn guess_mime(path: &str) -> (r: &'static str)
    ensures
        r@ == match extension(path@) {
            Some(e) => mime_for(e),
            None => mime_for(seq![]),
        },
{
    let trimmed = trimmed_end(path);
    let n = trimmed.unicode_len();
    let start: usize = match last_char_index(trimmed, '/') {
        Some(i) => i + 1,
        None => 0,
    };
    let name = trimmed.substring_char(start, n);
    assert(name@ =~= file_name(path@));
    let ext: &str = match last_char_index(name, '.') {
        Some(d) => {
            if d > 0 {
                let e = name.substring_char(d + 1, name.unicode_len());
                assert(e@ =~= name@.skip(d as int + 1));
                e
            } else {
                ""
            }
        },
        None => "",
    };
    proof {
        reveal_strlit("");
        reveal_strlit("..");
        if name@ == ".."@ {
            assert(name@.len() == 2);
            assert(ext@.len() == 0);
        }
        assert(ext@ == match extension(path@) {
            Some(e) => e,
            None => Seq::<char>::empty(),
        });
    }
    if same_text(ext, "html") || same_text(ext, "htm") {
        "text/html; charset=utf-8"
    } else if same_text(ext, "js") || same_text(ext, "mjs") {
        "application/javascript; charset=utf-8"
    } else if same_text(ext, "css") {
        "text/css; charset=utf-8"
    } else if same_text(ext, "json") {
        "application/json"
    } else if same_text(ext, "ron") {
        "text/plain; charset=utf-8"
    } else if same_text(ext, "svg") {
        "image/svg+xml"
    } else if same_text(ext, "png") {
        "image/png"
    } else if same_text(ext, "webp") {
        "image/webp"
    } else {
        "application/octet-stream"
    }
}

} // verus!
