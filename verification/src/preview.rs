//! A workspace's HTML, served to the file pane's preview frame, and its images.

use vstd::prelude::*;
use vstd::string::*;
use crate::api::{refuse, ApiError, Said};
use crate::paths::{
    an_extension_ends_the_name, begins, components, extension, extension_of, folder, folder_of, split,
};
use crate::text::{cat2, chars_of, ends_with, lower, lowered, opt_text, same, small, starts_with};

verus! {

/// Largest file the routes serve, in bytes.
pub const MAX_BYTES: u64 = 16777216;

pub struct OpenBody {
    pub workspace: String,
    pub path: String,
}

#[derive(Debug)]
pub struct Opened {
    pub token: String,
}

pub struct ImageQuery {
    pub workspace: String,
    pub path: String,
}

/// What a preview's token lets its frame read.
#[derive(Debug)]
pub struct PreviewGrant {
    pub workspace: String,
    pub page: String,
    /// Whether git ignores the page: then it is build output.
    pub page_ignored: bool,
}

pub open spec fn same_grant(a: PreviewGrant, b: PreviewGrant) -> bool {
    a.workspace@ == b.workspace@ && a.page@ == b.page@ && a.page_ignored == b.page_ignored
}

// ---------------------------------------------------------------------------
// Opening a preview
// ---------------------------------------------------------------------------

/// Whether a path is a page's.
pub open spec fn is_page(path: Seq<char>) -> bool {
    ".html"@.is_suffix_of(lowered(path)) || ".htm"@.is_suffix_of(lowered(path))
}

/// Every page is one by its ending, in small letters or in capitals, and nothing without such
/// an ending is.
pub proof fn a_page_is_known_by_its_ending(stem: Seq<char>, path: Seq<char>)
    ensures
        is_page(stem + ".html"@),
        is_page(stem + ".htm"@),
        is_page(stem + ".HTML"@),
        is_page(stem + ".HTM"@),
        is_page(path) ==> path.len() >= 4 && (small(path.last()) == 'm' || (small(path.last())
            == 'l' && small(path[path.len() - 2]) == 'm')),
        is_page(path) ==> path[path.len() - 4] == '.' || (path.len() > 4 && path[path.len() - 5]
            == '.'),
{
    reveal_strlit(".html");
    reveal_strlit(".htm");
    reveal_strlit(".HTML");
    reveal_strlit(".HTM");
    let n = stem.len() as int;
    let a = lowered(stem + ".html"@);
    assert(a.subrange(n, n + 5) =~= ".html"@);
    let b = lowered(stem + ".htm"@);
    assert(b.subrange(n, n + 4) =~= ".htm"@);
    let c = lowered(stem + ".HTML"@);
    assert(c.subrange(n, n + 5) =~= ".html"@);
    let d = lowered(stem + ".HTM"@);
    assert(d.subrange(n, n + 4) =~= ".htm"@);
    let l = lowered(path);
    let m = l.len() as int;
    if ".html"@.is_suffix_of(l) {
        let end = l.subrange(m - 5, m);
        assert(end[0] == l[m - 5] && end[3] == l[m - 2] && end[4] == l[m - 1]);
        assert(small(path[m - 5]) == '.');
    } else if ".htm"@.is_suffix_of(l) {
        let end = l.subrange(m - 4, m);
        assert(end[0] == l[m - 4] && end[3] == l[m - 1]);
        assert(small(path[m - 4]) == '.');
    }
}

/// Why a page is not previewed, if it is not.
pub open spec fn open_refusal(body: OpenBody, known: bool, is_file: bool) -> Option<Said> {
    if !is_page(body.path@) {
        Some(Said::Failed("only an .html file can be previewed"@))
    } else if !known {
        Some(Said::Failed("unknown workspace "@ + body.workspace@))
    } else if !is_file {
        Some(Said::Failed(body.path@ + " is not a file"@))
    } else {
        None
    }
}

/// Whether a page may be previewed: `known` is whether its workspace is, and `is_file`
/// whether the path names a file there.
pub fn open(body: &OpenBody, known: bool, is_file: bool) -> (r: Result<(), ApiError>)
    ensures
        match open_refusal(*body, known, is_file) {
            Some(why) => r is Err && r->Err_0@ == why,
            None => r is Ok,
        },
{
    let low: String = lower(body.path.as_str());
    if !(ends_with(low.as_str(), ".html") || ends_with(low.as_str(), ".htm")) {
        return Err(refuse("only an .html file can be previewed".to_owned()));
    }
    if !known {
        return Err(refuse(cat2("unknown workspace ", body.workspace.as_str())));
    }
    if !is_file {
        return Err(refuse(cat2(body.path.as_str(), " is not a file")));
    }
    Ok(())
}

/// A page is previewed wherever it is a file of a workspace that there is.
pub proof fn a_page_that_is_there_is_previewed(body: OpenBody, known: bool, is_file: bool)
    ensures
        open_refusal(body, known, is_file) is None <==> is_page(body.path@) && known && is_file,
{
}

/// A token and what it grants.
pub struct Preview {
    pub token: String,
    pub grant: PreviewGrant,
}

/// The first token that grants this, if one does.
pub open spec fn token_for(list: Seq<Preview>, grant: PreviewGrant) -> Option<Seq<char>>
    decreases list.len(),
{
    if list.len() == 0 {
        None
    } else if same_grant(list[0].grant, grant) {
        Some(list[0].token@)
    } else {
        token_for(list.skip(1), grant)
    }
}

/// What a token grants, if it grants anything.
pub open spec fn granted(list: Seq<Preview>, token: Seq<char>) -> Option<PreviewGrant>
    decreases list.len(),
{
    if list.len() == 0 {
        None
    } else if list[0].token@ == token {
        Some(list[0].grant)
    } else {
        granted(list.skip(1), token)
    }
}

/// A page goes by the first token that was given for it, and a token grants what it was first
/// given for: another page, another workspace, or a page that has since been built, has
/// another.
pub proof fn a_token_is_for_its_own_page(
    list: Seq<Preview>,
    grant: PreviewGrant,
    token: Seq<char>,
    i: int,
    k: int,
)
    requires
        0 <= i < list.len(),
        0 <= k < list.len(),
        list[i].grant.workspace@ == grant.workspace@,
        list[i].grant.page@ == grant.page@,
        list[i].grant.page_ignored == grant.page_ignored,
        forall|j: int|
            0 <= j < i ==> (#[trigger] list[j]).grant.workspace@ != grant.workspace@
                || list[j].grant.page@ != grant.page@ || list[j].grant.page_ignored
                != grant.page_ignored,
        list[k].token@ == token,
        forall|j: int| 0 <= j < k ==> (#[trigger] list[j]).token@ != token,
    ensures
        token_for(list, grant) == Some(list[i].token@),
        granted(list, token) == Some(list[k].grant),
{
    lemma_token_for(list, grant, i);
    lemma_granted(list, token, k);
}

proof fn lemma_token_for(list: Seq<Preview>, grant: PreviewGrant, i: int)
    requires
        0 <= i < list.len(),
        same_grant(list[i].grant, grant),
        forall|j: int| 0 <= j < i ==> !same_grant((#[trigger] list[j]).grant, grant),
    ensures
        token_for(list, grant) == Some(list[i].token@),
    decreases list.len(),
{
    if i > 0 {
        let rest = list.skip(1);
        assert(!same_grant(list[0].grant, grant));
        assert forall|j: int| 0 <= j < i - 1 implies !same_grant(
            (#[trigger] rest[j]).grant,
            grant,
        ) by {
            assert(!same_grant(list[j + 1].grant, grant));
        }
        lemma_token_for(rest, grant, i - 1);
    }
}

proof fn lemma_granted(list: Seq<Preview>, token: Seq<char>, k: int)
    requires
        0 <= k < list.len(),
        list[k].token@ == token,
        forall|j: int| 0 <= j < k ==> (#[trigger] list[j]).token@ != token,
    ensures
        granted(list, token) == Some(list[k].grant),
    decreases list.len(),
{
    if k > 0 {
        let rest = list.skip(1);
        assert(list[0].token@ != token);
        assert forall|j: int| 0 <= j < k - 1 implies (#[trigger] rest[j]).token@ != token by {
            assert(list[j + 1].token@ != token);
        }
        lemma_granted(rest, token, k - 1);
    }
}

fn is_same_grant(a: &PreviewGrant, b: &PreviewGrant) -> (r: bool)
    ensures
        r == same_grant(*a, *b),
{
    same(a.workspace.as_str(), b.workspace.as_str()) && same(a.page.as_str(), b.page.as_str())
        && a.page_ignored == b.page_ignored
}

fn find_grant(list: &Vec<Preview>, grant: &PreviewGrant) -> (r: Option<String>)
    ensures
        opt_text(r) == token_for(list@, *grant),
{
    let mut i: usize = 0;
    proof {
        assert(list@.skip(0) =~= list@);
    }
    while i < list.len()
        invariant
            i <= list@.len(),
            token_for(list@, *grant) == token_for(list@.skip(i as int), *grant),
        decreases list@.len() - i,
    {
        if is_same_grant(&list[i].grant, grant) {
            return Some(list[i].token.clone());
        }
        proof {
            assert(list@.skip(i as int).skip(1) =~= list@.skip(i + 1));
        }
        i += 1;
    }
    None
}

/// What a token grants, if it grants anything.
pub fn grant_of<'a>(list: &'a Vec<Preview>, token: &str) -> (r: Option<&'a PreviewGrant>)
    ensures
        granted(list@, token@) == match r {
            Some(g) => Some(*g),
            None => None,
        },
{
    let mut i: usize = 0;
    proof {
        assert(list@.skip(0) =~= list@);
    }
    while i < list.len()
        invariant
            i <= list@.len(),
            granted(list@, token@) == granted(list@.skip(i as int), token@),
        decreases list@.len() - i,
    {
        if same(list[i].token.as_str(), token) {
            return Some(&list[i].grant);
        }
        proof {
            assert(list@.skip(i as int).skip(1) =~= list@.skip(i + 1));
        }
        i += 1;
    }
    None
}

/// The token that lets a frame read a page's workspace: the one it already has, or a
/// fresh one.
pub fn token_of(list: &mut Vec<Preview>, grant: PreviewGrant, fresh: String) -> (r: Opened)
    ensures
        match token_for(old(list)@, grant) {
            Some(t) => r.token@ == t && final(list)@ == old(list)@,
            None => r.token == fresh && final(list)@ == seq![(Preview { token: fresh, grant })]
                + old(list)@,
        },
        pages_apart(old(list)@) ==> pages_apart(final(list)@),
{
    proof {
        lemma_no_token(list@, grant);
    }
    match find_grant(list, &grant) {
        Some(token) => Opened { token },
        None => {
            let token: String = fresh.clone();
            list.insert(0, Preview { token: fresh, grant });
            proof {
                assert(list@ =~= seq![(Preview { token: fresh, grant })] + old(list)@);
            }
            Opened { token }
        },
    }
}

/// Whether no page has two tokens.
pub open spec fn pages_apart(list: Seq<Preview>) -> bool {
    forall|i: int, j: int|
        0 <= i < j < list.len() ==> !same_grant(list[i].grant, list[j].grant)
}

proof fn lemma_no_token(list: Seq<Preview>, grant: PreviewGrant)
    ensures
        token_for(list, grant) is None ==> forall|i: int|
            0 <= i < list.len() ==> !same_grant((#[trigger] list[i]).grant, grant),
    decreases list.len(),
{
    if list.len() > 0 {
        let rest = list.skip(1);
        lemma_no_token(rest, grant);
        if token_for(list, grant) is None {
            assert forall|i: int| 0 <= i < list.len() implies !same_grant(
                (#[trigger] list[i]).grant,
                grant,
            ) by {
                if i > 0 {
                    assert(rest[i - 1] == list[i]);
                }
            }
        }
    }
}

/// Opening a page gives a token that grants that page, opening it again gives the same
/// one, and every other token grants what it did.
pub proof fn one_token_for_one_page(
    list: Seq<Preview>,
    grant: PreviewGrant,
    fresh: String,
    other: Seq<char>,
)
    ensures
        ({
            let after = seq![(Preview { token: fresh, grant })] + list;
            &&& granted(after, fresh@) == Some(grant)
            &&& token_for(after, grant) == Some(fresh@)
            &&& other != fresh@ ==> granted(after, other) == granted(list, other)
        }),
{
    let after = seq![(Preview { token: fresh, grant })] + list;
    assert(after[0].token == fresh);
    assert(after.skip(1) =~= list);
}

// ---------------------------------------------------------------------------
// What may be read
// ---------------------------------------------------------------------------

/// Whether a component starts at position `i` of a path.
pub open spec fn starts_component(s: Seq<char>, i: int) -> bool {
    0 <= i <= s.len() && (i == 0 || s[i - 1] == '/')
}

/// Whether no component of a path is empty or hidden.
pub open spec fn is_plain(s: Seq<char>) -> bool {
    forall|i: int| #[trigger]
        starts_component(s, i) ==> i < s.len() && s[i] != '/' && s[i] != '.'
}

/// Whether a preview may read a path: none of it is hidden, and it is either not
/// ignored, or lies with an ignored page that is build output itself.
pub open spec fn may_read(rel: Seq<char>, grant: PreviewGrant, ignored: bool) -> bool {
    is_plain(rel) && (!ignored || (grant.page_ignored && folder_of(grant.page@).is_prefix_of(
        components(rel),
    )))
}

/// Whether a preview may read `rel`, before it is resolved on disk: `ignored` is
/// whether git ignores it.
pub fn servable(rel: &str, grant: &PreviewGrant, ignored: bool) -> (r: bool)
    ensures
        r == may_read(rel@, *grant, ignored),
{
    let chars: Vec<char> = chars_of(rel);
    let n: usize = chars.len();
    let mut i: usize = 0;
    let mut start: bool = true;
    while i < n
        invariant
            n == chars@.len(),
            chars@ == rel@,
            i <= n,
            start == starts_component(rel@, i as int),
            forall|k: int| #[trigger]
                starts_component(rel@, k) && k < i ==> rel@[k] != '/' && rel@[k] != '.',
        decreases n - i,
    {
        let c: char = chars[i];
        if start && (c == '/' || c == '.') {
            proof {
                assert(starts_component(rel@, i as int));
            }
            return false;
        }
        start = c == '/';
        i += 1;
    }
    if start {
        proof {
            assert(starts_component(rel@, n as int));
        }
        return false;
    }
    proof {
        assert forall|k: int| #[trigger] starts_component(rel@, k) implies k < rel@.len()
            && rel@[k] != '/' && rel@[k] != '.' by {
            if k == n {
                assert(starts_component(rel@, n as int));
            }
        }
    }
    if !ignored {
        return true;
    }
    let dir: Vec<String> = folder(grant.page.as_str());
    let parts: Vec<String> = split(rel);
    grant.page_ignored && begins(&parts, &dir)
}

/// Nothing that a preview reads is hidden, above the workspace, or outside an ignored
/// page's own folder where it is ignored.
pub proof fn a_preview_reads_nothing_hidden(rel: Seq<char>, grant: PreviewGrant, ignored: bool)
    requires
        may_read(rel, grant, ignored),
    ensures
        rel.len() > 0,
        rel[0] != '/' && rel[0] != '.',
        forall|i: int|
            0 < i < rel.len() && rel[i - 1] == '/' ==> #[trigger] rel[i] != '.' && rel[i] != '/',
        ignored ==> grant.page_ignored,
{
    assert(starts_component(rel, 0));
    assert forall|i: int| 0 < i < rel.len() && rel[i - 1] == '/' implies #[trigger] rel[i] != '.'
        && rel[i] != '/' by {
        assert(starts_component(rel, i));
    }
}

/// A preview reads everything that is not hidden and that git knows, and beside a page that is
/// build output everything built with it.
pub proof fn a_preview_reads_what_its_page_needs(
    rel: Seq<char>,
    grant: PreviewGrant,
    ignored: bool,
)
    requires
        rel.len() > 0,
        rel[0] != '/' && rel[0] != '.',
        rel.last() != '/',
        forall|i: int|
            0 < i < rel.len() && rel[i - 1] == '/' ==> #[trigger] rel[i] != '.' && rel[i] != '/',
    ensures
        !ignored ==> may_read(rel, grant, ignored),
        ignored ==> (may_read(rel, grant, ignored) <==> grant.page_ignored && components(rel).len()
            >= folder_of(grant.page@).len() && components(rel).take(
            folder_of(grant.page@).len() as int,
        ) == folder_of(grant.page@)),
{
    assert forall|i: int| #[trigger] starts_component(rel, i) implies i < rel.len() && rel[i] != '/'
        && rel[i] != '.' by {
        if i == rel.len() {
            assert(rel[i - 1] == rel.last());
        }
    }
    let (f, c) = (folder_of(grant.page@), components(rel));
    if c.len() >= f.len() {
        assert(c.subrange(0, f.len() as int) =~= c.take(f.len() as int));
    }
}

// ---------------------------------------------------------------------------
// Types
// ---------------------------------------------------------------------------

/// The type that goes with an extension in small letters.
pub open spec fn type_of_extension(ext: Seq<char>) -> Seq<char> {
    if ext == "html"@ || ext == "htm"@ {
        "text/html; charset=utf-8"@
    } else if ext == "css"@ {
        "text/css; charset=utf-8"@
    } else if ext == "js"@ || ext == "mjs"@ || ext == "cjs"@ {
        "text/javascript; charset=utf-8"@
    } else if ext == "json"@ || ext == "map"@ {
        "application/json"@
    } else if ext == "svg"@ {
        "image/svg+xml"@
    } else if ext == "png"@ {
        "image/png"@
    } else if ext == "jpg"@ || ext == "jpeg"@ {
        "image/jpeg"@
    } else if ext == "gif"@ {
        "image/gif"@
    } else if ext == "webp"@ {
        "image/webp"@
    } else if ext == "avif"@ {
        "image/avif"@
    } else if ext == "ico"@ {
        "image/x-icon"@
    } else if ext == "bmp"@ {
        "image/bmp"@
    } else if ext == "woff"@ {
        "font/woff"@
    } else if ext == "woff2"@ {
        "font/woff2"@
    } else if ext == "ttf"@ {
        "font/ttf"@
    } else if ext == "otf"@ {
        "font/otf"@
    } else if ext == "wasm"@ {
        "application/wasm"@
    } else if ext == "mp4"@ {
        "video/mp4"@
    } else if ext == "webm"@ {
        "video/webm"@
    } else if ext == "mp3"@ {
        "audio/mpeg"@
    } else if ext == "txt"@ || ext == "md"@ {
        "text/plain; charset=utf-8"@
    } else {
        "application/octet-stream"@
    }
}

/// The type a browser needs to use a file, from its extension in either case.
pub open spec fn type_of(rel: Seq<char>) -> Seq<char> {
    type_of_extension(
        match extension_of(rel) {
            Some(e) => lowered(e),
            None => ""@,
        },
    )
}

/// The type a browser needs to use the file.
pub fn content_type(rel: &str) -> (r: &'static str)
    ensures
        r@ == type_of(rel@),
{
    let low: String = match extension(rel) {
        Some(e) => lower(e.as_str()),
        None => "".to_owned(),
    };
    let ext: &str = low.as_str();
    if same(ext, "html") || same(ext, "htm") {
        "text/html; charset=utf-8"
    } else if same(ext, "css") {
        "text/css; charset=utf-8"
    } else if same(ext, "js") || same(ext, "mjs") || same(ext, "cjs") {
        "text/javascript; charset=utf-8"
    } else if same(ext, "json") || same(ext, "map") {
        "application/json"
    } else if same(ext, "svg") {
        "image/svg+xml"
    } else if same(ext, "png") {
        "image/png"
    } else if same(ext, "jpg") || same(ext, "jpeg") {
        "image/jpeg"
    } else if same(ext, "gif") {
        "image/gif"
    } else if same(ext, "webp") {
        "image/webp"
    } else if same(ext, "avif") {
        "image/avif"
    } else if same(ext, "ico") {
        "image/x-icon"
    } else if same(ext, "bmp") {
        "image/bmp"
    } else if same(ext, "woff") {
        "font/woff"
    } else if same(ext, "woff2") {
        "font/woff2"
    } else if same(ext, "ttf") {
        "font/ttf"
    } else if same(ext, "otf") {
        "font/otf"
    } else if same(ext, "wasm") {
        "application/wasm"
    } else if same(ext, "mp4") {
        "video/mp4"
    } else if same(ext, "webm") {
        "video/webm"
    } else if same(ext, "mp3") {
        "audio/mpeg"
    } else if same(ext, "txt") || same(ext, "md") {
        "text/plain; charset=utf-8"
    } else {
        "application/octet-stream"
    }
}

/// Whether a path ends in a stem, a dot and this extension, in either case.
pub open spec fn has_extension(path: Seq<char>, ext: Seq<char>) -> bool {
    &&& path.len() >= ext.len() + 2
    &&& path[path.len() - ext.len() - 2] != '/'
    &&& path[path.len() - ext.len() - 1] == '.'
    &&& lowered(path.skip(path.len() - ext.len())) == ext
}

proof fn lemma_type(path: Seq<char>, ext: Seq<char>)
    requires
        has_extension(path, ext),
        ext.len() > 0,
        !ext.contains('.'),
        !ext.contains('/'),
    ensures
        type_of(path) == type_of_extension(ext),
{
    let tail = path.skip(path.len() - ext.len());
    assert forall|k: int| 0 <= k < tail.len() implies tail[k] != '.' && tail[k] != '/' by {
        assert(ext[k] == small(tail[k]));
        assert(ext.contains(ext[k]));
    }
    an_extension_ends_the_name(path, tail);
}

/// Every path that may be opened as a page is served as one, in either case, wherever it
/// is.
pub proof fn a_page_is_served_as_a_page(path: Seq<char>)
    requires
        is_page(path),
        ".html"@.is_suffix_of(lowered(path)) ==> path.len() > 5 && path[path.len() - 6] != '/',
        !".html"@.is_suffix_of(lowered(path)) ==> path.len() > 4 && path[path.len() - 5] != '/',
    ensures
        "text/html"@.is_prefix_of(type_of(path)),
{
    reveal_strlit(".html");
    reveal_strlit(".htm");
    reveal_strlit("html");
    reveal_strlit("htm");
    reveal_strlit("text/html");
    reveal_strlit("text/html; charset=utf-8");
    let low = lowered(path);
    let (dotted, ext) = if ".html"@.is_suffix_of(low) {
        (".html"@, "html"@)
    } else {
        (".htm"@, "htm"@)
    };
    let n = path.len() as int;
    let tail = low.subrange(n - dotted.len(), n);
    assert(tail =~= dotted);
    assert forall|k: int| 0 <= k < dotted.len() implies dotted[k] == small(
        path[n - dotted.len() + k],
    ) by {
        assert(tail[k] == low[n - dotted.len() + k]);
    }
    assert(".html"@[0] == '.' && ".htm"@[0] == '.');
    assert(small(path[n - dotted.len()]) == dotted[0]);
    assert(lowered(path.skip(n - ext.len())) =~= ext) by {
        assert forall|k: int| 0 <= k < ext.len() implies lowered(path.skip(n - ext.len()))[k]
            == ext[k] by {
            assert(dotted[k + 1] == small(path[n - dotted.len() + k + 1]));
        }
    }
    lemma_type(path, ext);
    assert("text/html; charset=utf-8"@.subrange(0, 9) =~= "text/html"@);
}

/// A file is served as what its extension says it is, in either case: pictures, fonts and
/// films under their own names, styles and scripts as such, and text as text.
pub proof fn a_file_is_served_as_what_it_is(path: Seq<char>, ext: Seq<char>)
    requires
        has_extension(path, ext),
    ensures
        ext == "png"@ || ext == "gif"@ || ext == "webp"@ || ext == "avif"@ || ext == "bmp"@
            ==> type_of(path) == "image/"@ + ext,
        ext == "jpg"@ || ext == "jpeg"@ ==> type_of(path) == "image/"@ + "jpeg"@,
        ext == "svg"@ ==> type_of(path) == "image/"@ + ext + "+xml"@,
        ext == "ico"@ ==> type_of(path) == "image/x-icon"@,
        ext == "woff"@ || ext == "woff2"@ || ext == "ttf"@ || ext == "otf"@ ==> type_of(path)
            == "font/"@ + ext,
        ext == "mp4"@ || ext == "webm"@ ==> type_of(path) == "video/"@ + ext,
        ext == "mp3"@ ==> type_of(path) == "audio/mpeg"@,
        ext == "json"@ || ext == "wasm"@ ==> type_of(path) == "application/"@ + ext,
        ext == "map"@ ==> type_of(path) == "application/"@ + "json"@,
        ext == "css"@ ==> type_of(path) == "text/"@ + ext + "; charset=utf-8"@,
        ext == "js"@ || ext == "mjs"@ || ext == "cjs"@ ==> type_of(path) == "text/java"@
            + "script; charset=utf-8"@,
        ext == "html"@ || ext == "htm"@ ==> type_of(path) == "text/"@ + "html; charset=utf-8"@,
        ext == "txt"@ || ext == "md"@ ==> type_of(path) == "text/"@ + "plain; charset=utf-8"@,
{
    reveal_strlit("+xml");
    reveal_strlit("; charset=utf-8");
    reveal_strlit("application/");
    reveal_strlit("application/json");
    reveal_strlit("application/wasm");
    reveal_strlit("avif");
    reveal_strlit("bmp");
    reveal_strlit("cjs");
    reveal_strlit("css");
    reveal_strlit("font/");
    reveal_strlit("font/otf");
    reveal_strlit("font/ttf");
    reveal_strlit("font/woff");
    reveal_strlit("font/woff2");
    reveal_strlit("gif");
    reveal_strlit("htm");
    reveal_strlit("html");
    reveal_strlit("html; charset=utf-8");
    reveal_strlit("ico");
    reveal_strlit("image/");
    reveal_strlit("image/avif");
    reveal_strlit("image/bmp");
    reveal_strlit("image/gif");
    reveal_strlit("image/jpeg");
    reveal_strlit("image/png");
    reveal_strlit("image/svg+xml");
    reveal_strlit("image/webp");
    reveal_strlit("jpeg");
    reveal_strlit("jpg");
    reveal_strlit("js");
    reveal_strlit("json");
    reveal_strlit("map");
    reveal_strlit("md");
    reveal_strlit("mjs");
    reveal_strlit("mp3");
    reveal_strlit("mp4");
    reveal_strlit("otf");
    reveal_strlit("plain; charset=utf-8");
    reveal_strlit("png");
    reveal_strlit("script; charset=utf-8");
    reveal_strlit("svg");
    reveal_strlit("text/");
    reveal_strlit("text/css; charset=utf-8");
    reveal_strlit("text/html; charset=utf-8");
    reveal_strlit("text/java");
    reveal_strlit("text/javascript; charset=utf-8");
    reveal_strlit("text/plain; charset=utf-8");
    reveal_strlit("ttf");
    reveal_strlit("txt");
    reveal_strlit("video/");
    reveal_strlit("video/mp4");
    reveal_strlit("video/webm");
    reveal_strlit("wasm");
    reveal_strlit("webm");
    reveal_strlit("webp");
    reveal_strlit("woff");
    reveal_strlit("woff2");
    assert("image/"@ + "png"@ =~= "image/png"@);
    assert("image/"@ + "gif"@ =~= "image/gif"@);
    assert("image/"@ + "webp"@ =~= "image/webp"@);
    assert("image/"@ + "avif"@ =~= "image/avif"@);
    assert("image/"@ + "bmp"@ =~= "image/bmp"@);
    assert("image/"@ + "jpeg"@ =~= "image/jpeg"@);
    assert("font/"@ + "woff"@ =~= "font/woff"@);
    assert("font/"@ + "woff2"@ =~= "font/woff2"@);
    assert("font/"@ + "ttf"@ =~= "font/ttf"@);
    assert("font/"@ + "otf"@ =~= "font/otf"@);
    assert("video/"@ + "mp4"@ =~= "video/mp4"@);
    assert("video/"@ + "webm"@ =~= "video/webm"@);
    assert("application/"@ + "json"@ =~= "application/json"@);
    assert("application/"@ + "wasm"@ =~= "application/wasm"@);
    assert("text/java"@ + "script; charset=utf-8"@ =~= "text/javascript; charset=utf-8"@);
    assert("text/"@ + "html; charset=utf-8"@ =~= "text/html; charset=utf-8"@);
    assert("text/"@ + "plain; charset=utf-8"@ =~= "text/plain; charset=utf-8"@);
    assert("image/"@ + "svg"@ + "+xml"@ =~= "image/svg+xml"@);
    assert("text/"@ + "css"@ + "; charset=utf-8"@ =~= "text/css; charset=utf-8"@);
    assert("png"@ =~= seq!['p', 'n', 'g']);
    assert("gif"@ =~= seq!['g', 'i', 'f']);
    assert("webp"@ =~= seq!['w', 'e', 'b', 'p']);
    assert("avif"@ =~= seq!['a', 'v', 'i', 'f']);
    assert("bmp"@ =~= seq!['b', 'm', 'p']);
    assert("jpg"@ =~= seq!['j', 'p', 'g']);
    assert("jpeg"@ =~= seq!['j', 'p', 'e', 'g']);
    assert("svg"@ =~= seq!['s', 'v', 'g']);
    assert("ico"@ =~= seq!['i', 'c', 'o']);
    assert("woff"@ =~= seq!['w', 'o', 'f', 'f']);
    assert("woff2"@ =~= seq!['w', 'o', 'f', 'f', '2']);
    assert("ttf"@ =~= seq!['t', 't', 'f']);
    assert("otf"@ =~= seq!['o', 't', 'f']);
    assert("mp4"@ =~= seq!['m', 'p', '4']);
    assert("webm"@ =~= seq!['w', 'e', 'b', 'm']);
    assert("mp3"@ =~= seq!['m', 'p', '3']);
    assert("json"@ =~= seq!['j', 's', 'o', 'n']);
    assert("wasm"@ =~= seq!['w', 'a', 's', 'm']);
    assert("map"@ =~= seq!['m', 'a', 'p']);
    assert("css"@ =~= seq!['c', 's', 's']);
    assert("js"@ =~= seq!['j', 's']);
    assert("mjs"@ =~= seq!['m', 'j', 's']);
    assert("cjs"@ =~= seq!['c', 'j', 's']);
    assert("html"@ =~= seq!['h', 't', 'm', 'l']);
    assert("htm"@ =~= seq!['h', 't', 'm']);
    assert("txt"@ =~= seq!['t', 'x', 't']);
    assert("md"@ =~= seq!['m', 'd']);
    if ext == "png"@ || ext == "gif"@ || ext == "webp"@ || ext == "avif"@ || ext == "bmp"@ || ext
        == "jpg"@ || ext == "jpeg"@ || ext == "svg"@ || ext == "ico"@ || ext == "woff"@ || ext
        == "woff2"@ || ext == "ttf"@ || ext == "otf"@ || ext == "mp4"@ || ext == "webm"@ || ext
        == "mp3"@ || ext == "json"@ || ext == "wasm"@ || ext == "map"@ || ext == "css"@ || ext
        == "js"@ || ext == "mjs"@ || ext == "cjs"@ || ext == "html"@ || ext == "htm"@ || ext
        == "txt"@ || ext == "md"@ {
        lemma_type(path, ext);
    }
}

// ---------------------------------------------------------------------------
// Answers
// ---------------------------------------------------------------------------

/// Whether what stands at a path can be answered with.
pub open spec fn can_be_sent(is_file: bool, len: u64) -> bool {
    is_file && len <= MAX_BYTES
}

/// Whether what stands at a path is a file small enough to be answered with.
pub fn fits(is_file: bool, len: u64) -> (r: bool)
    ensures
        r == can_be_sent(is_file, len),
{
    is_file && len <= MAX_BYTES
}

/// Whether headers are those of a previewed page's file.
pub open spec fn is_serving(h: Seq<(&'static str, &'static str)>, rel: Seq<char>) -> bool {
    &&& h.len() == 5
    &&& h[0].0@ == "content-type"@ && h[0].1@ == type_of(rel)
    &&& h[1].0@ == "content-security-policy"@ && h[1].1@ == "sandbox allow-scripts"@
    &&& h[2].0@ == "x-content-type-options"@ && h[2].1@ == "nosniff"@
    &&& h[3].0@ == "cache-control"@ && h[3].1@ == "no-store"@
    &&& h[4].0@ == "access-control-allow-origin"@ && h[4].1@ == "*"@
}

/// The headers that one file of a previewed page is answered with. The answer is
/// sandboxed itself, not only the frame it is read in.
pub fn serve_headers(rel: &str) -> (r: Vec<(&'static str, &'static str)>)
    ensures
        is_serving(r@, rel@),
{
    let mut out: Vec<(&'static str, &'static str)> = Vec::new();
    out.push(("content-type", content_type(rel)));
    out.push(("content-security-policy", "sandbox allow-scripts"));
    out.push(("x-content-type-options", "nosniff"));
    out.push(("cache-control", "no-store"));
    out.push(("access-control-allow-origin", "*"));
    out
}

/// Whether one file of a previewed page is answered.
pub open spec fn is_served(
    grant: PreviewGrant,
    known: bool,
    rel: Seq<char>,
    ignored: bool,
    is_file: bool,
    len: u64,
) -> bool {
    known && may_read(rel, grant, ignored) && can_be_sent(is_file, len)
}

/// Whether an image is answered.
pub open spec fn is_pictured(path: Seq<char>, known: bool, is_file: bool, len: u64) -> bool {
    "image/"@.is_prefix_of(type_of(path)) && known && can_be_sent(is_file, len)
}

/// Whether headers are those of an image.
pub open spec fn is_picturing(h: Seq<(&'static str, &'static str)>, path: Seq<char>) -> bool {
    &&& h.len() == 4
    &&& h[0].0@ == "content-type"@ && h[0].1@ == type_of(path)
    &&& h[1].0@ == "content-security-policy"@ && h[1].1@
        == "default-src 'none'; style-src 'unsafe-inline'; sandbox"@
    &&& h[2].0@ == "x-content-type-options"@ && h[2].1@ == "nosniff"@
    &&& h[3].0@ == "cache-control"@ && h[3].1@ == "no-store"@
}

/// A file that a preview may read is answered with wherever it is one of no more than sixteen
/// megabytes, and so is an image.
pub proof fn a_readable_file_is_answered_with(
    grant: PreviewGrant,
    known: bool,
    rel: Seq<char>,
    ignored: bool,
    is_file: bool,
    len: u64,
)
    ensures
        is_served(grant, known, rel, ignored, is_file, len) <==> known && is_file && len <= 16 * 1024
            * 1024 && may_read(rel, grant, ignored),
        is_pictured(rel, known, is_file, len) <==> known && is_file && len <= 16 * 1024 * 1024
            && "image/"@.is_prefix_of(type_of(rel)),
{
}

/// Whether headers hold one of this name with this value.
pub open spec fn sends(
    h: Seq<(&'static str, &'static str)>,
    name: Seq<char>,
    value: Seq<char>,
) -> bool {
    exists|i: int| 0 <= i < h.len() && (#[trigger] h[i]).0@ == name && h[i].1@ == value
}

/// Whatever is answered is answered as what it is, is kept nowhere and guessed at by nobody; a
/// page runs its scripts in a sandbox, and an image runs none.
pub proof fn what_is_answered_is_fenced_in(
    page: Seq<(&'static str, &'static str)>,
    picture: Seq<(&'static str, &'static str)>,
    path: Seq<char>,
)
    requires
        is_serving(page, path),
        is_picturing(picture, path),
    ensures
        sends(page, "content-type"@, type_of(path)),
        sends(page, "content-security-policy"@, "sandbox allow-scripts"@),
        sends(page, "x-content-type-options"@, "nosniff"@),
        sends(page, "cache-control"@, "no-store"@),
        sends(page, "access-control-allow-origin"@, "*"@),
        sends(picture, "content-type"@, type_of(path)),
        sends(
            picture,
            "content-security-policy"@,
            "default-src 'none'; style-src 'unsafe-inline'; sandbox"@,
        ),
        sends(picture, "x-content-type-options"@, "nosniff"@),
        sends(picture, "cache-control"@, "no-store"@),
{
    assert(page[0].0@ == "content-type"@);
    assert(page[1].0@ == "content-security-policy"@);
    assert(page[2].0@ == "x-content-type-options"@);
    assert(page[3].0@ == "cache-control"@);
    assert(page[4].0@ == "access-control-allow-origin"@);
    assert(picture[0].0@ == "content-type"@);
    assert(picture[1].0@ == "content-security-policy"@);
    assert(picture[2].0@ == "x-content-type-options"@);
    assert(picture[3].0@ == "cache-control"@);
}

/// Whether one file of a previewed page is answered, and with which headers. Anything
/// else is a bare refusal that says nothing of what exists.
pub fn serve(
    grant: Option<&PreviewGrant>,
    known: bool,
    rel: &str,
    ignored: bool,
    is_file: bool,
    len: u64,
) -> (r: Option<Vec<(&'static str, &'static str)>>)
    ensures
        r is Some == (grant is Some && is_served(
            *grant->Some_0,
            known,
            rel@,
            ignored,
            is_file,
            len,
        )),
        r matches Some(h) ==> is_serving(h@, rel@),
{
    match grant {
        Some(g) => if known && servable(rel, g, ignored) && fits(is_file, len) {
            Some(serve_headers(rel))
        } else {
            None
        },
        None => None,
    }
}

/// Whether an image is answered, and with which headers: only what is an image by its
/// extension, and with its scripts forbidden.
pub fn image(query: &ImageQuery, known: bool, is_file: bool, len: u64) -> (r: Option<
    Vec<(&'static str, &'static str)>,
>)
    ensures
        r is Some == is_pictured(query.path@, known, is_file, len),
        r matches Some(h) ==> is_picturing(h@, query.path@),
{
    let kind: &'static str = content_type(query.path.as_str());
    if !starts_with(kind, "image/") || !known || !fits(is_file, len) {
        return None;
    }
    let mut out: Vec<(&'static str, &'static str)> = Vec::new();
    out.push(("content-type", kind));
    out.push(
        ("content-security-policy", "default-src 'none'; style-src 'unsafe-inline'; sandbox"),
    );
    out.push(("x-content-type-options", "nosniff"));
    out.push(("cache-control", "no-store"));
    Some(out)
}

} // verus!
