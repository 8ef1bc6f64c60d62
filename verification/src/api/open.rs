//! Handing things to the machine and to the forge: URLs, files, folders, and what the
//! page writes into the log.

use vstd::prelude::*;
use vstd::string::*;
use crate::api::{refuse, ApiError, Said};
use crate::model::Workspace;
use crate::spaces::{find_home, home};
use crate::text::{
    cat2, cat3, cat4, chars_of, contains, cut_once, decimal, ends_with, first_bytes, first_chars,
    holds_text, join, joined, lemma_first_at, listed, lower, lowered, number, opt_str, pair_text,
    signed_decimal, signed_number, split_once, starts_with, take_bytes, take_chars, text_of, texts, trim, trimmed,
};

verus! {

pub struct OpenUrl {
    pub url: String,
}

pub struct OpenUrls {
    pub urls: Vec<String>,
}

pub struct OpenFile {
    pub workspace: String,
    pub path: String,
}

pub struct RevealPath {
    pub workspace: String,
    pub path: String,
    /// Hand over the directory the file is in rather than the file.
    pub folder: bool,
}

/// Boot milestones the page measured, in milliseconds, by name.
pub struct ClientTiming {
    pub marks: Vec<(String, i64)>,
}

pub struct ClientNote {
    pub note: String,
}

// ---------------------------------------------------------------------------
// URLs
// ---------------------------------------------------------------------------

/// Whether a URL is one that a browser is handed.
pub open spec fn is_web(url: Seq<char>) -> bool {
    "https://"@.is_prefix_of(url) || "http://"@.is_prefix_of(url)
}

/// What of a URL a browser is handed, if it is handed it.
pub open spec fn browsed(url: Seq<char>) -> Option<Seq<char>> {
    if is_web(trimmed(url)) {
        Some(trimmed(url))
    } else {
        None
    }
}

/// Every page of the web is opened, with or without a secure connection, and nothing else is:
/// the space around its address goes, and no more.
pub proof fn the_web_is_opened(url: Seq<char>, rest: Seq<char>)
    ensures
        trimmed(url) == "https://"@ + rest ==> browsed(url) == Some("https://"@ + rest),
        trimmed(url) == "http://"@ + rest ==> browsed(url) == Some("http://"@ + rest),
        browsed(url) is Some ==> browsed(url)->Some_0 == trimmed(url) && trimmed(url).len() >= 7
            && trimmed(url).take(4) == "http"@ && (trimmed(url).subrange(4, 7) == "://"@
            || trimmed(url).subrange(4, 8) == "s://"@),
{
    reveal_strlit("https://");
    reveal_strlit("http://");
    reveal_strlit("http");
    reveal_strlit("://");
    reveal_strlit("s://");
    let t = trimmed(url);
    let (a, b) = ("https://"@ + rest, "http://"@ + rest);
    assert(a.subrange(0, 8) =~= "https://"@);
    assert(b.subrange(0, 7) =~= "http://"@);
    if "https://"@.is_prefix_of(t) {
        assert(t.subrange(0, 8) =~= "https://"@);
        assert forall|i: int| 0 <= i < 8 implies t[i] == "https://"@[i] by {
            assert(t.subrange(0, 8)[i] == t[i]);
        }
        assert(t.take(4) =~= "http"@);
        assert(t.subrange(4, 8) =~= "s://"@);
    } else if "http://"@.is_prefix_of(t) {
        assert(t.subrange(0, 7) =~= "http://"@);
        assert forall|i: int| 0 <= i < 7 implies t[i] == "http://"@[i] by {
            assert(t.subrange(0, 7)[i] == t[i]);
        }
        assert(t.take(4) =~= "http"@);
        assert(t.subrange(4, 7) =~= "://"@);
    }
}

/// The URL to hand to the browser: nothing but `http` and `https` is.
pub fn open_url(body: &OpenUrl) -> (r: Result<String, ApiError>)
    ensures
        match browsed(body.url@) {
            Some(url) => r is Ok && r->Ok_0@ == url,
            None => r is Err && r->Err_0@ == Said::Failed("refusing to open non-http URL"@),
        },
{
    let url: String = trim(body.url.as_str());
    if starts_with(url.as_str(), "https://") || starts_with(url.as_str(), "http://") {
        Ok(url)
    } else {
        Err(refuse("refusing to open non-http URL".to_owned()))
    }
}

/// How many URLs one press may open.
pub const OPEN_ALL_MAX: usize = 32;

/// The URLs of a list that a browser is handed, in order.
pub open spec fn web_urls(urls: Seq<Seq<char>>) -> Seq<Seq<char>>
    decreases urls.len(),
{
    if urls.len() == 0 {
        urls
    } else if is_web(trimmed(urls.last())) {
        web_urls(urls.drop_last()).push(trimmed(urls.last()))
    } else {
        web_urls(urls.drop_last())
    }
}

/// Why so many URLs are not opened at once, if they are not.
pub open spec fn crowd_refusal(n: nat) -> Option<Said> {
    if n > OPEN_ALL_MAX {
        Some(
            Said::Failed(
                "refusing to open "@ + decimal(n) + " URLs at once — the cap is "@ + decimal(
                    OPEN_ALL_MAX as nat,
                ),
            ),
        )
    } else {
        None
    }
}

/// One press opens every page of the web that it lists, in order, up to thirty-two addresses.
pub proof fn every_page_listed_is_opened(urls: Seq<Seq<char>>, url: Seq<char>, n: nat)
    ensures
        crowd_refusal(n) is None <==> n <= 32,
        web_urls(Seq::empty()).len() == 0,
        web_urls(urls.push(url)) == if browsed(url) is Some {
            web_urls(urls).push(trimmed(url))
        } else {
            web_urls(urls)
        },
{
    assert(urls.push(url).drop_last() =~= urls);
}

/// The URLs to hand to the browser: one that is not for it is left out and does not stop
/// the others, but no press opens more than a browser should be handed at once.
pub fn open_urls(body: &OpenUrls) -> (r: Result<Vec<String>, ApiError>)
    ensures
        match crowd_refusal(body.urls@.len()) {
            Some(why) => r is Err && r->Err_0@ == why,
            None => r is Ok && texts(r->Ok_0@) == web_urls(texts(body.urls@)),
        },
{
    let n: usize = body.urls.len();
    if n > OPEN_ALL_MAX {
        let asked: String = number(n as u64);
        let cap: String = number(OPEN_ALL_MAX as u64);
        return Err(
            refuse(
                cat4(
                    "refusing to open ",
                    asked.as_str(),
                    " URLs at once — the cap is ",
                    cap.as_str(),
                ),
            ),
        );
    }
    let mut out: Vec<String> = Vec::new();
    let mut i: usize = 0;
    proof {
        assert(texts(out@) =~= web_urls(texts(body.urls@).take(0)));
    }
    while i < n
        invariant
            n == body.urls@.len(),
            i <= n,
            texts(out@) == web_urls(texts(body.urls@).take(i as int)),
        decreases n - i,
    {
        proof {
            let u = texts(body.urls@);
            assert(u.take(i + 1).drop_last() =~= u.take(i as int));
            assert(u.take(i + 1).last() == body.urls@[i as int]@);
        }
        let url: String = trim(body.urls[i].as_str());
        if starts_with(url.as_str(), "https://") || starts_with(url.as_str(), "http://") {
            let ghost before = out@;
            let ghost text = url@;
            out.push(url);
            proof {
                assert(texts(out@) =~= texts(before).push(text));
            }
        }
        i += 1;
    }
    proof {
        assert(texts(body.urls@).take(i as int) =~= texts(body.urls@));
    }
    Ok(out)
}

/// Only `http` and `https` ever reach the machine's opener.
pub proof fn only_the_web_is_opened(urls: Seq<Seq<char>>, i: int)
    requires
        0 <= i < web_urls(urls).len(),
    ensures
        is_web(web_urls(urls)[i]),
        web_urls(urls).len() <= urls.len(),
    decreases urls.len(),
{
    let front = urls.drop_last();
    let some = web_urls(front);
    if i < some.len() {
        only_the_web_is_opened(front, i);
    } else {
        lemma_fewer(front);
    }
    lemma_fewer(urls);
}

proof fn lemma_fewer(urls: Seq<Seq<char>>)
    ensures
        web_urls(urls).len() <= urls.len(),
    decreases urls.len(),
{
    if urls.len() > 0 {
        lemma_fewer(urls.drop_last());
    }
}

/// The programs that hand a URL on, in the order they are tried.
pub open spec fn opened_by(macos: bool, wsl: bool) -> Seq<&'static str> {
    if macos {
        seq!["open"]
    } else if wsl {
        seq!["wslview", "xdg-open", "x-www-browser", "sensible-browser"]
    } else {
        seq!["xdg-open", "x-www-browser", "sensible-browser"]
    }
}

/// A Mac has its own opener and needs no other. Elsewhere the desktop's is tried before the
/// browsers, and inside Windows the one that reaches out of it before all of them, in place of
/// none.
pub proof fn the_machines_own_opener_is_tried_first(wsl: bool)
    ensures
        opened_by(true, wsl).len() == 1 && opened_by(true, wsl)[0]@ == "open"@,
        opened_by(false, true)[0]@ == "wslview"@,
        opened_by(false, true).skip(1) == opened_by(false, false),
        opened_by(false, false).len() == 3,
        opened_by(false, false)[0]@ == "xdg-open"@,
        opened_by(false, false)[1]@ == "x-www-browser"@,
        opened_by(false, false)[2]@ == "sensible-browser"@,
{
    assert(opened_by(false, true).skip(1) =~= opened_by(false, false));
}

/// The programs that hand a URL on, in the order they are tried.
pub fn openers(macos: bool, wsl: bool) -> (r: Vec<&'static str>)
    ensures
        r@ == opened_by(macos, wsl),
{
    let mut out: Vec<&'static str> = Vec::new();
    if macos {
        out.push("open");
        return out;
    }
    if wsl {
        out.push("wslview");
    }
    out.push("xdg-open");
    out.push("x-www-browser");
    out.push("sensible-browser");
    out
}

/// Whether this is Linux inside Windows.
pub open spec fn in_windows(distro_named: bool, kernel_version: Option<Seq<char>>) -> bool {
    distro_named || (kernel_version matches Some(v) && holds_text(lowered(v), "microsoft"@))
}

/// Linux inside Windows is known by its environment, or by its maker's name anywhere in the
/// kernel's version, with a large letter or a small one. Where neither is there it is not.
pub proof fn windows_is_known_by_its_makers_name(before: Seq<char>, after: Seq<char>)
    ensures
        in_windows(true, None),
        !in_windows(false, None),
        in_windows(false, Some(before + "microsoft"@ + after)),
        in_windows(false, Some(before + "Microsoft"@ + after)),
        before.len() < 9 ==> !in_windows(false, Some(before)),
{
    reveal_strlit("microsoft");
    reveal_strlit("Microsoft");
    let name = "microsoft"@;
    let a = lowered(before + "microsoft"@ + after);
    let b = lowered(before + "Microsoft"@ + after);
    let at = before.len() as int;
    assert(a.subrange(at, at + 9) =~= name);
    assert(b.subrange(at, at + 9) =~= name);
    assert(crate::text::stands_at(a, at, name));
    assert(crate::text::stands_at(b, at, name));
}

/// Whether this is Linux inside Windows: the environment says so, or the kernel's own
/// version does.
pub fn is_wsl(distro_named: bool, kernel_version: Option<&str>) -> (r: bool)
    ensures
        r == in_windows(distro_named, opt_str(kernel_version)),
{
    if distro_named {
        return true;
    }
    match kernel_version {
        Some(v) => {
            let low: String = lower(v);
            contains(low.as_str(), "microsoft")
        },
        None => false,
    }
}

/// The first opener that is installed.
pub open spec fn first_present(present: Seq<bool>) -> int
    decreases present.len(),
{
    if present.len() == 0 || present[0] {
        0
    } else {
        1 + first_present(present.skip(1))
    }
}

/// The opener that is used is installed, and none before it is.
pub proof fn the_first_installed_opener_is_used(present: Seq<bool>, i: int)
    requires
        0 <= i <= present.len(),
        forall|k: int| 0 <= k < i ==> !(#[trigger] present[k]),
        i < present.len() ==> present[i],
    ensures
        first_present(present) == i,
    decreases present.len(),
{
    if i > 0 {
        let rest = present.skip(1);
        assert(!present[0]);
        assert forall|k: int| 0 <= k < i - 1 implies !(#[trigger] rest[k]) by {
            assert(!present[k + 1]);
        }
        the_first_installed_opener_is_used(rest, i - 1);
    }
}

/// Which opener to use: the first that is installed, or the refusal that names what was
/// tried.
pub fn open_external(candidates: &Vec<String>, present: &Vec<bool>) -> (r: Result<usize, ApiError>)
    requires
        candidates@.len() == present@.len(),
    ensures
        if first_present(present@) < present@.len() {
            r is Ok && r->Ok_0 == first_present(present@)
        } else {
            r is Err && r->Err_0@ == Said::Failed(
                "no browser opener found (tried "@ + joined(texts(candidates@), ", "@) + ")"@,
            )
        },
{
    let mut i: usize = 0;
    proof {
        assert(present@.skip(0) =~= present@);
    }
    while i < present.len()
        invariant
            i <= present@.len(),
            first_present(present@) == i + first_present(present@.skip(i as int)),
        decreases present@.len() - i,
    {
        if present[i] {
            return Ok(i);
        }
        proof {
            assert(present@.skip(i as int).skip(1) =~= present@.skip(i + 1));
        }
        i += 1;
    }
    let names: String = join(candidates, ", ");
    Err(refuse(cat3("no browser opener found (tried ", names.as_str(), ")")))
}

// ---------------------------------------------------------------------------
// Files
// ---------------------------------------------------------------------------

/// Where what stands at a path is shown.
pub open spec fn shown(folder: bool, file: Seq<char>, parent: Option<Seq<char>>) -> Seq<char> {
    match parent {
        Some(p) => if folder {
            p
        } else {
            file
        },
        None => file,
    }
}

/// A file is shown itself unless its folder is asked for, and what is in no folder is shown
/// either way.
pub proof fn a_file_is_shown_unless_its_folder_is_asked_for(file: Seq<char>, parent: Seq<char>)
    ensures
        shown(true, file, Some(parent)) == parent,
        shown(false, file, Some(parent)) == file,
        shown(true, file, None) == file,
        shown(false, file, None) == file,
{
}

/// Where what stands at a path is shown: itself, or the folder it is in. The root is in
/// no folder but itself.
pub fn reveal_path(body: &RevealPath, known: bool, file: &str, parent: Option<&str>) -> (r: Result<
    String,
    ApiError,
>)
    ensures
        if !known {
            r is Err && r->Err_0@ == Said::Failed("unknown workspace "@ + body.workspace@)
        } else {
            r is Ok && r->Ok_0@ == shown(body.folder, file@, opt_str(parent))
        },
{
    if !known {
        return Err(refuse(cat2("unknown workspace ", body.workspace.as_str())));
    }
    match parent {
        Some(p) => if body.folder {
            Ok(p.to_owned())
        } else {
            Ok(file.to_owned())
        },
        None => Ok(file.to_owned()),
    }
}

/// What the poll knows of a PR.
#[derive(Debug)]
pub struct Pr {
    pub number: u64,
    pub head_ref: String,
    pub head_sha: Option<String>,
    pub base_ref: String,
}

impl Clone for Pr {
    fn clone(&self) -> (r: Self)
        ensures
            r == *self,
    {
        Pr {
            number: self.number,
            head_ref: self.head_ref.clone(),
            head_sha: match &self.head_sha {
                Some(s) => Some(s.clone()),
                None => None,
            },
            base_ref: self.base_ref.clone(),
        }
    }
}

/// The first PR of this number.
pub open spec fn polled(prs: Seq<Pr>, number: u64) -> Option<Pr>
    decreases prs.len(),
{
    if prs.len() == 0 {
        None
    } else if prs[0].number == number {
        Some(prs[0])
    } else {
        polled(prs.skip(1), number)
    }
}

/// A PR is found by its number, the first that has it.
pub proof fn a_polled_pr_is_found_by_its_number(prs: Seq<Pr>, number: u64, i: int)
    requires
        0 <= i <= prs.len(),
        forall|k: int| 0 <= k < i ==> (#[trigger] prs[k]).number != number,
        i < prs.len() ==> prs[i].number == number,
    ensures
        polled(prs, number) == if i < prs.len() {
            Some(prs[i])
        } else {
            None
        },
    decreases prs.len(),
{
    if i > 0 {
        let rest = prs.skip(1);
        assert(prs[0].number != number);
        assert forall|k: int| 0 <= k < i - 1 implies (#[trigger] rest[k]).number != number by {
            assert(prs[k + 1].number != number);
        }
        a_polled_pr_is_found_by_its_number(rest, number, i - 1);
    }
}

/// What a PR that nobody polled is answered.
pub open spec fn unpolled(pr: u64) -> Said {
    Said::Failed("PR #"@ + decimal(pr as nat) + " is not in the current poll"@)
}

pub fn pr_from_poll(prs: &Vec<Pr>, pr: u64) -> (r: Result<Pr, ApiError>)
    ensures
        match polled(prs@, pr) {
            Some(p) => r == Ok::<Pr, ApiError>(p),
            None => r is Err && r->Err_0@ == unpolled(pr),
        },
{
    let mut i: usize = 0;
    proof {
        assert(prs@.skip(0) =~= prs@);
    }
    while i < prs.len()
        invariant
            i <= prs@.len(),
            polled(prs@, pr) == polled(prs@.skip(i as int), pr),
        decreases prs@.len() - i,
    {
        if prs[i].number == pr {
            return Ok(prs[i].clone());
        }
        proof {
            assert(prs@.skip(i as int).skip(1) =~= prs@.skip(i + 1));
        }
        i += 1;
    }
    let n: String = number(pr);
    Err(refuse(cat3("PR #", n.as_str(), " is not in the current poll")))
}

/// The first PR whose head branch a workspace has held.
pub open spec fn holding(prs: Seq<Pr>, branches: Seq<Seq<char>>) -> Option<Pr>
    decreases prs.len(),
{
    if prs.len() == 0 {
        None
    } else if branches.contains(prs[0].head_ref@) {
        Some(prs[0])
    } else {
        holding(prs.skip(1), branches)
    }
}

/// A workspace's PR is the first whose head branch is one that the workspace has held.
pub proof fn a_workspace_is_held_by_its_branchs_pr(
    prs: Seq<Pr>,
    branches: Seq<Seq<char>>,
    i: int,
)
    requires
        0 <= i <= prs.len(),
        forall|k: int| 0 <= k < i ==> !branches.contains((#[trigger] prs[k]).head_ref@),
        i < prs.len() ==> branches.contains(prs[i].head_ref@),
    ensures
        holding(prs, branches) == if i < prs.len() {
            Some(prs[i])
        } else {
            None
        },
    decreases prs.len(),
{
    if i > 0 {
        let rest = prs.skip(1);
        assert(!branches.contains(prs[0].head_ref@));
        assert forall|k: int| 0 <= k < i - 1 implies !branches.contains(
            (#[trigger] rest[k]).head_ref@,
        ) by {
            assert(!branches.contains(prs[k + 1].head_ref@));
        }
        a_workspace_is_held_by_its_branchs_pr(rest, branches, i - 1);
    }
}

/// The commit that a workspace's PR is at, where a PR holds the workspace and its head
/// is known.
pub fn pr_head(prs: &Vec<Pr>, branches: &Vec<String>) -> (r: Option<String>)
    ensures
        r == match holding(prs@, texts(branches@)) {
            Some(p) => p.head_sha,
            None => None,
        },
{
    let mut i: usize = 0;
    proof {
        assert(prs@.skip(0) =~= prs@);
    }
    while i < prs.len()
        invariant
            i <= prs@.len(),
            holding(prs@, texts(branches@)) == holding(prs@.skip(i as int), texts(branches@)),
        decreases prs@.len() - i,
    {
        if listed(branches, prs[i].head_ref.as_str()) {
            return match &prs[i].head_sha {
                Some(s) => Some(s.clone()),
                None => None,
            };
        }
        proof {
            assert(prs@.skip(i as int).skip(1) =~= prs@.skip(i + 1));
        }
        i += 1;
    }
    None
}

/// A file to open on the forge.
pub struct Blob {
    pub path: String,
    /// Where its workspace is.
    pub at: String,
    /// The commit of the PR that holds the workspace. Without one it is the workspace's
    /// own.
    pub commit: Option<String>,
}

/// Why a file is not opened on the forge before its commit is known, if it is not.
pub open spec fn open_refusal(body: OpenFile, known: bool) -> Option<Said> {
    let path = trimmed(body.path@);
    if path.len() == 0 {
        Some(Said::Failed("no path given"@))
    } else if "/"@.is_suffix_of(path) {
        Some(Said::Failed(path + " is a directory, and a blob URL is for a file"@))
    } else if !known {
        Some(Said::Failed("no such workspace: "@ + body.workspace@))
    } else {
        None
    }
}

/// A file can be opened on the forge wherever a path is given that ends in no slash, in a
/// workspace that there is.
pub proof fn a_named_file_is_opened(body: OpenFile, known: bool)
    ensures
        open_refusal(body, known) is None <==> known && trimmed(body.path@).len() > 0
            && trimmed(body.path@).last() != '/',
{
    reveal_strlit("/");
    let path = trimmed(body.path@);
    if path.len() > 0 {
        let end = path.subrange(path.len() - 1, path.len() as int);
        assert(end[0] == path.last());
        if path.last() == '/' {
            assert(end =~= "/"@);
        }
    }
}

/// What to open on the forge: a file, in a workspace that there is, at the commit that
/// the workspace's PR is at.
pub fn open_file(body: &OpenFile, spaces: &Vec<Workspace>, prs: &Vec<Pr>) -> (r: Result<
    Blob,
    ApiError,
>)
    ensures
        match open_refusal(*body, home(spaces@, body.workspace@) is Some) {
            Some(why) => r is Err && r->Err_0@ == why,
            None => {
                let w = home(spaces@, body.workspace@)->Some_0;
                &&& r is Ok
                &&& r->Ok_0.path@ == trimmed(body.path@)
                &&& r->Ok_0.at == w.path
                &&& r->Ok_0.commit == match holding(prs@, texts(w.branches@)) {
                    Some(p) => p.head_sha,
                    None => None,
                }
            },
        },
{
    let path: String = trim(body.path.as_str());
    if path.as_str().is_empty() {
        return Err(refuse("no path given".to_owned()));
    }
    if ends_with(path.as_str(), "/") {
        return Err(
            refuse(cat2(path.as_str(), " is a directory, and a blob URL is for a file")),
        );
    }
    match find_home(spaces, body.workspace.as_str()) {
        None => Err(refuse(cat2("no such workspace: ", body.workspace.as_str()))),
        Some(w) => Ok(Blob { path, at: w.path.clone(), commit: pr_head(prs, &w.branches) }),
    }
}

/// Whether a file can be opened at a commit: one that the commit does not have has no
/// blob.
pub fn blob_at(path: &str, commit: &str, in_commit: bool) -> (r: Result<(), ApiError>)
    ensures
        if in_commit {
            r is Ok
        } else {
            r is Err && r->Err_0@ == Said::Failed(
                path@ + " is not in "@ + first_bytes(commit@, 8)
                    + " — an untracked file has no blob to open"@,
            )
        },
{
    if in_commit {
        Ok(())
    } else {
        let eight: String = take_bytes(commit, 8);
        Err(
            refuse(
                cat4(
                    path,
                    " is not in ",
                    eight.as_str(),
                    " — an untracked file has no blob to open",
                ),
            ),
        )
    }
}

// ---------------------------------------------------------------------------
// The repository
// ---------------------------------------------------------------------------

/// The repository that a configured text or the remote names.
pub open spec fn resolved_repo(
    configured: Option<Seq<char>>,
    remote: Option<(Seq<char>, Seq<char>)>,
) -> Option<(Seq<char>, Seq<char>)> {
    match configured {
        Some(c) => cut_once(c, '/'),
        None => remote,
    }
}

/// The repository the forge talks to.
pub open spec fn talked_to(
    upstream: Option<Seq<char>>,
    resolved: Option<(Seq<char>, Seq<char>)>,
) -> Option<(Seq<char>, Seq<char>)> {
    match upstream {
        Some(u) => match cut_once(u, '/') {
            Some(p) => Some(p),
            None => resolved,
        },
        None => resolved,
    }
}

/// A repository that is written as its owner, a slash and its name is that one, whatever the
/// remote says. Where nothing is configured the remote is asked; a configured text without a
/// slash names none, while one that was read at the start leaves it to what is resolved.
pub proof fn a_repository_is_its_owner_and_its_name(
    owner: Seq<char>,
    name: Seq<char>,
    other: Option<(Seq<char>, Seq<char>)>,
)
    requires
        !owner.contains('/'),
    ensures
        resolved_repo(Some(owner + seq!['/'] + name), other) == Some((owner, name)),
        talked_to(Some(owner + seq!['/'] + name), other) == Some((owner, name)),
        resolved_repo(None, other) == other,
        talked_to(None, other) == other,
        resolved_repo(Some(owner), other) is None,
        talked_to(Some(owner), other) == other,
{
    let whole = owner + seq!['/'] + name;
    let n = owner.len() as int;
    assert forall|k: int| 0 <= k < n implies whole[k] != '/' && owner[k] != '/' by {
        assert(whole[k] == owner[k]);
        assert(owner.contains(owner[k]));
    }
    lemma_first_at(whole, '/', n);
    lemma_first_at(owner, '/', n);
    assert(whole.take(n) =~= owner);
    assert(whole.skip(n + 1) =~= name);
}

/// The repository that a configured `owner/name` or the remote names. A configured one
/// without a slash names none.
pub fn resolve_repo(configured: Option<&str>, remote: Option<(String, String)>) -> (r: Option<
    (String, String),
>)
    ensures
        pair_text(r) == resolved_repo(opt_str(configured), pair_text(remote)),
{
    match configured {
        Some(c) => split_once(c, '/'),
        None => remote,
    }
}

/// The repository the forge talks to: the one read at the start, else the one resolved
/// now.
pub fn repo_of(upstream: Option<&str>, resolved: Option<(String, String)>) -> (r: Option<
    (String, String),
>)
    ensures
        pair_text(r) == talked_to(opt_str(upstream), pair_text(resolved)),
{
    match upstream {
        Some(u) => match split_once(u, '/') {
            Some(p) => Some(p),
            None => resolved,
        },
        None => resolved,
    }
}

/// The repository that is written to, or the refusal that says there is none.
pub fn write_forge(repo: Option<(String, String)>) -> (r: Result<(String, String), ApiError>)
    ensures
        match repo {
            Some(p) => r == Ok::<(String, String), ApiError>(p),
            None => r is Err && r->Err_0@ == Said::Failed(
                "no GitHub repo configured and none on the remote"@,
            ),
        },
{
    match repo {
        Some(p) => Ok(p),
        None => Err(refuse("no GitHub repo configured and none on the remote".to_owned())),
    }
}

/// The repository that is read from and the token to read it with, or the refusal that
/// says which is missing: `token` is the one found, or why none was.
pub fn read_forge(repo: Option<(String, String)>, token: Result<String, String>) -> (r: Result<
    (String, String, String),
    ApiError,
>)
    ensures
        match repo {
            None => r is Err && r->Err_0@ == Said::Failed(
                "no GitHub repo configured and none on the remote"@,
            ),
            Some(p) => match token {
                Ok(t) => r == Ok::<(String, String, String), ApiError>((p.0, p.1, t)),
                Err(why) => r is Err && r->Err_0@ == Said::Failed(why@),
            },
        },
{
    match repo {
        None => Err(refuse("no GitHub repo configured and none on the remote".to_owned())),
        Some((owner, name)) => match token {
            Ok(t) => Ok((owner, name, t)),
            Err(why) => Err(refuse(why)),
        },
    }
}

// ---------------------------------------------------------------------------
// What the page writes into the log
// ---------------------------------------------------------------------------

/// How much of a note is kept, in characters.
pub const NOTE_MAX: usize = 300;

/// Whether a character is a control character.
pub open spec fn is_control(c: char) -> bool {
    c as u32 <= 0x1f || 0x7f <= c as u32 <= 0x9f
}

/// A text without its control characters.
pub open spec fn printable(s: Seq<char>) -> Seq<char>
    decreases s.len(),
{
    if s.len() == 0 {
        s
    } else if is_control(s.last()) {
        printable(s.drop_last())
    } else {
        printable(s.drop_last()).push(s.last())
    }
}

/// One line from the page into the log: no control characters, and no more than fits.
pub fn client_note(body: &ClientNote) -> (r: String)
    ensures
        r@ == first_chars(printable(body.note@), NOTE_MAX as int),
{
    let chars: Vec<char> = chars_of(body.note.as_str());
    let mut kept: Vec<char> = Vec::new();
    let mut i: usize = 0;
    proof {
        assert(kept@ =~= printable(chars@.take(0)));
    }
    while i < chars.len()
        invariant
            i <= chars@.len(),
            kept@ == printable(chars@.take(i as int)),
        decreases chars@.len() - i,
    {
        proof {
            assert(chars@.take(i + 1).drop_last() =~= chars@.take(i as int));
            assert(chars@.take(i + 1).last() == chars@[i as int]);
        }
        let c: char = chars[i];
        let u: u32 = c as u32;
        if !(u <= 0x1f || (0x7f <= u && u <= 0x9f)) {
            kept.push(c);
        }
        i += 1;
    }
    proof {
        assert(chars@.take(i as int) =~= chars@);
        assert(kept@.subrange(0, kept@.len() as int) =~= kept@);
    }
    let line: String = text_of(&kept, 0, kept.len());
    take_chars(line.as_str(), NOTE_MAX)
}

/// What the page notes is one line: no control character gets into the log.
pub proof fn a_note_is_one_line(s: Seq<char>, i: int)
    requires
        0 <= i < printable(s).len(),
    ensures
        !is_control(printable(s)[i]),
    decreases s.len(),
{
    if is_control(s.last()) {
        a_note_is_one_line(s.drop_last(), i);
    } else if i < printable(s.drop_last()).len() {
        a_note_is_one_line(s.drop_last(), i);
    }
}

/// A note loses its control characters and nothing else, and no more of it is kept than three
/// hundred characters.
pub proof fn a_note_says_what_was_written(s: Seq<char>, c: char)
    ensures
        printable(Seq::empty()).len() == 0,
        printable(s.push(c)) == if (c as u32) < 0x20 || (0x7f <= c as u32 && (c as u32) < 0xa0) {
            printable(s)
        } else {
            printable(s).push(c)
        },
        NOTE_MAX == 300,
{
    assert(s.push(c).drop_last() =~= s);
}

/// A list of milestones with one put in behind every one that is not later.
pub open spec fn placed_mark(list: Seq<(Seq<char>, i64)>, m: (Seq<char>, i64)) -> Seq<
    (Seq<char>, i64),
>
    decreases list.len(),
{
    if list.len() == 0 || list.last().1 <= m.1 {
        list.push(m)
    } else {
        placed_mark(list.drop_last(), m).push(list.last())
    }
}

/// Milestones by their time, those of one time in the order they came.
pub open spec fn by_time(list: Seq<(Seq<char>, i64)>) -> Seq<(Seq<char>, i64)>
    decreases list.len(),
{
    if list.len() == 0 {
        list
    } else {
        placed_mark(by_time(list.drop_last()), list.last())
    }
}

pub open spec fn marks_text(list: Seq<(String, i64)>) -> Seq<(Seq<char>, i64)> {
    list.map_values(|m: (String, i64)| (m.0@, m.1))
}

pub open spec fn mark_lines(list: Seq<(Seq<char>, i64)>) -> Seq<Seq<char>> {
    list.map_values(|m: (Seq<char>, i64)| m.0 + " "@ + signed_decimal(m.1 as int) + "ms"@)
}

/// Whether milestones are listed in the order of their times.
pub open spec fn in_time(list: Seq<(Seq<char>, i64)>) -> bool {
    forall|i: int, j: int| 0 <= i < j < list.len() ==> list[i].1 <= list[j].1
}

/// A boot is told in the order it happened, with every milestone once; and each by its name
/// and its time in milliseconds.
pub proof fn a_boot_is_told_in_its_order(list: Seq<(Seq<char>, i64)>, i: int)
    ensures
        in_time(by_time(list)),
        by_time(list).to_multiset() =~= list.to_multiset(),
        by_time(list).len() == list.len(),
        0 <= i < list.len() ==> mark_lines(list)[i] == list[i].0 + " "@ + signed_decimal(
            list[i].1 as int,
        ) + "ms"@,
        mark_lines(list).len() == list.len(),
    decreases list.len(),
{
    if list.len() > 0 {
        let front = list.drop_last();
        a_boot_is_told_in_its_order(front, 0);
        lemma_placed_mark(by_time(front), list.last());
        broadcast use vstd::seq_lib::group_to_multiset_ensures;
        assert(front.push(list.last()) =~= list);
    }
}

proof fn lemma_placed_mark(list: Seq<(Seq<char>, i64)>, m: (Seq<char>, i64))
    requires
        in_time(list),
    ensures
        in_time(placed_mark(list, m)),
        placed_mark(list, m).len() == list.len() + 1,
        placed_mark(list, m).to_multiset() =~= list.to_multiset().insert(m),
        forall|k: int|
            0 <= k < placed_mark(list, m).len() ==> (#[trigger] placed_mark(list, m)[k]).1 <= m.1
                || (list.len() > 0 && placed_mark(list, m)[k].1 <= list.last().1),
    decreases list.len(),
{
    broadcast use vstd::seq_lib::group_to_multiset_ensures;
    if list.len() > 0 && list.last().1 > m.1 {
        let front = list.drop_last();
        let some = placed_mark(front, m);
        assert(in_time(front));
        lemma_placed_mark(front, m);
        assert(front.push(list.last()) =~= list);
        assert forall|k: int| 0 <= k < some.len() implies (#[trigger] some[k]).1
            <= list.last().1 by {
            if front.len() > 0 && some[k].1 <= front.last().1 {
                assert(list[list.len() - 2].1 <= list[list.len() - 1].1);
            }
        }
    }
}

fn place_mark(list: &mut Vec<(String, i64)>, m: (String, i64))
    ensures
        marks_text(final(list)@) == placed_mark(marks_text(old(list)@), (m.0@, m.1)),
    decreases old(list)@.len(),
{
    let n: usize = list.len();
    if n == 0 || list[n - 1].1 <= m.1 {
        list.push(m);
        proof {
            assert(marks_text(list@) =~= marks_text(old(list)@).push((m.0@, m.1)));
        }
    } else {
        let top: Option<(String, i64)> = list.pop();
        proof {
            assert(marks_text(list@) =~= marks_text(old(list)@).drop_last());
        }
        match top {
            Some(last) => {
                place_mark(list, m);
                let ghost mid = list@;
                list.push(last);
                proof {
                    assert(marks_text(list@) =~= marks_text(mid).push((last.0@, last.1)));
                }
            },
            None => {},
        }
    }
}

/// The page's own boot timing as one line of the log, in the order the start happened.
pub fn client_timing(body: &ClientTiming) -> (r: String)
    ensures
        r@ == joined(mark_lines(by_time(marks_text(body.marks@))), ", "@),
{
    let mut ordered: Vec<(String, i64)> = Vec::new();
    let mut i: usize = 0;
    proof {
        assert(marks_text(ordered@) =~= by_time(marks_text(body.marks@).take(0)));
    }
    while i < body.marks.len()
        invariant
            i <= body.marks@.len(),
            marks_text(ordered@) == by_time(marks_text(body.marks@).take(i as int)),
        decreases body.marks@.len() - i,
    {
        proof {
            let m = marks_text(body.marks@);
            assert(m.take(i + 1).drop_last() =~= m.take(i as int));
            assert(m.take(i + 1).last() == m[i as int]);
        }
        place_mark(&mut ordered, (body.marks[i].0.clone(), body.marks[i].1));
        i += 1;
    }
    proof {
        assert(marks_text(body.marks@).take(i as int) =~= marks_text(body.marks@));
    }
    let mut lines: Vec<String> = Vec::new();
    let mut k: usize = 0;
    let ghost want = mark_lines(marks_text(ordered@));
    while k < ordered.len()
        invariant
            k <= ordered@.len(),
            want == mark_lines(marks_text(ordered@)),
            lines@.len() == k,
            forall|j: int| 0 <= j < k ==> (#[trigger] lines@[j])@ == want[j],
        decreases ordered@.len() - k,
    {
        let ms: String = signed_number(ordered[k].1);
        lines.push(cat4(ordered[k].0.as_str(), " ", ms.as_str(), "ms"));
        k += 1;
    }
    proof {
        assert(texts(lines@) =~= want);
    }
    join(&lines, ", ")
}

/// Whether the command that lists the reviews was changed, so that the list has to be
/// fetched anew.
pub fn reviews_moved(was: Option<&str>, now: Option<&str>) -> (r: bool)
    ensures
        r == (opt_str(was) != opt_str(now)),
{
    !crate::text::same_opt(was, now)
}

} // verus!
