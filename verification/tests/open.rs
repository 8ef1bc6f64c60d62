use orchd::api::archive::{
    archive_needle, default_context, diff_file, file_verb, search_archive, searchable,
    verb_may_look, verb_may_run, Conversation, FileVerb, Kept, Status,
};
use orchd::api::open::{
    blob_at, client_note, client_timing, is_wsl, open_external, open_file, open_url, open_urls,
    openers, pr_from_poll, read_forge, repo_of, resolve_repo, reveal_path, reviews_moved,
    write_forge, Pr,
};
use orchd::api::{
    ApiError, ArchiveQuery, ClientNote, ClientTiming, FileDiffQuery, FileVerbBody, OpenFile,
    OpenUrl, OpenUrls, RevealPath,
};
use orchd::model::{Session, State, Workspace, WorkspaceKind};

fn words<T: std::fmt::Debug>(r: Result<T, ApiError>) -> (u16, String) {
    let e = r.unwrap_err();
    (e.status(), e.message().to_string())
}

fn said(text: &str) -> (u16, String) {
    (400, text.to_string())
}

#[test]
fn nothing_but_the_web_is_opened() {
    let open = |u: &str| open_url(&OpenUrl { url: u.to_string() });
    assert_eq!(open(" https://a.example/x ").unwrap(), "https://a.example/x");
    assert_eq!(open("http://a").unwrap(), "http://a");
    for bad in ["file:///etc/passwd", "javascript:1", "HTTPS://a", ""] {
        assert_eq!(words(open(bad)), said("refusing to open non-http URL"));
    }
    let many = open_urls(&OpenUrls {
        urls: vec![
            " https://a ".to_string(),
            "ftp://b".to_string(),
            "http://c".to_string(),
        ],
    });
    assert_eq!(many.unwrap(), vec!["https://a", "http://c"]);
    assert_eq!(
        words(open_urls(&OpenUrls {
            urls: vec!["http://a".to_string(); 33],
        })),
        said("refusing to open 33 URLs at once — the cap is 32")
    );
    assert_eq!(
        open_urls(&OpenUrls {
            urls: vec!["http://a".to_string(); 32],
        })
        .unwrap()
        .len(),
        32
    );
}

#[test]
fn the_first_installed_opener_is_used() {
    assert_eq!(openers(true, true), vec!["open"]);
    assert_eq!(
        openers(false, true),
        vec!["wslview", "xdg-open", "x-www-browser", "sensible-browser"]
    );
    let names: Vec<String> = openers(false, false).iter().map(|s| s.to_string()).collect();
    assert_eq!(
        open_external(&names, &vec![false, true, true]).ok(),
        Some(1)
    );
    assert_eq!(
        words(open_external(&names, &vec![false, false, false])),
        said("no browser opener found (tried xdg-open, x-www-browser, sensible-browser)")
    );
    assert!(is_wsl(true, None));
    assert!(is_wsl(false, Some("Linux 5.15 (Microsoft@Microsoft.com)")));
    assert!(!is_wsl(false, Some("Linux 6.1")));
    assert!(!is_wsl(false, None));
}

#[test]
fn a_path_is_shown_itself_or_by_its_folder() {
    let body = |folder| RevealPath {
        workspace: "w".to_string(),
        path: "a".to_string(),
        folder,
    };
    assert_eq!(
        reveal_path(&body(false), true, "/w/a", Some("/w")).unwrap(),
        "/w/a"
    );
    assert_eq!(
        reveal_path(&body(true), true, "/w/a", Some("/w")).unwrap(),
        "/w"
    );
    assert_eq!(reveal_path(&body(true), true, "/", None).unwrap(), "/");
    assert_eq!(
        words(reveal_path(&body(true), false, "/", None)),
        said("unknown workspace w")
    );
}

fn pr(number: u64, head: &str, sha: Option<&str>) -> Pr {
    Pr {
        number,
        head_ref: head.to_string(),
        head_sha: sha.map(str::to_string),
        base_ref: "main".to_string(),
    }
}

fn space(id: &str, kind: WorkspaceKind, branches: &[&str]) -> Workspace {
    Workspace {
        id: id.to_string(),
        path: format!("/{id}"),
        kind,
        branches: branches.iter().map(|b| b.to_string()).collect(),
        processes: vec![],
        occupant: None,
        tree: Default::default(),
        banked: None,
    }
}

fn spaces() -> Vec<Workspace> {
    vec![
        space("main", WorkspaceKind::Main, &["main"]),
        space(
            "w",
            WorkspaceKind::Worktree {
                name: "w".to_string(),
            },
            &["x", "feature"],
        ),
    ]
}

#[test]
fn a_file_is_opened_at_the_commit_its_pr_is_at() {
    let prs = vec![
        pr(1, "other", Some("111")),
        pr(2, "feature", Some("222")),
        pr(3, "x", Some("333")),
    ];
    let open = |w: &str, p: &str| {
        open_file(
            &OpenFile {
                workspace: w.to_string(),
                path: p.to_string(),
            },
            &spaces(),
            &prs,
        )
    };
    let blob = open("w", " src/a.rs ").ok().unwrap();
    assert_eq!(
        (blob.path.as_str(), blob.at.as_str(), blob.commit.as_deref()),
        ("src/a.rs", "/w", Some("222"))
    );
    assert_eq!(open("main", "a").ok().unwrap().commit, None);
    for (w, p, why) in [
        ("w", "  ", "no path given"),
        ("w", "src/ ", "src/ is a directory, and a blob URL is for a file"),
        ("z", "a", "no such workspace: z"),
    ] {
        assert_eq!(open(w, p).err().unwrap().message(), why);
    }
    assert!(blob_at("a", "0123456789", true).is_ok());
    assert_eq!(
        words(blob_at("a", "0123456789", false)),
        said("a is not in 01234567 — an untracked file has no blob to open")
    );
    assert_eq!(
        words(blob_at("a", "0123", false)).1,
        "a is not in 0123 — an untracked file has no blob to open"
    );
    assert_eq!(pr_from_poll(&prs, 2).unwrap().head_ref, "feature");
    assert_eq!(
        words(pr_from_poll(&prs, 9)),
        said("PR #9 is not in the current poll")
    );
}

fn repo(a: &str, b: &str) -> Option<(String, String)> {
    Some((a.to_string(), b.to_string()))
}

#[test]
fn the_repository_is_the_configured_one_first() {
    assert_eq!(resolve_repo(Some("o/n/x"), repo("r", "s")), repo("o", "n/x"));
    assert_eq!(resolve_repo(Some("bare"), repo("r", "s")), None);
    assert_eq!(resolve_repo(None, repo("r", "s")), repo("r", "s"));
    assert_eq!(repo_of(Some("o/n"), repo("r", "s")), repo("o", "n"));
    assert_eq!(repo_of(Some("bare"), repo("r", "s")), repo("r", "s"));
    assert_eq!(repo_of(None, None), None);
    let none = said("no GitHub repo configured and none on the remote");
    assert_eq!(words(write_forge(None)), none);
    assert_eq!(write_forge(repo("o", "n")).ok(), repo("o", "n"));
    assert_eq!(words(read_forge(None, Ok("t".to_string()))), none);
    assert_eq!(
        words(read_forge(repo("o", "n"), Err("no token".to_string()))),
        said("no token")
    );
    assert_eq!(
        read_forge(repo("o", "n"), Ok("t".to_string())).unwrap().2,
        "t"
    );
    assert!(reviews_moved(Some("a"), None));
    assert!(!reviews_moved(Some("a"), Some("a")));
}

#[test]
fn a_note_is_one_line_of_the_log() {
    let note = |n: &str| {
        client_note(&ClientNote {
            note: n.to_string(),
        })
    };
    assert_eq!(note("a\nb\u{1b}[31m\u{7f}\u{85}c"), "ab[31mc");
    assert_eq!(note(&"é".repeat(400)), "é".repeat(300));
}

#[test]
fn a_start_is_logged_in_the_order_it_happened() {
    let marks = vec![
        ("paint".to_string(), 40),
        ("boot".to_string(), -2),
        ("first".to_string(), 40),
    ];
    assert_eq!(
        client_timing(&ClientTiming { marks }),
        "boot -2ms, paint 40ms, first 40ms"
    );
    assert_eq!(client_timing(&ClientTiming { marks: vec![] }), "");
}

#[test]
fn the_archive_is_searched_for_two_letters_or_more() {
    let needle = |f: &str| {
        archive_needle(&ArchiveQuery {
            find: f.to_string(),
        })
    };
    assert_eq!(needle("  FoÉ "), Some("foÉ".to_string()));
    assert_eq!(needle(" a "), None);
    let session = |id: u128, state: State| {
        let mut s = Session::new(
            id,
            "w".to_string(),
            "/w".to_string(),
            None,
            1,
            String::new(),
        );
        s.transcript_path = Some(format!("/t{id}"));
        s.state = state;
        s
    };
    let mut kept = session(2, State::Archived { resumable: true });
    kept.archived_transcript = Some("/copy".to_string());
    let list = vec![
        session(1, State::Working),
        kept,
        session(3, State::Exited),
    ];
    let external = vec![Conversation {
        id: 4,
        workspace: "w".to_string(),
        branch: None,
        transcript: "/out".to_string(),
    }];
    let found = search_archive(&list, &external);
    let ids: Vec<u128> = found.iter().map(|a| a.id).collect();
    assert_eq!(ids, vec![2, 3, 4]);
    assert!(matches!(&found[0].at, Kept::Own { recorded: Some(p), .. } if p == "/copy"));
    assert!(matches!(&found[1].at, Kept::Own { recorded: Some(p), .. } if p == "/t3"));
    assert!(matches!(&found[2].at, Kept::Outside { transcript } if transcript == "/out"));
}

#[test]
fn a_search_of_main_leaves_the_worktrees_out() {
    assert_eq!(
        searchable(&spaces(), "main", ".trees").unwrap(),
        ("/main".to_string(), Some(".trees".to_string()))
    );
    assert_eq!(
        searchable(&spaces(), "w", ".trees").unwrap(),
        ("/w".to_string(), None)
    );
    assert_eq!(
        words(searchable(&spaces(), "z", ".trees")),
        said("unknown workspace z")
    );
}

#[test]
fn a_diff_has_a_bounded_context() {
    let q = |context| FileDiffQuery {
        workspace: "w".to_string(),
        path: "a".to_string(),
        base: None,
        pr_base: None,
        context,
    };
    assert_eq!(default_context(), 3);
    assert_eq!(diff_file(&q(9_999)), 9_999);
    assert_eq!(diff_file(&q(10_001)), 10_000);
}

#[test]
fn a_file_verb_acts_on_what_is_there() {
    let body = |verb: &str| FileVerbBody {
        workspace: "w".to_string(),
        path: " a ".to_string(),
        verb: verb.to_string(),
    };
    assert_eq!(
        file_verb(&body("stage"), true).unwrap(),
        (FileVerb::Stage, "a".to_string())
    );
    assert_eq!(
        file_verb(&body("unstage"), true).unwrap().0,
        FileVerb::Unstage
    );
    assert_eq!(
        file_verb(&body("discard"), true).unwrap().0,
        FileVerb::Discard
    );
    assert_eq!(
        words(file_verb(&body("blame"), false)),
        said("blame is not a file verb")
    );
    assert_eq!(
        words(file_verb(&body("stage"), false)),
        said("no such workspace: w")
    );
    let status = Status {
        staged: vec!["s".to_string()],
        unstaged: vec!["u".to_string()],
        untracked: vec!["n".to_string()],
    };
    let run = |v: &str, verb, rel: &str| {
        verb_may_run(&body(v), verb, "/w", &format!("/w/{rel}"), &status)
    };
    assert_eq!(run("stage", FileVerb::Stage, "u").unwrap(), "u");
    assert!(run("stage", FileVerb::Stage, "n").is_ok());
    assert!(run("unstage", FileVerb::Unstage, "s").is_ok());
    assert!(run("discard", FileVerb::Discard, "u").is_ok());
    assert_eq!(
        words(run("discard", FileVerb::Discard, "n")),
        said("n has nothing to discard")
    );
    assert_eq!(
        words(verb_may_look(&body("stage"), Some("fixer"))),
        (409, "fixer is mid-turn in w — wait for it".to_string())
    );
    assert!(verb_may_look(&body("stage"), None).is_ok());
}
