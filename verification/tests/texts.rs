use orchd::ids::{new_session_id, session_text, short_id, short_simple};
use orchd::model::{
    Board, CreateRun, Health, ProcKind, Process, Session, State, TurnReason, CREATE_LINES,
};
use orchd::paths::{absolute, extension, file_name, fold, relative, split, under};
use orchd::preview::{
    content_type, fits, grant_of, image, open, serve, token_of, ImageQuery, OpenBody,
    PreviewGrant, MAX_BYTES,
};
use orchd::text::{
    before, contains, ends_with, lower, number, replace, same, signed_number, sort, split_once,
    starts_with, take_bytes, take_chars, trim, trim_end,
};

#[test]
fn an_id_is_written_in_its_usual_ways() {
    let id = 0x0123_4567_89ab_cdef_fedc_ba98_7654_3210u128;
    assert_eq!(session_text(id), "01234567-89ab-cdef-fedc-ba9876543210");
    assert_eq!(short_id(&id), "01234567");
    assert_eq!(short_simple(id), "01234567");
    assert!(session_text(id).starts_with(&short_id(&id)));
    assert_eq!(session_text(1), uuid::Uuid::from_u128(1).to_string());
    assert_ne!(new_session_id(), new_session_id());
}

#[test]
fn words_are_trimmed_of_every_white_space() {
    assert_eq!(trim("\u{2003} a b\t\u{85}\n"), "a b");
    assert_eq!(trim_end(" a \u{3000}"), " a");
    assert_eq!(trim(" \n"), "");
    for s in ["\u{200b}x", "\u{feff}x", "x\u{1680}", "\u{180e}x", "\u{b}x\u{c}"] {
        assert_eq!(trim(s), s.trim(), "{s:?}");
    }
}

#[test]
fn texts_are_found_cut_and_replaced() {
    assert!(contains("abcab", "cab") && !contains("ab", "abc") && contains("a", ""));
    assert!(starts_with("ab", "a") && !starts_with("a", "ab"));
    assert!(ends_with("ab", "b") && !ends_with("b", "ab"));
    assert!(same("é", "é") && !same("e\u{301}", "é"));
    assert_eq!(replace("aaa", "aa", "b"), "ba");
    assert_eq!(
        split_once("a/b/c", '/'),
        Some(("a".to_string(), "b/c".to_string()))
    );
    assert_eq!(split_once("abc", '/'), None);
    assert_eq!(lower("ÀB"), "Àb");
    assert_eq!(take_chars("héllo", 2), "hé");
    assert_eq!(take_bytes("héllo", 3), "hé");
    assert_eq!(take_bytes("héllo", 99), "héllo");
    assert_eq!((number(0), number(u64::MAX)), ("0".to_string(), u64::MAX.to_string()));
    assert_eq!(
        (signed_number(i64::MIN), signed_number(-7), signed_number(7)),
        (i64::MIN.to_string(), "-7".to_string(), "7".to_string())
    );
}

#[test]
fn a_sorted_list_is_the_same_list_in_order() {
    let list: Vec<String> = ["b", "a", "é", "B", "a", ""].iter().map(|s| s.to_string()).collect();
    let mut want = list.clone();
    want.sort_unstable();
    assert_eq!(sort(&list), want);
    assert!(before("a", "ab") && before("Z", "a") && !before("b", "a"));
}

#[test]
fn a_path_is_read_by_its_components() {
    assert_eq!(split("/a//b/./c/"), vec!["/", "a", "b", "c"]);
    assert!(under("/a/b", "/a") && under("/a", "/a") && !under("/ab", "/a"));
    assert_eq!(relative("/a/b/c", "/a"), "b/c");
    assert_eq!(relative("/x", "/a"), "/x");
    assert!(absolute("/a") && !absolute("a"));
    assert_eq!(file_name("/a/b.txt").as_deref(), Some("b.txt"));
    assert_eq!(file_name("/"), None);
    assert_eq!(extension("a/b.tar.gz").as_deref(), Some("gz"));
    assert_eq!(extension("a/.profile"), None);
    assert_eq!(fold("/a/../b/./c"), "/b/c");
}

fn grant(page: &str) -> PreviewGrant {
    PreviewGrant {
        workspace: "w".to_string(),
        page: page.to_string(),
        page_ignored: false,
    }
}

#[test]
fn one_page_has_one_token() {
    let mut list = Vec::new();
    let a = token_of(&mut list, grant("a.html"), "t1".to_string());
    let again = token_of(&mut list, grant("a.html"), "t2".to_string());
    let b = token_of(&mut list, grant("b.html"), "t3".to_string());
    assert_eq!(
        (a.token.as_str(), again.token.as_str(), b.token.as_str()),
        ("t1", "t1", "t3")
    );
    assert_eq!(grant_of(&list, "t3").unwrap().page, "b.html");
    assert!(grant_of(&list, "t2").is_none());
}

#[test]
fn a_page_is_previewed_and_nothing_else() {
    let body = |path: &str| OpenBody {
        workspace: "w".to_string(),
        path: path.to_string(),
    };
    assert!(open(&body("a/B.HTML"), true, true).is_ok());
    let why = |p: &str, known, file| open(&body(p), known, file).unwrap_err().message().to_string();
    assert_eq!(
        why("a.txt", false, false),
        "only an .html file can be previewed"
    );
    assert_eq!(why("a.htm", false, false), "unknown workspace w");
    assert_eq!(why("a.htm", true, false), "a.htm is not a file");
}

#[test]
fn a_page_is_served_in_a_sandbox() {
    let g = grant("a.html");
    let served = serve(Some(&g), true, "css/x.CSS", false, true, MAX_BYTES).unwrap();
    assert_eq!(
        served,
        vec![
            ("content-type", "text/css; charset=utf-8"),
            ("content-security-policy", "sandbox allow-scripts"),
            ("x-content-type-options", "nosniff"),
            ("cache-control", "no-store"),
            ("access-control-allow-origin", "*"),
        ]
    );
    assert!(serve(None, true, "x.css", false, true, 1).is_none());
    assert!(serve(Some(&g), false, "x.css", false, true, 1).is_none());
    assert!(serve(Some(&g), true, ".git/x", false, true, 1).is_none());
    assert!(serve(Some(&g), true, "x.css", true, true, 1).is_none());
    assert!(serve(Some(&g), true, "x.css", false, false, 1).is_none());
    assert!(serve(Some(&g), true, "x.css", false, true, MAX_BYTES + 1).is_none());
    assert!(fits(true, MAX_BYTES) && !fits(true, MAX_BYTES + 1) && !fits(false, 0));
}

#[test]
fn an_image_is_an_image_by_its_name() {
    let q = |path: &str| ImageQuery {
        workspace: "w".to_string(),
        path: path.to_string(),
    };
    assert_eq!(
        image(&q("a.svg"), true, true, 5).unwrap(),
        vec![
            ("content-type", "image/svg+xml"),
            (
                "content-security-policy",
                "default-src 'none'; style-src 'unsafe-inline'; sandbox"
            ),
            ("x-content-type-options", "nosniff"),
            ("cache-control", "no-store"),
        ]
    );
    assert!(image(&q("a.html"), true, true, 5).is_none());
    assert!(image(&q("a.png"), false, true, 5).is_none());
    assert!(image(&q("a.png"), true, false, 5).is_none());
    for (path, want) in [
        ("a.mjs", "text/javascript; charset=utf-8"),
        ("a.map", "application/json"),
        ("a.JPEG", "image/jpeg"),
        ("a.md", "text/plain; charset=utf-8"),
        ("a.woff2", "font/woff2"),
        ("a.bin", "application/octet-stream"),
        ("html", "application/octet-stream"),
    ] {
        assert_eq!(content_type(path), want, "{path}");
    }
}

#[test]
fn a_cuts_output_keeps_its_last_lines() {
    let mut run = CreateRun {
        name: "w".to_string(),
        step: "hook".to_string(),
        running: true,
        lines: vec![],
        failed: None,
    };
    for n in 0..CREATE_LINES + 3 {
        run.push(n.to_string());
    }
    assert_eq!(run.lines.len(), CREATE_LINES);
    assert_eq!(run.lines[0], "3");
    assert_eq!(run.lines.last().unwrap(), &(CREATE_LINES + 2).to_string());
}

#[test]
fn a_label_is_the_name_you_gave_before_the_agents_title() {
    let mut s = Session::new(
        1,
        "w".to_string(),
        "/w".to_string(),
        None,
        1,
        String::new(),
    );
    assert_eq!(s.label(), None);
    s.title = Some("title".to_string());
    assert_eq!(s.label(), Some("title"));
    s.name = Some("name".to_string());
    assert_eq!(s.label(), Some("name"));
}

#[test]
fn small_questions_have_small_answers() {
    assert!(Board::Loud.is_loud() && !Board::Quiet.is_loud());
    let waiting = State::YourTurn {
        since: 9,
        reason: TurnReason::Ready,
    };
    assert_eq!(waiting.waiting_since(), Some(9));
    assert_eq!(State::Working.waiting_since(), None);
    let mut p = Process {
        id: "w:a".to_string(),
        name: "a".to_string(),
        kind: ProcKind::Managed { command: vec![] },
        health: Health::Fine,
        cwd: "/w".to_string(),
        pty: None,
    };
    assert!(p.is_managed());
    p.kind = ProcKind::Shell { exit_code: None };
    assert!(!p.is_managed());
}
