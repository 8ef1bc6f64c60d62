use orchd::model::{Cache, StoryRef};
use orchd::post::{
    no_story_reason, permalink_of, post_one, react_one, send_reply_once, story_for,
    with_story_id, Comment, Posted, Send, Thread, Threads,
};
use orchd::story::{
    accept, drafts, file_all, filer_command, filer_env, filer_files, filer_launch, filer_may_run,
    filer_report, run_filer, scratch_name, source_line, stories_file, stub_server, to_ask,
    unfiled, FilerKind, FilerPlace, FilerStep, Report, Reported, StoryDraft, StoryVars, Wanted,
};

const HOST: &str = "app.tracker.example";

fn reported(thread: &str, n: u64) -> Reported {
    Reported {
        thread_id: thread.to_string(),
        id: Some(format!(" sc-{n} ")),
        url: Some(format!("https://{HOST}/acme/story/{n}/title ")),
        created: true,
        error: None,
    }
}

fn wanted(thread: &str) -> Wanted {
    Wanted {
        thread_id: thread.to_string(),
        draft: StoryDraft {
            title: "A title".to_string(),
            body: "The body.\n\n".to_string(),
        },
        permalink: "https://forge.example/t".to_string(),
    }
}

#[test]
fn a_report_is_taken_only_where_it_hangs_together() {
    let ok = accept(&reported("t", 7), HOST).unwrap();
    assert_eq!(ok.story.id(), "sc-7");
    assert!(!ok.reused);
    let mut found = reported("t", 7);
    found.created = false;
    assert!(accept(&found, HOST).unwrap().reused);
    let mut off = reported("t", 7);
    off.id = Some("sc-8".to_string());
    assert_eq!(
        accept(&off, HOST).unwrap_err(),
        format!(
            "reported sc-8 with url https://{HOST}/acme/story/7/title, which is not that story \
             — refusing to link it"
        )
    );
    let mut none = reported("t", 7);
    none.url = None;
    assert_eq!(
        accept(&none, HOST).unwrap_err(),
        "reported neither a story nor an error"
    );
    let mut failed = reported("t", 7);
    failed.error = Some("down".to_string());
    assert_eq!(accept(&failed, HOST).unwrap_err(), "down");
}

#[test]
fn a_batch_is_filed_thread_by_thread_and_remembered() {
    let mut cache = Cache::new();
    cache.put(
        7,
        "old",
        StoryRef::new("sc-1", &format!("https://{HOST}/acme/story/1"), HOST).unwrap(),
    );
    let batch = vec![wanted("old"), wanted("new"), wanted("lost")];
    assert_eq!(unfiled(&cache, 7, &batch, Some(HOST)), vec![1, 2]);
    let run = Ok(vec![reported("new", 2)]);
    let out = file_all(&mut cache, 7, &batch, Some(HOST), &run);
    let threads: Vec<&str> = out.iter().map(|(t, _)| t.as_str()).collect();
    assert_eq!(threads, vec!["old", "new", "lost"]);
    assert!(out[0].1.as_ref().unwrap().reused);
    assert_eq!(out[1].1.as_ref().unwrap().story.id(), "sc-2");
    assert_eq!(
        out[2].1.as_ref().unwrap_err(),
        "the story run reported nothing for this thread. If it got as far as filing, the next \
         attempt will find that story by its link back to the thread rather than making a \
         second one."
    );
    // What landed is not asked about again.
    assert_eq!(unfiled(&cache, 7, &batch, Some(HOST)), vec![2]);
    assert_eq!(cache.get(7, "new", Some(HOST)).unwrap().id(), "sc-2");
    // And nothing of it answers another PR.
    assert_eq!(unfiled(&cache, 8, &batch, Some(HOST)), vec![0, 1, 2]);
}

#[test]
fn a_failed_run_fails_each_thread_and_keeps_the_rest() {
    let mut cache = Cache::new();
    let run = Err("no worktree".to_string());
    let out = file_all(&mut cache, 7, &vec![wanted("t")], Some(HOST), &run);
    assert_eq!(out[0].1.as_ref().unwrap_err(), "no worktree");
    assert!(cache.is_empty());
    let out = file_all(&mut cache, 7, &vec![wanted("t")], None, &Ok(vec![]));
    assert_eq!(
        out[0].1.as_ref().unwrap_err(),
        "no tracker is configured, so no story can be filed"
    );
}

#[test]
fn a_filer_runs_where_there_is_somewhere_to_run() {
    let why = |t, h, w, p| {
        filer_may_run(t, 7, h, w, p)
            .err()
            .map(|e| e.message().to_string())
    };
    assert_eq!(why(true, Some("b"), true, true), None);
    assert_eq!(
        why(false, None, false, false).as_deref(),
        Some("no tracker configured, so there is nothing to file into")
    );
    assert_eq!(
        why(true, None, true, true).as_deref(),
        Some("PR #7 is not in the current poll")
    );
    assert_eq!(
        why(true, Some("b"), false, true).as_deref(),
        Some("no worktree holding b")
    );
    assert_eq!(
        why(true, Some("b"), true, false).as_deref(),
        Some("the worktree vanished")
    );
}

fn steps(k: FilerKind, fails_at: Option<FilerStep>) -> Vec<FilerStep> {
    let mut out = Vec::new();
    let mut last = None;
    let mut ok = true;
    while let Some(step) = run_filer(last, ok, k) {
        out.push(step);
        ok = fails_at != Some(step);
        last = Some(step);
    }
    out
}

#[test]
fn a_report_is_this_runs_own_report() {
    let all = FilerKind {
        stub: true,
        token: true,
        timed_out: true,
    };
    assert_eq!(
        steps(all, None),
        vec![
            FilerStep::Check,
            FilerStep::ClearReport,
            FilerStep::WriteStories,
            FilerStep::WriteStub,
            FilerStep::ReadEnvironment,
            FilerStep::CheckToken,
            FilerStep::Start,
            FilerStep::Wait,
            FilerStep::Kill,
            FilerStep::CheckTree,
            FilerStep::ReadReport,
        ]
    );
    let plain = FilerKind {
        stub: false,
        token: false,
        timed_out: false,
    };
    assert_eq!(
        steps(plain, Some(FilerStep::Start)),
        vec![
            FilerStep::Check,
            FilerStep::ClearReport,
            FilerStep::WriteStories,
            FilerStep::ReadEnvironment,
            FilerStep::Start,
        ]
    );
    // A dirty tree is said and stops nothing.
    assert_eq!(
        steps(plain, Some(FilerStep::CheckTree)).last(),
        Some(&FilerStep::ReadReport)
    );
}

#[test]
fn every_story_ends_with_its_link_back() {
    assert_eq!(
        source_line(7, "https://x"),
        "Source: review of #7 — https://x"
    );
    let rows = drafts(&vec![wanted("t")], 7);
    assert_eq!(
        rows[0],
        vec![
            ("thread_id".to_string(), "t".to_string()),
            ("title".to_string(), "A title".to_string()),
            (
                "body".to_string(),
                "The body.\n\nSource: review of #7 — https://forge.example/t".to_string()
            ),
        ]
    );
}

#[test]
fn the_stories_are_written_down_as_json() {
    let mut quoted = wanted("t");
    quoted.draft.title = "Say \"no\"".to_string();
    let text = stories_file(&vec![quoted], 7).unwrap();
    let back: Vec<std::collections::BTreeMap<String, String>> =
        serde_json::from_str(&text).unwrap();
    assert_eq!(back.len(), 1);
    assert_eq!(back[0]["thread_id"], "t");
    assert_eq!(back[0]["title"], "Say \"no\"");
    assert_eq!(
        back[0]["body"],
        "The body.\n\nSource: review of #7 — https://forge.example/t"
    );
    assert!(text.starts_with("[\n  {\n    \"body\": "));
    assert_eq!(stories_file(&vec![], 7).unwrap(), "[]");
}

#[test]
fn the_filer_is_given_one_server_and_one_folder() {
    let flags = vec!["--flag".to_string()];
    let cmd = filer_command("agent", 7, 1, "tracker", "/scratch", &flags, Some("/stub"));
    assert_eq!(
        cmd,
        vec![
            "agent",
            "-p",
            "/orchd:story 7",
            "--output-format",
            "stream-json",
            "--verbose",
            "--session-id",
            "00000000-0000-0000-0000-000000000001",
            "--allowedTools",
            "mcp__tracker Read Write",
            "--add-dir",
            "/scratch",
            "--flag",
            "--mcp-config",
            "/stub",
            "--strict-mcp-config",
        ]
    );
    assert_eq!(
        filer_command("agent", 7, 1, "tracker", "/scratch", &flags, None).len(),
        13
    );
    assert_eq!(scratch_name(7), "story-7");
    let vars = StoryVars {
        stories: "S".to_string(),
        report: "R".to_string(),
        tracker_host: "H".to_string(),
    };
    assert_eq!(
        filer_env(&vars, "/s", "/r", "h"),
        vec![
            ("S".to_string(), "/s".to_string()),
            ("R".to_string(), "/r".to_string()),
            ("H".to_string(), "h".to_string()),
        ]
    );
}

#[test]
fn the_filer_is_a_run_with_neither_credential() {
    let place = FilerPlace {
        workspace: "w".to_string(),
        path: "/w".to_string(),
        scratch: "/scratch".to_string(),
        mcp_server: "tracker".to_string(),
        host: HOST.to_string(),
        stub: None,
    };
    let vars = StoryVars {
        stories: "S".to_string(),
        report: "R".to_string(),
        tracker_host: "H".to_string(),
    };
    let env = (
        vec![("A".to_string(), "1".to_string())],
        vec!["GONE".to_string()],
    );
    let l = filer_launch(
        "agent",
        7,
        1,
        &place,
        &vec![],
        &vars,
        env,
        5,
        "key".to_string(),
    );
    assert_eq!(l.command.len(), 12);
    let pass = l.record.pass.as_ref().unwrap();
    assert_eq!((pass.pr, pass.command.as_str()), (7, "story"));
    assert_eq!(l.record.workspace, "w");
    let names: Vec<&str> = l.env.iter().map(|(k, _)| k.as_str()).collect();
    assert_eq!(names, vec!["A", "S", "R", "H"]);
    assert_eq!(l.unset, vec!["GONE"]);
    assert_eq!(l.env[1].1, "/scratch/stories.json");
    assert_eq!(l.env[2].1, "/scratch/report.json");
}

#[test]
fn a_run_without_a_report_says_what_comes_next() {
    let killed = filer_report(Report::Unread, true, 90, "\"/r\"").unwrap_err();
    assert_eq!(
        killed,
        "the story run was killed after 90s without reporting. If it got as far as filing, the \
         next attempt finds that story by its link back to the thread."
    );
    assert_eq!(
        filer_report(Report::Unread, false, 90, "\"/r\"").unwrap_err(),
        "the story run exited without writing its report. Its session is in the rail; a retry \
         searches the tracker first, so it will not file twice."
    );
    assert_eq!(
        filer_report(
            Report::Unparseable("no JSON".to_string()),
            false,
            90,
            "\"/r\""
        )
        .unwrap_err(),
        "the story run wrote something unparseable to \"/r\": no JSON"
    );
    assert_eq!(
        filer_report(Report::Failed("no token".to_string()), false, 90, "").unwrap_err(),
        "no token"
    );
    // Reported in time, it counts although the run was killed after it.
    let read = filer_report(Report::Read(vec![reported("t", 7)]), true, 90, "").unwrap();
    assert_eq!(read.len(), 1);
    // A killed run is remembered nowhere, and asked again.
    let mut cache = Cache::new();
    let batch = vec![wanted("t")];
    let out = file_all(&mut cache, 7, &batch, Some(HOST), &Err(killed.clone()));
    assert_eq!(out[0].1.as_ref().unwrap_err(), &killed);
    assert!(cache.is_empty());
    assert_eq!(to_ask(&cache, 7, &batch, Some(HOST)), vec![0]);
}

#[test]
fn a_filer_is_asked_only_where_there_is_something_to_ask() {
    let mut cache = Cache::new();
    let batch = vec![wanted("a"), wanted("b")];
    assert_eq!(to_ask(&cache, 7, &batch, Some(HOST)), vec![0, 1]);
    assert!(to_ask(&cache, 7, &batch, None).is_empty());
    file_all(
        &mut cache,
        7,
        &batch,
        Some(HOST),
        &Ok(vec![reported("a", 1)]),
    );
    assert_eq!(to_ask(&cache, 7, &batch, Some(HOST)), vec![1]);
    assert!(to_ask(&cache, 7, &vec![wanted("a")], Some(HOST)).is_empty());
}

#[test]
fn what_was_asked_is_never_read_back_as_the_report() {
    let (stories, report) = filer_files("/config/story-7");
    assert_eq!(stories, "/config/story-7/stories.json");
    assert_eq!(report, "/config/story-7/report.json");
    assert_eq!(filer_files("/s/").1, "/s/report.json");
    assert_eq!(filer_files("").0, "stories.json");
}

#[test]
fn a_stub_tracker_is_one_script() {
    let s = stub_server("/tools/stub.py", true, "/log").ok().unwrap();
    assert_eq!((s.name, s.kind, s.command), ("shortcut", "stdio", "python3"));
    assert_eq!(s.args, vec!["/tools/stub.py", "--log", "/log"]);
    assert_eq!(
        stub_server("/tools/stub.py", false, "/log")
            .err()
            .unwrap()
            .message(),
        "tracker is `stub` but /tools/stub.py is missing"
    );
}

#[test]
fn a_brace_in_a_url_brings_no_token_back() {
    let mut brace = reported("t", 7);
    brace.url = Some(format!("https://{HOST}/acme/story/7/{{sto"));
    let mut cache = Cache::new();
    let draft = StoryDraft {
        title: String::new(),
        body: String::new(),
    };
    let text = post_one(
        &mut cache,
        7,
        "t",
        "{{story}ry} {story}",
        Some(&draft),
        &threads(),
        Some(HOST),
        &Ok(vec![brace]),
    )
    .unwrap();
    assert!(text.contains("/{sto)"));
    assert!(!text.contains("{story}"));
}

fn threads() -> Threads {
    let comment = |author: &str, body: &str, url: &str| Comment {
        author: author.to_string(),
        body: body.to_string(),
        url: url.to_string(),
    };
    Threads {
        viewer: "me".to_string(),
        head_sha: None,
        items: vec![
            Thread {
                id: "empty".to_string(),
                comments: vec![],
                answerable: true,
            },
            Thread {
                id: "t".to_string(),
                comments: vec![
                    comment("you", "please", "https://forge.example/1"),
                    comment("me", " Done. \n", "https://forge.example/2"),
                ],
                answerable: false,
            },
        ],
    }
}

#[test]
fn a_reply_goes_out_with_its_story_or_not_at_all() {
    let fresh = threads();
    let draft = StoryDraft {
        title: "A title".to_string(),
        body: "The body.".to_string(),
    };
    let mut cache = Cache::new();
    let run = Ok(vec![reported("t", 7)]);
    let mut post = |reply: &str, story, run: &Result<Vec<Reported>, String>| {
        post_one(&mut cache, 7, "t", reply, story, &fresh, Some(HOST), run)
    };
    match post("x", Some(&draft), &Err("down".to_string())) {
        Err(Posted::HeldNoStory(why)) => assert_eq!(why, "down"),
        other => panic!("{other:?}"),
    }
    let link = format!("[sc-7](https://{HOST}/acme/story/7/title)");
    assert_eq!(
        post("See {story}, {story}.", Some(&draft), &run).unwrap(),
        format!("See {link}, {link}.")
    );
    // Filed once: the next reply needs no run.
    assert_eq!(
        post("{story}", Some(&draft), &Err("down".to_string())).unwrap(),
        link
    );
    assert_eq!(post("{story}", None, &run).unwrap(), "{story}");
    let filed = accept(&reported("t", 7), HOST).unwrap();
    assert_eq!(with_story_id("{story", &filed.story), "{story");
    assert_eq!(no_story_reason(Some(&Err("down".to_string()))), "down");
    assert_eq!(
        no_story_reason(None),
        "the story run answered nothing for this thread"
    );
    assert_eq!(
        story_for("t", &draft, &fresh).permalink,
        "https://forge.example/1"
    );
}

#[test]
fn filing_one_story_keeps_every_other() {
    let mut cache = Cache::new();
    let other = accept(&reported("o", 9), HOST).unwrap().story;
    cache.put(7, "o", other.clone());
    cache.put(8, "t", other.clone());
    let draft = StoryDraft {
        title: String::new(),
        body: String::new(),
    };
    let run = Ok(vec![reported("t", 7)]);
    let said = post_one(
        &mut cache,
        7,
        "t",
        "{story}",
        Some(&draft),
        &threads(),
        Some(HOST),
        &run,
    )
    .unwrap();
    assert_eq!(cache.len(), 3);
    assert_eq!(cache.get(7, "t", Some(HOST)).unwrap().link(), said);
    assert_eq!(cache.get(7, "o", Some(HOST)).unwrap().link(), other.link());
    assert_eq!(cache.get(8, "t", Some(HOST)).unwrap().link(), other.link());
}

#[test]
fn what_was_said_is_not_said_again() {
    let fresh = threads();
    assert!(matches!(
        send_reply_once(&fresh, "t", "Done.", true),
        Ok(Send::AlreadyThere)
    ));
    assert!(matches!(
        send_reply_once(&fresh, "t", "please", true),
        Ok(Send::Write)
    ));
    assert_eq!(
        send_reply_once(&fresh, "empty", "x", false)
            .unwrap_err()
            .message(),
        "thread empty has no comment to answer"
    );
    assert!(react_one("t", true).is_ok());
    assert_eq!(
        react_one("t", false).unwrap_err().message(),
        "thread t has no comment to react to"
    );
    assert_eq!(permalink_of(&fresh, "t"), "https://forge.example/1");
    assert_eq!(permalink_of(&fresh, "empty"), "");
    assert_eq!(permalink_of(&fresh, "gone"), "");
}
