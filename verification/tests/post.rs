use orchd::post::{already_replied, Comment, Thread, Threads};

/// How the forge writes a reply down.
fn with_footer(body: &str) -> String {
    format!("{body}\n\n_posted by the daemon_")
}

fn comment(author: &str, body: &str) -> Comment {
    Comment {
        author: author.into(),
        body: body.into(),
        url: "https://github.com/o/r/pull/10001#discussion_r1".into(),
    }
}

fn thread(id: &str, author: &str) -> Thread {
    Thread {
        id: id.into(),
        comments: vec![comment(author, "please fix")],
        answerable: true,
    }
}

fn fetched(items: Vec<Thread>) -> Threads {
    Threads {
        viewer: "viewer".into(),
        head_sha: Some("abc123".into()),
        items,
    }
}

#[test]
fn a_reply_already_in_the_thread_is_not_posted_twice() {
    // This is the whole of retry: derive what is missing from a fresh fetch rather than
    // remember what was sent.
    let mut t = thread("PRRT_1", "alice");
    t.comments.push(comment("viewer", &with_footer("Fixed.")));
    let fresh = fetched(vec![t]);

    assert!(already_replied(&fresh, "PRRT_1", &with_footer("Fixed.")));
    // Different words are a different reply, and should go.
    assert!(!already_replied(
        &fresh,
        "PRRT_1",
        &with_footer("Fixed in the mapper.")
    ));
}

#[test]
fn someone_elses_identical_comment_does_not_count_as_our_reply() {
    let mut t = thread("PRRT_1", "alice");
    t.comments.push(comment("alice", &with_footer("Fixed.")));
    assert!(!already_replied(
        &fetched(vec![t]),
        "PRRT_1",
        &with_footer("Fixed.")
    ));
}
