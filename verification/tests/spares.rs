use orchd::spare::{
    branch_to_delete, claim, cut_one, discard, refresh, verdict, Claim, Entry, Found, Kind, Measured, Parting, Pool,
    Scan, Stale, Upkeep, MAX_AGE, SCAN_BUDGET,
};
use orchd::spawn::record::Candidate;

fn fresh() -> Measured {
    Measured {
        clean: true,
        behind: 0,
        ahead: 0,
        branch: Some("worktree-s".to_string()),
        dangling: false,
        age: Some(MAX_AGE),
    }
}

#[test]
fn only_a_fresh_tree_is_handed_over() {
    assert_eq!(verdict(true, Some(&fresh()), "s"), None);
    assert_eq!(claim(true, true, Some(&fresh()), "s"), Claim::Take);
    assert_eq!(claim(false, true, Some(&fresh()), "s"), Claim::Unknown);
    assert_eq!(refresh(true, true, Some(&fresh()), "s"), Upkeep::Relink);
    assert_eq!(
        refresh(false, true, Some(&fresh()), "s"),
        Upkeep::Part(Stale::Missing)
    );
    for (m, want) in [
        (
            Measured {
                clean: false,
                ..fresh()
            },
            Stale::Touched,
        ),
        (
            Measured {
                ahead: 1,
                behind: 3,
                ..fresh()
            },
            Stale::Touched,
        ),
        (
            Measured {
                branch: Some("other".to_string()),
                behind: 1,
                ..fresh()
            },
            Stale::Moved,
        ),
        (
            Measured {
                branch: None,
                ..fresh()
            },
            Stale::Moved,
        ),
        (
            Measured {
                behind: 1,
                dangling: true,
                ..fresh()
            },
            Stale::Behind,
        ),
        (
            Measured {
                dangling: true,
                age: None,
                ..fresh()
            },
            Stale::Dangling,
        ),
        (
            Measured {
                age: Some(MAX_AGE + 1),
                ..fresh()
            },
            Stale::Old,
        ),
    ] {
        assert_eq!(verdict(true, Some(&m), "s"), Some(want));
        assert_eq!(claim(true, true, Some(&m), "s"), Claim::Part(want));
        assert_eq!(refresh(true, true, Some(&m), "s"), Upkeep::Part(want));
    }
    assert_eq!(verdict(true, None, "s"), Some(Stale::Touched));
    assert_eq!(verdict(false, Some(&fresh()), "s"), Some(Stale::Missing));
}

#[test]
fn work_is_promoted_and_never_removed() {
    for (why, words, removable, parting) in [
        (Stale::Missing, "its tree is gone", true, Parting::Nothing),
        (
            Stale::Touched,
            "it has been worked in",
            false,
            Parting::Promote,
        ),
        (Stale::Behind, "the base moved on", true, Parting::Teardown),
        (
            Stale::Dangling,
            "a symlink no longer resolves",
            true,
            Parting::Teardown,
        ),
        (
            Stale::Moved,
            "it is no longer on the branch it was cut with",
            false,
            Parting::Promote,
        ),
        (
            Stale::Old,
            "it is older than the pool vouches for",
            true,
            Parting::Teardown,
        ),
    ] {
        assert_eq!(why.why(), words);
        assert_eq!(why.removable(), removable);
        let mut p = pool(&["a", "s", "b"]);
        assert_eq!(discard(&mut p, "s", why), parting);
        assert_eq!(p.ids, vec!["a", "b"]);
        // Its branch goes only with a tree that was torn down.
        assert_eq!(branch_to_delete(parting, false, "s"), None);
        let gone = branch_to_delete(parting, true, "s");
        assert_eq!(
            gone.as_deref(),
            (parting == Parting::Teardown).then_some("worktree-s")
        );
    }
}

fn pool(ids: &[&str]) -> Pool {
    Pool {
        ids: ids.iter().map(|s| s.to_string()).collect(),
    }
}

#[test]
fn a_spare_is_taken_once_and_in_order() {
    let mut p = pool(&["a", "b", "a"]);
    assert_eq!(p.take(1).as_deref(), Some("a"));
    assert_eq!(p.ids, vec!["b"]);
    assert_eq!(p.take(0), None);
    assert_eq!(p.take(1).as_deref(), Some("b"));
    assert_eq!(p.take(1), None);
    let mut q = pool(&["a", "b"]);
    assert!(q.drop_spare("b"));
    assert!(!q.drop_spare("b"));
    assert_eq!(q.to_look_at(1), vec!["a"]);
    assert_eq!(q.ids, vec!["a"]);
    // Turned off, the pool lets everything go.
    assert!(q.to_look_at(0).is_empty());
    assert!(q.ids.is_empty());
}

#[test]
fn a_refill_stops_when_it_is_full_or_fails() {
    let mut p = pool(&[]);
    let mut cut = 0;
    while p.refill(3, false) {
        cut += 1;
        p.record(&format!("n{cut}"));
    }
    assert_eq!(p.ids, vec!["n1", "n2", "n3"]);
    assert!(!pool(&[]).refill(3, true));
    assert!(!pool(&["a"]).refill(0, false));
}

#[test]
fn a_restart_keeps_what_still_stands() {
    let names = |l: &[&str]| l.iter().map(|s| s.to_string()).collect::<Vec<_>>();
    let (p, dropped) = Pool::adopt_at_boot(&names(&["a", "b", "c"]), &names(&["c", "main", "a"]));
    assert_eq!(p.ids, vec!["a", "c"]);
    assert_eq!(dropped, 1);
}

#[test]
fn a_spare_is_cut_under_a_free_name() {
    let c = |name: &str, on_disk| Candidate {
        name: name.to_string(),
        on_disk,
    };
    let held = vec!["a".to_string()];
    assert_eq!(
        cut_one(&vec![c("a", false), c("b", true), c("c", false)], &held),
        Some(("c".to_string(), "worktree-c".to_string()))
    );
    assert_eq!(cut_one(&vec![c("a", false)], &held), None);
}

#[test]
fn a_scan_enters_real_folders_and_finds_a_broken_link() {
    let entry = |path: &str, kind| Entry {
        path: path.to_string(),
        kind,
    };
    let mut s = Scan::new("/t");
    assert_eq!(s.next().as_deref(), Some("/t"));
    let found = s.look(&vec![
        entry("/t/l", Kind::Link { resolves: true }),
        entry("/t/d", Kind::Directory),
        entry("/t/u", Kind::Unreadable),
        entry("/t/e", Kind::Directory),
        entry("/t/f", Kind::Other),
    ]);
    assert_eq!(found, Found::Clear);
    assert_eq!(s.seen, 5);
    assert_eq!(s.next().as_deref(), Some("/t/e"));
    assert_eq!(
        s.look(&vec![entry("/t/e/x", Kind::Link { resolves: false })]),
        Found::Broken
    );
    assert_eq!(s.next().as_deref(), Some("/t/d"));
    assert_eq!(s.next(), None);
    let mut spent = Scan {
        stack: vec![],
        seen: SCAN_BUDGET,
    };
    assert_eq!(
        spent.look(&vec![entry("/x", Kind::Link { resolves: false })]),
        Found::Exhausted
    );
}
