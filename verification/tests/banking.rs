use orchd::api::ApiError;
use orchd::bank::{
    banked_at, rebase, rebase_abort, rebase_failed, rebase_step, rebased, restored, settle,
    settle_bank, stale_base, wip_discard, wip_ref, wip_resolve, wip_restore, RebaseSeen,
    RebaseStep, Settle, Wip,
};
use orchd::model::Bank;

fn bank() -> Bank {
    Bank {
        sha: "abc".to_string(),
        files: 4,
    }
}

fn words<T: std::fmt::Debug>(r: Result<T, ApiError>) -> (u16, String) {
    let e = r.unwrap_err();
    (e.status(), e.message().to_string())
}

fn paths(n: usize) -> Vec<String> {
    (0..n).map(|i| format!("p{i}")).collect()
}

#[test]
fn a_rebase_says_what_is_in_its_way() {
    let go = |known, mid, conflicted: usize, busy, bank: Option<&Bank>| {
        rebase("w", known, mid, &paths(conflicted), busy, bank)
    };
    assert!(go(true, false, 0, None, None).is_ok());
    assert_eq!(
        words(go(false, true, 0, None, None)),
        (400, "unknown workspace w".to_string())
    );
    assert_eq!(
        words(go(true, true, 1, None, None)),
        (
            409,
            "a rebase is already stopped part-way here; finish or abort it first".to_string()
        )
    );
    assert_eq!(
        words(go(true, false, 4, Some("x"), None)),
        (
            400,
            "w still has conflicts (p0, p1, p2) — settle them first".to_string()
        )
    );
    assert_eq!(
        words(go(true, false, 0, Some("fixer"), Some(&bank()))),
        (
            409,
            "fixer is working here; rebasing under it would fight it".to_string()
        )
    );
    assert_eq!(
        words(go(true, false, 0, None, Some(&bank()))),
        (
            400,
            "4 file(s) from an earlier rebase are still banked at refs/orchd/wip/w — put them \
             back or discard them first"
                .to_string()
        )
    );
}

fn run(seen: RebaseSeen, rebase_answers: bool) -> Vec<RebaseStep> {
    let mut steps = Vec::new();
    let mut last = None;
    let mut ok = true;
    while let Some(step) = rebase_step(last, ok, seen) {
        steps.push(step);
        ok = step != RebaseStep::Rebase || rebase_answers;
        last = Some(step);
    }
    steps
}

#[test]
fn work_is_parked_before_a_rebase_and_put_back_after() {
    let seen = RebaseSeen {
        clean: false,
        banked: true,
        failed: false,
        stopped: false,
    };
    assert_eq!(
        run(seen, true),
        vec![
            RebaseStep::Check,
            RebaseStep::Bank,
            RebaseStep::Fetch,
            RebaseStep::Rebase,
            RebaseStep::LookForStopped,
            RebaseStep::PutBack,
            RebaseStep::Reconcile,
        ]
    );
    // Without an answer nothing is put back over it.
    assert_eq!(
        run(seen, false),
        vec![
            RebaseStep::Check,
            RebaseStep::Bank,
            RebaseStep::Fetch,
            RebaseStep::Rebase,
            RebaseStep::Reconcile,
        ]
    );
    let stopped = RebaseSeen {
        failed: true,
        stopped: true,
        ..seen
    };
    assert!(!run(stopped, true).contains(&RebaseStep::PutBack));
    let clean = RebaseSeen {
        clean: true,
        banked: false,
        failed: false,
        stopped: false,
    };
    assert_eq!(
        run(clean, true),
        vec![
            RebaseStep::Check,
            RebaseStep::Fetch,
            RebaseStep::Rebase,
            RebaseStep::Reconcile,
        ]
    );
    assert_eq!(
        rebase_step(Some(RebaseStep::Check), false, seen),
        None
    );
    assert_eq!(rebase_step(Some(RebaseStep::Bank), false, seen), None);
}

#[test]
fn banked_work_goes_back_or_stays_banked() {
    assert_eq!(settle_bank(false, true, true), Settle::Nothing);
    assert_eq!(settle_bank(true, true, true), Settle::Keep);
    assert_eq!(settle_bank(true, true, false), Settle::PutBack);
    assert_eq!(settle_bank(true, false, true), Settle::PutBack);
    let (wip, left) = settle(Settle::PutBack, true, Some(bank()));
    assert_eq!(wip, Some(Wip::Reapplied));
    assert!(left.is_none());
    for (how, back, want) in [
        (Settle::PutBack, false, Wip::Conflicted),
        (Settle::Keep, false, Wip::Banked),
    ] {
        let (wip, left) = settle(how, back, Some(bank()));
        assert_eq!(wip, Some(want));
        assert!(rebase("w", true, false, &vec![], None, left.as_ref()).is_err());
    }
    let (wip, left) = settle(Settle::Nothing, true, None);
    assert_eq!(wip, None);
    assert!(left.is_none());
    assert_eq!(
        [Wip::Banked, Wip::Reapplied, Wip::Conflicted].map(|w| w.said()),
        ["banked", "reapplied", "conflicted"]
    );
}

#[test]
fn a_rebase_answers_what_became_of_the_work() {
    let stale = stale_base(Some("offline"));
    assert_eq!(
        stale.as_deref(),
        Some("upstream fetch failed — rebased onto the last-known base (offline)")
    );
    assert_eq!(stale_base(None), None);
    assert_eq!(
        rebased(Some("old".to_string()), Some(Wip::Conflicted)).as_deref(),
        Some("old · your uncommitted work did not go back; it is banked")
    );
    assert_eq!(
        rebased(None, Some(Wip::Conflicted)).as_deref(),
        Some("your uncommitted work did not go back; it is banked")
    );
    assert_eq!(
        rebased(Some("old".to_string()), Some(Wip::Reapplied)).as_deref(),
        Some("old")
    );
    let failed = |wip| rebase_failed("stop".to_string(), wip, "w").message().to_string();
    assert_eq!(
        failed(Some(Wip::Banked)),
        "stop — your uncommitted work is banked at refs/orchd/wip/w, and goes back when this ends"
    );
    assert_eq!(
        failed(Some(Wip::Conflicted)),
        "stop — and your uncommitted work conflicts with the tree it came back to; it is banked \
         at refs/orchd/wip/w"
    );
    assert_eq!(failed(Some(Wip::Reapplied)), "stop");
    assert_eq!(failed(None), "stop");
}

#[test]
fn an_abort_brings_the_work_home() {
    let (wip, left) = rebase_abort(Some(bank()), true, true);
    assert_eq!(wip, Some(Wip::Reapplied));
    assert!(left.is_none());
    let (wip, left) = rebase_abort(Some(bank()), true, false);
    assert_eq!(wip, Some(Wip::Conflicted));
    assert_eq!(left.unwrap().sha, "abc");
    let (wip, left) = rebase_abort(Some(bank()), false, true);
    assert_eq!(wip, None);
    assert!(left.is_some());
}

#[test]
fn the_banks_own_buttons_ask_first() {
    assert_eq!(wip_ref("w"), "refs/orchd/wip/w");
    assert_eq!(banked_at("w", true, Some(&bank())).ok().unwrap().files, 4);
    assert_eq!(
        wip_discard("w", false, Some(&bank())).err().unwrap().message(),
        "unknown workspace w"
    );
    assert_eq!(
        wip_discard("w", true, None).err().unwrap().message(),
        "w has nothing banked"
    );
    assert_eq!(wip_discard("w", true, Some(&bank())).ok().unwrap(), "abc");
    assert!(wip_restore("w", true, Some(&bank()), None, &vec![]).is_ok());
    assert_eq!(
        words(wip_restore("w", true, Some(&bank()), Some("x"), &paths(1))),
        (
            409,
            "x is working here; wait for the turn to finish".to_string()
        )
    );
    assert_eq!(
        words(wip_restore("w", true, Some(&bank()), None, &paths(1))),
        (
            400,
            "settle the conflict in p0 first — git cannot apply anything over unmerged paths"
                .to_string()
        )
    );
    let (left, answer) = restored("w", bank(), None);
    assert!(left.is_none() && answer.is_ok());
    let (left, answer) = restored("w", bank(), Some("no"));
    assert!(left.is_some());
    assert_eq!(
        words(answer),
        (
            400,
            "no — it is still banked at refs/orchd/wip/w".to_string()
        )
    );
}

#[test]
fn a_conflict_is_handed_to_the_session_that_is_there() {
    assert_eq!(
        words(wip_resolve("w", None, true)),
        (400, "w has nothing banked".to_string())
    );
    assert_eq!(
        words(wip_resolve("w", Some(&bank()), false)),
        (
            400,
            "no live session in w — open one here and press again".to_string()
        )
    );
    assert_eq!(
        wip_resolve("w", Some(&bank()), true).unwrap(),
        "The rebase left my uncommitted work conflicting with the new base. Both sides are in \
         the working tree as conflict markers, and my work as it was is banked at \
         refs/orchd/wip/w (`git stash show -p abc` to read it). Please resolve the conflicts, \
         keep both intents where they can both stand, leave the result uncommitted, and tell me \
         what you kept."
    );
}
