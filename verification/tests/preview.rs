use orchd::preview::{servable, PreviewGrant};

fn grant(page: &str, page_ignored: bool) -> PreviewGrant {
    PreviewGrant {
        workspace: "wt".into(),
        page: page.into(),
        page_ignored,
    }
}

#[test]
fn a_dot_anywhere_is_refused() {
    let g = grant("site/index.html", false);
    assert!(servable("site/app.css", &g, false));
    assert!(
        servable("assets/logo.png", &g, false),
        "the rest of the workspace"
    );
    for bad in [
        ".env",
        "site/.env",
        ".git/config",
        "../x",
        "site/../.env",
        "a//b",
        "",
    ] {
        assert!(!servable(bad, &g, false), "{bad}");
    }
}

#[test]
fn an_ignored_file_is_refused_unless_the_page_is_build_output() {
    let ignored = |p: &str| p.starts_with("dist/") || p == "secrets.json";
    let ask = |p: &str, g: &PreviewGrant| servable(p, g, ignored(p));
    let untouched = grant("site/index.html", false);
    assert!(!ask("secrets.json", &untouched));
    assert!(!ask("dist/app.js", &untouched));

    let built = grant("dist/index.html", true);
    assert!(ask("dist/app.js", &built), "its own bundle");
    assert!(ask("dist/chunks/a.js", &built));
    assert!(!ask("secrets.json", &built), "not every ignored file");
}
