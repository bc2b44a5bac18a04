use lengthy::link::{derive_key, plan_generate};
use lengthy::route::{path_segments, route, Route};

#[test]
fn segments_skip_empty_parts() {
    assert_eq!(path_segments("/api//generate/x/"), vec!["api", "generate", "x"]);
    assert_eq!(path_segments(""), Vec::<String>::new());
    assert_eq!(path_segments("///"), Vec::<String>::new());
    assert_eq!(path_segments("a"), vec!["a"]);
}

#[test]
fn empty_path_is_the_index() {
    assert!(matches!(route("/"), Route::Index));
    assert!(matches!(route(""), Route::Index));
}

#[test]
fn generate_path_carries_the_raw_target() {
    match route("/api/generate/https%3A%2F%2Fexample.com") {
        Route::Generate(t) => assert_eq!(t, "https%3A%2F%2Fexample.com"),
        _ => panic!("expected generate"),
    }
}

#[test]
fn token_path_resolves() {
    let plan = plan_generate("https://example.com/page").unwrap();
    match route(&format!("/{}", plan.token)) {
        Route::Resolve(l) => {
            assert_eq!(l.key, derive_key("https://example.com/page"));
            assert_eq!(l.key_hash, plan.key_hash);
        }
        _ => panic!("expected resolve"),
    }
}

#[test]
fn other_paths_are_assets() {
    assert!(matches!(route("/style.css"), Route::Asset));
    assert!(matches!(route(&format!("/{}", "c".repeat(200))), Route::Asset));
    assert!(matches!(route("/api/generate"), Route::Asset));
    assert!(matches!(route("/api/other/x"), Route::Asset));
}
