use zimserve::archive::{Entry, Index, Target, MAX_REDIRECT_HOPS, request_names};
use zimserve::dispatch::{reply_for_blob, route, Method, Reply, Route, ALLOW};
use zimserve::logger::init;

fn entry(url: &str, target: Target) -> Option<Entry> {
    Some(Entry { url: url.as_bytes().to_vec(), target })
}

fn hello_index() -> Index {
    Index { entries: vec![entry("A/Hello", Target::Blob(2, 0))] }
}

fn expect_reply(r: Route) -> Reply {
    match r {
        Route::Respond(rep) => rep,
        Route::Fetch(c, b) => panic!("expected a reply, got a fetch of {} {}", c, b),
    }
}

#[test]
fn get_known_path_fetches_its_block() {
    let index = hello_index();
    match route(&index, Method::Get, b"/A/Hello") {
        Route::Fetch(c, b) => assert_eq!((c, b), (2, 0)),
        Route::Respond(rep) => panic!("unexpected reply {}", rep.status),
    }
    let rep = reply_for_blob(Some(b"Hi!".to_vec()));
    assert_eq!(rep.status, 200);
    assert!(!rep.allow);
    assert_eq!(rep.body, b"Hi!".to_vec());
}

#[test]
fn get_missing_path_is_not_found() {
    let rep = expect_reply(route(&hello_index(), Method::Get, b"/A/Missing"));
    assert_eq!(rep.status, 404);
    assert!(rep.body.is_empty());
    assert!(!rep.allow);
}

#[test]
fn get_without_leading_slash_is_not_found() {
    let rep = expect_reply(route(&hello_index(), Method::Get, b"A/Hello"));
    assert_eq!(rep.status, 404);
    let rep = expect_reply(route(&hello_index(), Method::Get, b""));
    assert_eq!(rep.status, 404);
}

#[test]
fn get_prefix_or_extension_of_url_is_not_found() {
    assert_eq!(expect_reply(route(&hello_index(), Method::Get, b"/A/Hell")).status, 404);
    assert_eq!(expect_reply(route(&hello_index(), Method::Get, b"/A/Hello/")).status, 404);
    assert_eq!(expect_reply(route(&hello_index(), Method::Get, b"/")).status, 404);
}

#[test]
fn options_allows_get_head_options_on_any_path() {
    for path in [&b"/A/Hello"[..], b"/A/Missing", b"*", b""] {
        let rep = expect_reply(route(&hello_index(), Method::Options, path));
        assert_eq!(rep.status, 200);
        assert!(rep.allow);
        assert!(rep.body.is_empty());
    }
    assert_eq!(ALLOW, "GET, HEAD, OPTIONS");
}

#[test]
fn other_methods_are_not_allowed() {
    let methods = [
        Method::Head,
        Method::Post,
        Method::Put,
        Method::Delete,
        Method::Connect,
        Method::Trace,
        Method::Patch,
        Method::Other,
    ];
    for m in methods {
        for path in [&b"/A/Hello"[..], b"/A/Missing"] {
            let rep = expect_reply(route(&hello_index(), m, path));
            assert_eq!(rep.status, 405);
            assert!(!rep.allow);
            assert!(rep.body.is_empty());
        }
    }
}

#[test]
fn failed_read_is_internal_error() {
    let rep = reply_for_blob(None);
    assert_eq!(rep.status, 500);
    assert!(rep.body.is_empty());
}

#[test]
fn empty_block_is_served_empty() {
    let rep = reply_for_blob(Some(Vec::new()));
    assert_eq!(rep.status, 200);
    assert!(rep.body.is_empty());
}

#[test]
fn different_paths_route_independently() {
    let index = Index {
        entries: vec![
            entry("A/One", Target::Blob(0, 1)),
            entry("A/Two", Target::Blob(3, 4)),
            entry("A/Three", Target::Blob(5, 6)),
        ],
    };
    let paths: [(&[u8], (u32, u32)); 3] =
        [(b"/A/Three", (5, 6)), (b"/A/One", (0, 1)), (b"/A/Two", (3, 4))];
    for (path, want) in paths {
        match route(&index, Method::Get, path) {
            Route::Fetch(c, b) => assert_eq!((c, b), want),
            Route::Respond(rep) => panic!("unexpected reply {}", rep.status),
        }
    }
}

#[test]
fn repeated_request_gives_same_route_and_body() {
    let index = hello_index();
    for _ in 0..2 {
        match route(&index, Method::Get, b"/A/Hello") {
            Route::Fetch(c, b) => assert_eq!((c, b), (2, 0)),
            Route::Respond(rep) => panic!("unexpected reply {}", rep.status),
        }
    }
    let a = reply_for_blob(Some(b"Hi!".to_vec()));
    let b = reply_for_blob(Some(b"Hi!".to_vec()));
    assert_eq!(a.body, b.body);
}

#[test]
fn first_of_equal_urls_wins() {
    let index = Index {
        entries: vec![entry("A/X", Target::Blob(1, 1)), entry("A/X", Target::Blob(9, 9))],
    };
    assert_eq!(index.find(b"/A/X"), Some(0));
    assert_eq!(index.resolve(b"/A/X"), Some((1, 1)));
}

#[test]
fn unreadable_positions_are_skipped() {
    let index = Index { entries: vec![None, entry("A/Y", Target::Blob(7, 8))] };
    assert_eq!(index.find(b"/A/Y"), Some(1));
    assert_eq!(index.find(b"/A/Z"), None);
}

#[test]
fn redirect_is_followed_to_content() {
    let index = Index {
        entries: vec![
            entry("A/Alias", Target::Redirect(2)),
            entry("A/Middle", Target::Redirect(0)),
            entry("A/Real", Target::Blob(4, 2)),
            entry("A/Twice", Target::Redirect(1)),
        ],
    };
    assert_eq!(index.resolve(b"/A/Alias"), Some((4, 2)));
    assert_eq!(index.resolve(b"/A/Middle"), Some((4, 2)));
    assert_eq!(index.resolve(b"/A/Twice"), Some((4, 2)));
    match route(&index, Method::Get, b"/A/Twice") {
        Route::Fetch(c, b) => assert_eq!((c, b), (4, 2)),
        Route::Respond(rep) => panic!("unexpected reply {}", rep.status),
    }
}

#[test]
fn redirect_cycle_is_not_found() {
    let index = Index {
        entries: vec![entry("A/Loop", Target::Redirect(1)), entry("A/Back", Target::Redirect(0))],
    };
    assert_eq!(index.resolve(b"/A/Loop"), None);
    assert_eq!(expect_reply(route(&index, Method::Get, b"/A/Loop")).status, 404);
}

#[test]
fn redirect_out_of_range_or_to_nothing_is_not_found() {
    let index = Index {
        entries: vec![
            entry("A/Far", Target::Redirect(99)),
            entry("A/Gone", Target::Nothing),
            entry("A/ToGone", Target::Redirect(1)),
            None,
            entry("A/ToUnread", Target::Redirect(3)),
        ],
    };
    assert_eq!(index.resolve(b"/A/Far"), None);
    assert_eq!(index.resolve(b"/A/Gone"), None);
    assert_eq!(index.resolve(b"/A/ToGone"), None);
    assert_eq!(index.resolve(b"/A/ToUnread"), None);
}

#[test]
fn chain_longer_than_hop_bound_is_not_found() {
    let hops = MAX_REDIRECT_HOPS as usize;
    // a chain of exactly the bound reaches its block; one more does not
    let mut entries = Vec::new();
    for k in 0..=hops {
        entries.push(entry(&format!("R/{}", k), Target::Redirect((k + 1) as u32)));
    }
    entries.push(entry("R/end", Target::Blob(3, 3)));
    let index = Index { entries };
    assert_eq!(index.follow_from(1), Some((3, 3)));
    assert_eq!(index.follow_from(0), None);
    assert_eq!(index.resolve(b"/R/1"), Some((3, 3)));
    assert_eq!(index.resolve(b"/R/0"), None);
}

#[test]
fn request_names_compares_whole_path() {
    let url = b"A/Hello".to_vec();
    assert!(request_names(&url, b"/A/Hello"));
    assert!(!request_names(&url, b"/A/Hellp"));
    assert!(!request_names(&url, b"xA/Hello"));
    assert!(request_names(&Vec::new(), b"/"));
    assert!(!request_names(&Vec::new(), b""));
}

#[test]
fn init_opens_every_level() {
    init();
    assert_eq!(log::max_level(), log::LevelFilter::Trace);
}
