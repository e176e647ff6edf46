use audioserve::services::{
    add_cors_headers, pre_auth, process_checked, short_response, ErrorResponse,
    HttpResponse, PreAuthDecision, RouteDecision, StaticFile,
    APP_STATIC_FILES_CACHE_AGE, FOLDER_INFO_FILES_CACHE_AGE,
};
use audioserve::range::ByteRange;
use audioserve::transcode::QualityLevel;

#[test]
fn overloaded_pool_refuses_every_request() {
    // queue over the limit: refused whatever the path
    assert_eq!(pre_auth(11, 10, b"/"), PreAuthDecision::Overloaded);
    assert_eq!(pre_auth(11, 10, b"/audio/song.mp3"), PreAuthDecision::Overloaded);
    assert_eq!(
        ErrorResponse::Overloaded.status_code(),
        503
    );
    assert_eq!(ErrorResponse::Overloaded.message(), "Overloaded, try later");
    // at the limit: admitted
    assert_eq!(pre_auth(10, 10, b"/x"), PreAuthDecision::Authenticate);
}

#[test]
fn static_shell_paths_bypass_auth() {
    assert_eq!(
        pre_auth(0, 10, b"/"),
        PreAuthDecision::ServeStatic(StaticFile::Index)
    );
    assert_eq!(
        pre_auth(0, 10, b"/bundle.js"),
        PreAuthDecision::ServeStatic(StaticFile::Bundle)
    );
    assert_eq!(APP_STATIC_FILES_CACHE_AGE, 30 * 24 * 3600);
    assert_eq!(FOLDER_INFO_FILES_CACHE_AGE, 24 * 3600);
}

#[test]
fn non_get_method_is_refused() {
    let r = process_checked(b"POST", b"/audio/a.mp3", None, None, 3);
    assert_eq!(r, RouteDecision::Error(ErrorResponse::MethodNotSupported));
    assert_eq!(ErrorResponse::MethodNotSupported.status_code(), 405);
    assert_eq!(ErrorResponse::MethodNotSupported.message(), "Method not supported");
}

#[test]
fn audio_with_collection_and_range() {
    // three collections configured; index 2 picked, path stripped, range kept
    let r = process_checked(b"GET", b"/2/audio/song.mp3", None, Some(b"bytes=0-99"), 3);
    assert_eq!(
        r,
        RouteDecision::SendAudio {
            collection: 2,
            subpath: b"song.mp3".to_vec(),
            range: Some(ByteRange { start: 0, end: Some(99) }),
            seek: None,
            quality: None,
        }
    );
}

#[test]
fn out_of_range_collection_is_not_found() {
    let r = process_checked(b"GET", b"/5/audio/song.mp3", None, None, 3);
    assert_eq!(r, RouteDecision::Error(ErrorResponse::NotFound));
    assert_eq!(ErrorResponse::NotFound.status_code(), 404);
    assert_eq!(ErrorResponse::NotFound.message(), "Not Found");
    // a huge written index overflows and is refused the same way
    let r = process_checked(b"GET", b"/99999999999999999999999/audio/a.mp3", None, None, 3);
    assert_eq!(r, RouteDecision::Error(ErrorResponse::NotFound));
}

#[test]
fn transcoding_request_with_seek() {
    let r = process_checked(
        b"GET",
        b"/audio/song.m4b",
        Some(b"trans=l&seek=30.5"),
        None,
        3,
    );
    match r {
        RouteDecision::SendAudio { collection, subpath, range, seek, quality } => {
            assert_eq!(collection, 0);
            assert_eq!(subpath, b"song.m4b".to_vec());
            assert_eq!(range, None);
            assert_eq!(quality, Some(QualityLevel::Low));
            let seek = seek.expect("seek parameter expected");
            assert_eq!(seek, b"30.5".to_vec());
            // the application layer reads the offset as floating-point seconds
            let secs: f32 = std::str::from_utf8(&seek).unwrap().parse().unwrap();
            assert_eq!(secs, 30.5);
        }
        other => panic!("wrong decision: {:?}", other),
    }
}

#[test]
fn unrecognized_quality_letter_means_no_transcoding() {
    let r = process_checked(b"GET", b"/audio/a.mp3", Some(b"trans=x"), None, 1);
    match r {
        RouteDecision::SendAudio { quality, .. } => assert_eq!(quality, None),
        other => panic!("wrong decision: {:?}", other),
    }
    let r = process_checked(b"GET", b"/audio/a.mp3", Some(b"trans=m"), None, 1);
    match r {
        RouteDecision::SendAudio { quality, .. } => {
            assert_eq!(quality, Some(QualityLevel::Medium))
        }
        other => panic!("wrong decision: {:?}", other),
    }
    let r = process_checked(b"GET", b"/audio/a.mp3", Some(b"trans=h"), None, 1);
    match r {
        RouteDecision::SendAudio { quality, .. } => {
            assert_eq!(quality, Some(QualityLevel::High))
        }
        other => panic!("wrong decision: {:?}", other),
    }
}

#[test]
fn percent_encoded_path_is_decoded() {
    let r = process_checked(b"GET", b"/audio/a%20b.mp3", None, None, 1);
    match r {
        RouteDecision::SendAudio { subpath, .. } => {
            assert_eq!(subpath, b"a b.mp3".to_vec())
        }
        other => panic!("wrong decision: {:?}", other),
    }
}

#[test]
fn last_query_parameter_wins() {
    let r = process_checked(b"GET", b"/audio/a.mp3", Some(b"seek=1&seek=2"), None, 1);
    match r {
        RouteDecision::SendAudio { seek, .. } => assert_eq!(seek, Some(b"2".to_vec())),
        other => panic!("wrong decision: {:?}", other),
    }
}

#[test]
fn info_routes_resolve_after_collection_prefix() {
    assert_eq!(
        process_checked(b"GET", b"/collections", None, None, 3),
        RouteDecision::CollectionsList
    );
    assert_eq!(
        process_checked(b"GET", b"/transcodings", None, None, 3),
        RouteDecision::TranscodingsList
    );
    // a collection prefix is stripped before the info routes are matched
    assert_eq!(
        process_checked(b"GET", b"/2/collections", None, None, 3),
        RouteDecision::CollectionsList
    );
    assert_eq!(
        process_checked(b"GET", b"/1/transcodings", None, None, 3),
        RouteDecision::TranscodingsList
    );
    // but an out-of-range index is refused before any routing
    assert_eq!(
        process_checked(b"GET", b"/9/collections", None, None, 3),
        RouteDecision::Error(ErrorResponse::NotFound)
    );
}

#[test]
fn folder_cover_desc_and_unmatched_routes() {
    assert_eq!(
        process_checked(b"GET", b"/2/folder/books/x", None, None, 3),
        RouteDecision::Folder { collection: 2, subpath: b"books/x".to_vec() }
    );
    assert_eq!(
        process_checked(b"GET", b"/2/cover/a/cover.jpg", None, None, 3),
        RouteDecision::SendCover { collection: 2, subpath: b"a/cover.jpg".to_vec() }
    );
    assert_eq!(
        process_checked(b"GET", b"/desc/a/about.txt", None, None, 3),
        RouteDecision::SendDesc { collection: 0, subpath: b"a/about.txt".to_vec() }
    );
    assert_eq!(
        process_checked(b"GET", b"/nothing/here", None, None, 3),
        RouteDecision::Error(ErrorResponse::NotFound)
    );
}

#[test]
fn search_requires_query_parameter() {
    assert_eq!(
        process_checked(b"GET", b"/1/search", Some(b"q=deep%20space"), None, 3),
        RouteDecision::Search { collection: 1, query: b"deep space".to_vec() }
    );
    assert_eq!(
        process_checked(b"GET", b"/search", None, None, 3),
        RouteDecision::Error(ErrorResponse::NotFound)
    );
    assert_eq!(
        process_checked(b"GET", b"/search", Some(b"other=1"), None, 3),
        RouteDecision::Error(ErrorResponse::NotFound)
    );
    // plus decodes to a space in query values
    assert_eq!(
        process_checked(b"GET", b"/search", Some(b"q=a+b"), None, 3),
        RouteDecision::Search { collection: 0, query: b"a b".to_vec() }
    );
}

#[test]
fn cors_headers_echo_origin_when_enabled() {
    let base = short_response(200, "ok");
    let with = add_cors_headers(base, Some(b"http://x".to_vec()), true);
    assert_eq!(with.allow_origin, Some(b"http://x".to_vec()));
    assert!(with.allow_credentials);

    // an error response gets the same treatment
    let err = short_response(404, "Not Found");
    let with_err = add_cors_headers(err, Some(b"http://x".to_vec()), true);
    assert_eq!(with_err.status, 404);
    assert_eq!(with_err.allow_origin, Some(b"http://x".to_vec()));
    assert!(with_err.allow_credentials);

    // disabled: untouched whatever the origin
    let none = add_cors_headers(
        short_response(200, "ok"),
        Some(b"http://x".to_vec()),
        false,
    );
    assert_eq!(none.allow_origin, None);
    assert!(!none.allow_credentials);

    // enabled but no origin header: untouched
    let none2 = add_cors_headers(short_response(200, "ok"), None, true);
    assert_eq!(none2.allow_origin, None);
    assert!(!none2.allow_credentials);
}

#[test]
fn short_response_holds_status_and_body() {
    let r: HttpResponse = short_response(503, "Overloaded, try later");
    assert_eq!(r.status, 503);
    assert_eq!(r.body, b"Overloaded, try later".to_vec());
    assert_eq!(r.content_type, None);
    assert_eq!(r.cache_age, None);
}

#[test]
fn malformed_percent_escapes_stay_literal() {
    // not a valid escape: kept as-is
    let r = process_checked(b"GET", b"/audio/a%zz.mp3", None, None, 1);
    match r {
        RouteDecision::SendAudio { subpath, .. } => {
            assert_eq!(subpath, b"a%zz.mp3".to_vec())
        }
        other => panic!("wrong decision: {:?}", other),
    }
}

#[test]
fn plus_is_not_a_space_in_paths() {
    // only form-encoded query values map plus to a space
    let r = process_checked(b"GET", b"/audio/a+b.mp3", None, None, 1);
    match r {
        RouteDecision::SendAudio { subpath, .. } => {
            assert_eq!(subpath, b"a+b.mp3".to_vec())
        }
        other => panic!("wrong decision: {:?}", other),
    }
}
