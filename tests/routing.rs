use file_transfer::routing::{route, Method, Route};

#[test]
fn routes_the_four_operations() {
    assert_eq!(route(Method::Delete, "/datafile.txt"), Route::Delete("datafile.txt".to_string()));
    assert_eq!(route(Method::Get, "/datafile.txt"), Route::Download("datafile.txt".to_string()));
    assert_eq!(
        route(Method::Put, "/datafile.txt"),
        Route::UploadSpecified("datafile.txt".to_string())
    );
    assert_eq!(route(Method::Post, "/data"), Route::UploadNew("data".to_string()));
}

#[test]
fn two_segments_are_invalid() {
    assert_eq!(route(Method::Get, "/a/b"), Route::Invalid);
    assert_eq!(route(Method::Post, "/a/b"), Route::Invalid);
}

#[test]
fn missing_segment_or_slash_is_invalid() {
    assert_eq!(route(Method::Get, "/"), Route::Invalid);
    assert_eq!(route(Method::Get, ""), Route::Invalid);
    assert_eq!(route(Method::Get, "datafile.txt"), Route::Invalid);
    assert_eq!(route(Method::Delete, "/.."), Route::Invalid);
}

#[test]
fn other_methods_are_invalid() {
    assert_eq!(route(Method::Other, "/datafile.txt"), Route::Invalid);
}
