use nats_gateway::subject::create_subject;

#[test]
fn get_with_two_segments() {
    assert_eq!(create_subject("GET", "/users/42"), "get.users.42");
}

#[test]
fn method_case_is_ignored() {
    assert_eq!(create_subject("GET", "/a/b"), "get.a.b");
    assert_eq!(create_subject("get", "/a/b"), "get.a.b");
    assert_eq!(create_subject("gEt", "/a/b"), create_subject("GeT", "/a/b"));
}

#[test]
fn slashes_at_either_end_are_dropped() {
    assert_eq!(create_subject("POST", "/a/b"), "post.a.b");
    assert_eq!(create_subject("POST", "a/b/"), "post.a.b");
    assert_eq!(create_subject("POST", "a/b"), "post.a.b");
    assert_eq!(create_subject("POST", "///a/b//"), "post.a.b");
}

#[test]
fn root_route_is_the_method_alone() {
    assert_eq!(create_subject("DELETE", ""), "delete");
    assert_eq!(create_subject("DELETE", "/"), "delete");
    assert_eq!(create_subject("DELETE", "///"), "delete");
}

#[test]
fn inner_empty_segment_is_kept() {
    assert_eq!(create_subject("PUT", "a//b"), "put.a..b");
}

#[test]
fn letters_outside_ascii_are_kept() {
    assert_eq!(create_subject("GÉT", "/Users/É"), "gÉt.Users.É");
}

#[test]
fn different_requests_have_different_subjects() {
    let all = [
        ("GET", "/a/b"),
        ("GET", "/a"),
        ("GET", "/ab"),
        ("GET", ""),
        ("POST", "/a/b"),
        ("GETA", "/b"),
        ("GET", "/b/a"),
        ("GET", "/a//b"),
    ];
    for (i, (method_a, path_a)) in all.iter().enumerate() {
        for (method_b, path_b) in all.iter().skip(i + 1) {
            assert_ne!(create_subject(method_a, path_a), create_subject(method_b, path_b));
        }
    }
}
