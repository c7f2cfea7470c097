use loro_backend::config::{load_config, parse_port, Config, ConfigError, DEFAULT_PORT};
use loro_backend::error::{ErrorMessage, GatewayError, UpstreamFailure};
use loro_backend::handler::{respond_repo, respond_structure, tree_error_reply, RepoMetadata};
use loro_backend::text::{str_contains_ci, str_eq};
use loro_backend::tree::{Builder, Entry, Step, TreeError, TreeNode, MAX_DEPTH};

fn entry(name: &str, kind: &str) -> Entry {
    Entry { name: name.to_string(), kind: kind.to_string() }
}

#[test]
fn error_message_keeps_text() {
    let m = ErrorMessage::new("boom");
    assert_eq!(m.error, "boom");
}

#[test]
fn repo_success_has_owner_and_name() {
    let meta = RepoMetadata {
        owner: "octo".to_string(),
        name: "hello-world".to_string(),
        description: Some("demo".to_string()),
    };
    let r = respond_repo(Ok(meta));
    assert_eq!(r.status, 200);
    assert_eq!(r.body, "{\"owner\":\"octo\",\"name\":\"hello-world\",\"description\":\"demo\"}");
    assert!(r.body.contains("\"owner\":\"octo\""));
    assert!(r.body.contains("\"name\":\"hello-world\""));
}

#[test]
fn repo_success_without_description() {
    let meta = RepoMetadata {
        owner: "a".to_string(),
        name: "b".to_string(),
        description: None,
    };
    let r = respond_repo(Ok(meta));
    assert_eq!(r.status, 200);
    assert_eq!(r.body, "{\"owner\":\"a\",\"name\":\"b\",\"description\":null}");
}

#[test]
fn not_found_maps_to_404() {
    let f = UpstreamFailure::Structured {
        status: 404,
        message: "Repository not found".to_string(),
    };
    let r = respond_repo(Err(f));
    assert_eq!(r.status, 404);
    assert_eq!(r.body, "{\"error\":\"Repository not found\"}");
}

#[test]
fn not_found_detection_ignores_case() {
    let f = UpstreamFailure::Structured { status: 404, message: "Not Found".to_string() };
    let r = respond_repo(Err(f));
    assert_eq!(r.status, 404);
    assert_eq!(r.body, "{\"error\":\"Not Found\"}");
}

#[test]
fn rate_limit_maps_to_429() {
    let f = UpstreamFailure::Structured {
        status: 403,
        message: "API rate limit exceeded for 127.0.0.1".to_string(),
    };
    let r = respond_repo(Err(f));
    assert_eq!(r.status, 429);
}

#[test]
fn abuse_detection_maps_to_429() {
    let f = UpstreamFailure::Structured {
        status: 403,
        message: "You have triggered an abuse detection mechanism".to_string(),
    };
    let r = respond_repo(Err(f));
    assert_eq!(r.status, 429);
}

#[test]
fn structured_error_passes_through_status_and_message() {
    let f = UpstreamFailure::Structured {
        status: 503,
        message: "service unavailable".to_string(),
    };
    let r = respond_repo(Err(f));
    assert_eq!(r.status, 503);
    assert_eq!(r.body, "{\"error\":\"service unavailable\"}");
}

#[test]
fn transport_failure_maps_to_500_generic() {
    let r = respond_repo(Err(UpstreamFailure::Transport));
    assert_eq!(r.status, 500);
    assert_eq!(r.body, "{\"error\":\"Internal server error\"}");
}

#[test]
fn translate_produces_matching_variants() {
    let e = loro_backend::error::translate(UpstreamFailure::Structured {
        status: 500,
        message: "kaboom".to_string(),
    });
    assert_eq!(e.status_code(), 500);
    assert_eq!(e.message(), "kaboom");
    assert!(matches!(e, GatewayError::Upstream { .. }));
}

#[test]
fn message_escaping_in_error_body() {
    let f = UpstreamFailure::Structured {
        status: 502,
        message: "he\"llo\\world\nend".to_string(),
    };
    let r = respond_repo(Err(f));
    assert_eq!(r.status, 502);
    assert_eq!(r.body, "{\"error\":\"he\\\"llo\\\\world\\u000aend\"}");
}

#[test]
fn nested_tree_preserves_listing_order() {
    let (b, root_path) = Builder::new();
    assert!(root_path.is_empty());
    let step = b.deliver(vec![entry("a", "dir")]);
    let (b, path) = match step {
        Step::Fetch { builder, path } => (builder, path),
        _ => panic!("expected a fetch of the first directory"),
    };
    assert_eq!(path, vec!["a".to_string()]);
    let step = b.deliver(vec![entry("b.txt", "file"), entry("c", "dir")]);
    let (b, path) = match step {
        Step::Fetch { builder, path } => (builder, path),
        _ => panic!("expected a fetch of the nested directory"),
    };
    assert_eq!(path, vec!["a".to_string(), "c".to_string()]);
    let step = b.deliver(vec![entry("d.txt", "file")]);
    let nodes = match step {
        Step::Done { nodes } => nodes,
        _ => panic!("expected the finished tree"),
    };
    let r = respond_structure(Ok(nodes));
    assert_eq!(r.status, 200);
    assert_eq!(
        r.body,
        "[{\"type\":\"directory\",\"name\":\"a\",\"children\":[\
         {\"type\":\"file\",\"name\":\"b.txt\"},\
         {\"type\":\"directory\",\"name\":\"c\",\"children\":[\
         {\"type\":\"file\",\"name\":\"d.txt\"}]}]}]"
    );
}

#[test]
fn empty_repository_gives_empty_array() {
    let (b, _) = Builder::new();
    let step = b.deliver(Vec::new());
    let nodes = match step {
        Step::Done { nodes } => nodes,
        _ => panic!("expected the finished tree"),
    };
    let r = respond_structure(Ok(nodes));
    assert_eq!(r.status, 200);
    assert_eq!(r.body, "[]");
}

#[test]
fn files_only_listing_keeps_order() {
    let (b, _) = Builder::new();
    let step = b.deliver(vec![entry("z.txt", "file"), entry("a.txt", "file")]);
    let nodes = match step {
        Step::Done { nodes } => nodes,
        _ => panic!("expected the finished tree"),
    };
    match (&nodes[0], &nodes[1]) {
        (TreeNode::File { name: n0 }, TreeNode::File { name: n1 }) => {
            assert_eq!(n0, "z.txt");
            assert_eq!(n1, "a.txt");
        },
        _ => panic!("expected two files"),
    }
}

#[test]
fn unknown_entry_kind_fails_assembly() {
    let (b, _) = Builder::new();
    let step = b.deliver(vec![entry("x", "symlink")]);
    let err = match step {
        Step::Fail { err } => err,
        _ => panic!("expected a failure"),
    };
    assert_eq!(err, TreeError::UnknownEntryKind);
    let r = tree_error_reply(err);
    assert_eq!(r.status, 500);
    assert_eq!(r.body, "{\"error\":\"Internal server error: Unknown item type\"}");
}

#[test]
fn structure_upstream_failure_short_circuits_to_error_reply() {
    let f = UpstreamFailure::Structured { status: 404, message: "Not Found".to_string() };
    let r = respond_structure(Err(f));
    assert_eq!(r.status, 404);
    assert_eq!(r.body, "{\"error\":\"Not Found\"}");
}

#[test]
fn nesting_past_the_limit_fails() {
    let (mut b, _) = Builder::new();
    let mut depth: usize = 0;
    loop {
        let step = b.deliver(vec![entry("d", "dir")]);
        depth += 1;
        match step {
            Step::Fetch { builder, .. } => {
                b = builder;
                assert!(depth < MAX_DEPTH, "traversal descended past the limit");
            },
            Step::Fail { err } => {
                assert_eq!(err, TreeError::DepthExceeded);
                assert_eq!(depth, MAX_DEPTH);
                return;
            },
            Step::Done { .. } => panic!("tree cannot finish while every listing nests deeper"),
        }
    }
}

#[test]
fn contains_ci_finds_mixed_case() {
    assert!(str_contains_ci("API Rate Limit Exceeded", "rate limit"));
    assert!(str_contains_ci("NOT FOUND", "not found"));
    assert!(!str_contains_ci("nothing here", "not found"));
    assert!(str_contains_ci("abc", ""));
    assert!(!str_contains_ci("ab", "abc"));
}

#[test]
fn str_eq_compares_exactly() {
    assert!(str_eq("dir", "dir"));
    assert!(!str_eq("dir", "Dir"));
    assert!(!str_eq("dir", "dirs"));
}

#[test]
fn parse_port_accepts_valid_numbers() {
    assert_eq!(parse_port("3002"), Some(3002));
    assert_eq!(parse_port("0"), Some(0));
    assert_eq!(parse_port("65535"), Some(65535));
    assert_eq!(parse_port("007"), Some(7));
}

#[test]
fn parse_port_rejects_invalid_text() {
    assert_eq!(parse_port(""), None);
    assert_eq!(parse_port("65536"), None);
    assert_eq!(parse_port("12a"), None);
    assert_eq!(parse_port("-1"), None);
    assert_eq!(parse_port("port"), None);
}

#[test]
fn missing_credential_is_fatal() {
    let r = load_config(None, Some("3002".to_string()));
    assert_eq!(r.err(), Some(ConfigError::MissingCredential));
}

#[test]
fn config_defaults_the_port() {
    let c: Config = load_config(Some("tok".to_string()), None).ok().expect("config");
    assert_eq!(c.token, "tok");
    assert_eq!(c.port, DEFAULT_PORT);
    assert_eq!(c.port, 3002);
}

#[test]
fn config_uses_a_valid_port() {
    let c: Config = load_config(Some("tok".to_string()), Some("8080".to_string()))
        .ok()
        .expect("config");
    assert_eq!(c.port, 8080);
}

#[test]
fn config_rejects_a_bad_port() {
    let r = load_config(Some("tok".to_string()), Some("no".to_string()));
    assert_eq!(r.err(), Some(ConfigError::InvalidPort));
}
