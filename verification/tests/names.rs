//! Which names of remotes and which refspecs are accepted.

use git_workflow_mcp::infra::git::remote::{validate_refspec, validate_remote_name};

#[test]
fn test_validate_remote_name_accept() {
    for name in &["origin", "upstream-1", "my.remote/sub"] {
        assert!(validate_remote_name(name).is_ok(), "should accept: {name}");
    }
}

#[test]
fn test_validate_remote_name_reject() {
    for name in &["a; rm -rf", "origin b", ""] {
        let result = validate_remote_name(name);
        assert!(result.is_err(), "should reject: {name:?}");
        let msg = format!("{:?}", result.unwrap_err());
        assert!(
            msg.contains("invalid remote name"),
            "error should mention 'invalid remote name': {msg}"
        );
    }
}

#[test]
fn test_validate_refspec_accept() {
    for spec in &["refs/heads/main", "+refs/heads/*:refs/remotes/origin/*"] {
        assert!(validate_refspec(spec).is_ok(), "should accept: {spec}");
    }
}

#[test]
fn test_validate_refspec_reject() {
    for spec in &["refs; echo", ""] {
        let result = validate_refspec(spec);
        assert!(result.is_err(), "should reject: {spec:?}");
        let msg = format!("{:?}", result.unwrap_err());
        assert!(
            msg.contains("invalid refspec"),
            "error should mention 'invalid refspec': {msg}"
        );
    }
}
