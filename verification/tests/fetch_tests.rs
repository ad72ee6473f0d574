use secret_cache::backend::{backend_args, fetch_content, BackendOutcome};
use secret_cache::errors::SecretError;
use secret_cache::json::extract_secrets;

fn finished(success: bool, stdout: &str, stderr: &str) -> BackendOutcome {
    BackendOutcome::Finished {
        success,
        stdout: stdout.to_string(),
        stderr: stderr.to_string(),
    }
}

#[test]
fn reserved_keys_are_filtered_out() {
    let outcome = finished(
        true,
        "{\"DOPPLER_PROJECT\":{\"computed\":\"x\"},\"API_KEY\":{\"computed\":\"s3cr3t\"}}",
        "",
    );
    let content = fetch_content(&outcome).unwrap();
    assert_eq!(content, "export API_KEY='s3cr3t'\n");
}

#[test]
fn backend_failure_carries_its_diagnostic() {
    let outcome = finished(false, "", "unauthorized");
    let err = fetch_content(&outcome).unwrap_err();
    assert!(matches!(err, SecretError::BackendError(m) if m == "unauthorized"));
}

#[test]
fn non_json_response_is_a_parse_error() {
    let outcome = finished(true, "oops", "");
    let err = fetch_content(&outcome).unwrap_err();
    assert!(matches!(err, SecretError::ParseError));
}

#[test]
fn unlaunchable_backend_is_an_invocation_error() {
    let err = fetch_content(&BackendOutcome::NotLaunched).unwrap_err();
    assert!(matches!(err, SecretError::InvocationError));
}

#[test]
fn empty_object_yields_empty_content() {
    let content = fetch_content(&finished(true, "{}", "")).unwrap();
    assert_eq!(content, "");
}

#[test]
fn several_secrets_render_one_line_each() {
    let outcome = finished(
        true,
        "{\"B_KEY\":{\"computed\":\"two\"},\"A_KEY\":{\"computed\":\"one\"},\"DOPPLER_ENV\":{\"computed\":\"dev\"}}",
        "",
    );
    let content = fetch_content(&outcome).unwrap();
    assert_eq!(content, "export A_KEY='one'\nexport B_KEY='two'\n");
}

#[test]
fn extract_secrets_reads_computed_fields() {
    let pairs =
        extract_secrets("{\"B\":{\"computed\":\"2\"},\"A\":{\"computed\":\"1\"}}").unwrap();
    assert_eq!(pairs.len(), 2);
    assert_eq!(pairs[0].0, "A");
    assert_eq!(pairs[0].1, "1");
    assert_eq!(pairs[1].0, "B");
    assert_eq!(pairs[1].1, "2");
}

#[test]
fn duplicate_json_keys_collapse_to_one_secret() {
    let pairs =
        extract_secrets("{\"A\":{\"computed\":\"1\"},\"A\":{\"computed\":\"2\"}}").unwrap();
    assert_eq!(pairs.len(), 1);
    assert_eq!(pairs[0].0, "A");
    assert_eq!(pairs[0].1, "2");
}

#[test]
fn quote_in_a_value_is_rendered_verbatim() {
    let content = fetch_content(&finished(true, "{\"K\":{\"computed\":\"a'b\"}}", "")).unwrap();
    assert_eq!(content, "export K='a'b'\n");
}

#[test]
fn entry_without_computed_field_is_a_parse_error() {
    let err = extract_secrets("{\"A\":{\"other\":\"x\"}}").unwrap_err();
    assert!(matches!(err, SecretError::ParseError));
}

#[test]
fn entry_with_non_string_computed_is_a_parse_error() {
    let err = extract_secrets("{\"A\":{\"computed\":5}}").unwrap_err();
    assert!(matches!(err, SecretError::ParseError));
}

#[test]
fn top_level_array_is_a_parse_error() {
    let err = extract_secrets("[1,2]").unwrap_err();
    assert!(matches!(err, SecretError::ParseError));
}

#[test]
fn backend_args_request_json_secrets_for_the_scope() {
    let args = backend_args("myproj", "prd");
    let expect = vec!["--project", "myproj", "--json", "secrets", "--config", "prd"];
    assert_eq!(args, expect);
}

#[test]
fn error_descriptions_name_each_failure() {
    assert_eq!(
        SecretError::InvocationError.describe(),
        "could not launch the secret backend command"
    );
    assert_eq!(
        SecretError::BackendError("denied".to_string()).describe(),
        "backend error: denied"
    );
    assert_eq!(
        SecretError::ParseError.describe(),
        "backend output was not a JSON object of secrets"
    );
    assert_eq!(SecretError::IoError.describe(), "could not access the cache file");
}
