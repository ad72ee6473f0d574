use vstd::prelude::*;
use crate::errors::SecretError;
use crate::json::{extract_secrets, spec_secrets};
use crate::render::{
    lemma_content_reads_back, render_exports, spec_entry_views, spec_export_content,
    spec_kept_entries, spec_line_body, spec_lines_of, spec_newline_free,
};

verus! {

/// What running the backend command produced: either it could not be
/// launched at all, or it ran to completion with an exit status and its
/// captured output streams.
pub enum BackendOutcome {
    NotLaunched,
    Finished { success: bool, stdout: String, stderr: String },
}

/// The arguments the backend command is invoked with: secrets in JSON
/// form, scoped to the given project and environment.
pub fn backend_args(project: &str, environment: &str) -> (r: Vec<String>)
    ensures
        r@.len() == 6,
        r@[0]@ == "--project"@,
        r@[1]@ == project@,
        r@[2]@ == "--json"@,
        r@[3]@ == "secrets"@,
        r@[4]@ == "--config"@,
        r@[5]@ == environment@,
{
    let mut v: Vec<String> = Vec::new();
    v.push("--project".to_owned());
    v.push(project.to_owned());
    v.push("--json".to_owned());
    v.push("secrets".to_owned());
    v.push("--config".to_owned());
    v.push(environment.to_owned());
    v
}

/// The cache content owed for a backend response, when the response is a
/// JSON object of secrets: the rendered export lines of its kept entries.
pub open spec fn spec_fetch_content(stdout: Seq<char>) -> Option<Seq<char>> {
    match spec_secrets(stdout, "computed"@) {
        Option::Some(es) => Option::Some(spec_export_content(es)),
        Option::None => Option::None,
    }
}

/// Turns the backend command's outcome into the cache file's new content.
/// A command that could not be launched is an `InvocationError`; a command
/// that ran and failed is a `BackendError` carrying its diagnostic output;
/// a response that is not a JSON object of secrets is a `ParseError`; and
/// a well-shaped response yields exactly the rendered export lines.
pub fn fetch_content(outcome: &BackendOutcome) -> (r: Result<String, SecretError>)
    ensures
        outcome is NotLaunched ==> (r matches Err(e) && e is InvocationError),
        outcome is Finished && !outcome->success ==> (r matches Err(e)
            && e matches SecretError::BackendError(m) && m@ == outcome->stderr@),
        outcome is Finished && outcome->success ==> {
            &&& r is Ok <==> spec_fetch_content(outcome->stdout@) is Some
            &&& (r matches Ok(c) ==> Option::Some(c@) == spec_fetch_content(outcome->stdout@))
            &&& (r matches Err(e) ==> e is ParseError)
        },
{
    match outcome {
        BackendOutcome::NotLaunched => Err(SecretError::InvocationError),
        BackendOutcome::Finished { success, stdout, stderr } => {
            if !*success {
                Err(SecretError::BackendError(stderr.clone()))
            } else {
                match extract_secrets(stdout.as_str()) {
                    Ok(entries) => Ok(render_exports(&entries)),
                    Err(e) => Err(e),
                }
            }
        },
    }
}

/// For every backend response that parses to a map of secrets none of
/// whose keys or values contains a newline, the cache content a
/// successful fetch writes reads back as exactly one export line, in
/// order, per secret whose key does not carry the reserved prefix, and as
/// no line at all for the keys that do.
pub proof fn lemma_fetched_content_reads_back(stdout: Seq<char>)
    requires
        spec_secrets(stdout, "computed"@) is Some,
        forall|i: int|
            0 <= i < spec_secrets(stdout, "computed"@)->0.len() ==> spec_newline_free(
                (#[trigger] spec_secrets(stdout, "computed"@)->0[i]).0,
            ),
        forall|i: int|
            0 <= i < spec_secrets(stdout, "computed"@)->0.len() ==> spec_newline_free(
                (#[trigger] spec_secrets(stdout, "computed"@)->0[i]).1,
            ),
    ensures
        spec_fetch_content(stdout) is Some,
        spec_lines_of(spec_fetch_content(stdout)->0) == spec_kept_entries(
            spec_secrets(stdout, "computed"@)->0,
        ).map_values(|e: (Seq<char>, Seq<char>)| spec_line_body(e.0, e.1)),
{
    lemma_content_reads_back(spec_secrets(stdout, "computed"@)->0);
}

} // verus!
