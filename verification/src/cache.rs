use vstd::prelude::*;

verus! {

/// The cache file's fixed name; the file lives under the process-wide
/// temp directory.
pub fn cache_file_name() -> (r: &'static str)
    ensures
        r@ == ".sec.key"@,
{
    ".sec.key"
}

/// The two-state validity rule for the cache file: valid exactly when it
/// exists on disk and is non-empty.
pub open spec fn spec_cache_valid(present: bool, len: u64) -> bool {
    present && len > 0
}

/// Decides whether the cache must be (re)populated before its path may be
/// handed out: a missing or empty cache file triggers a fetch.
pub fn needs_fetch(present: bool, len: u64) -> (r: bool)
    ensures
        r == !spec_cache_valid(present, len),
{
    !present || len == 0
}

/// How many backend fetches one call that serves the cached path performs,
/// given what it observes of the cache file: one when the file is missing
/// or empty, none otherwise.
pub open spec fn spec_get_fetch_count(present: bool, len: u64) -> nat {
    if spec_cache_valid(present, len) {
        0
    } else {
        1
    }
}

/// The cache file as one successful call that serves the cached path leaves
/// it: an invalid cache is rewritten with freshly fetched content of length
/// `written`, a valid one is returned untouched.
pub open spec fn spec_cache_after_get(present: bool, len: u64, written: u64) -> (bool, u64) {
    if spec_cache_valid(present, len) {
        (present, len)
    } else {
        (true, written)
    }
}

/// The cache file after clearing it: absent.
pub open spec fn spec_cache_after_clear() -> (bool, u64) {
    (false, 0)
}

/// The cache file as one fetch-and-cache attempt leaves it: rewritten with
/// content of length `written` when the whole fetch succeeded, and left
/// exactly as it was on any failure.
pub open spec fn spec_cache_after_fetch(
    present: bool,
    len: u64,
    fetched: bool,
    written: u64,
) -> (bool, u64) {
    if fetched {
        (true, written)
    } else {
        (present, len)
    }
}

/// Serving the cached path is idempotent: with an existing non-empty cache
/// file the call performs no fetch and leaves the file as it is, so a
/// second call performs no fetch either.
pub proof fn lemma_get_cached_idempotent(present: bool, len: u64, written: u64)
    requires
        spec_cache_valid(present, len),
    ensures
        spec_get_fetch_count(present, len) == 0,
        spec_cache_after_get(present, len, written) == ((present, len)),
        spec_get_fetch_count(
            spec_cache_after_get(present, len, written).0,
            spec_cache_after_get(present, len, written).1,
        ) == 0,
{
}

/// Clearing the cache and then serving the cached path always performs
/// exactly one fetch, whatever state the cache file was in before.
pub proof fn lemma_clear_then_get_fetches_once()
    ensures
        spec_get_fetch_count(spec_cache_after_clear().0, spec_cache_after_clear().1) == 1,
{
}

/// A failed fetch attempt never creates or modifies the cache file.
pub proof fn lemma_failed_fetch_leaves_cache(present: bool, len: u64, written: u64)
    ensures
        spec_cache_after_fetch(present, len, false, written) == ((present, len)),
{
}

} // verus!
