//! Unified diff of two texts, computed by the `similar` crate behind a
//! named result.

use vstd::prelude::*;

verus! {

/// What the diff engine produces for two texts and a context radius.
pub uninterp spec fn unified_diff_of(original: Seq<char>, modified: Seq<char>, context: int) -> Seq<
    char,
>;

/// Relies on similar's TextDiff (from_lines, unified_diff,
/// context_radius, header): the unified diff of the two texts with the
/// given context radius under "a"/"b" headers. The result depends on
/// the inputs alone, and equal texts yield no hunks, hence no output.
#[verifier::external_body]
pub fn unified_diff(original: &str, modified: &str, context: usize) -> (r: String)
    ensures
        r@ == unified_diff_of(original@, modified@, context as int),
        original@ == modified@ ==> r@ =~= Seq::<char>::empty(),
{
    similar::TextDiff::from_lines(original, modified)
        .unified_diff()
        .context_radius(context)
        .header("a", "b")
        .to_string()
}

/// The context radius a request gets: the given number of lines,
/// three when none was given, and never more than two hundred.
pub open spec fn clamp_context_spec(context_lines: Option<usize>) -> int {
    match context_lines {
        Some(n) => {
            if n > 200 {
                200
            } else {
                n as int
            }
        },
        None => 3,
    }
}

/// The unified diff with the request's context clamped to its bounds.
pub fn compute_unified_diff(original: &str, modified: &str, context_lines: Option<usize>) -> (r:
    Result<String, String>)
    ensures
        r matches Ok(d) ==> d@ == unified_diff_of(
            original@,
            modified@,
            clamp_context_spec(context_lines),
        ),
        r is Ok,
{
    let context: usize = match context_lines {
        Some(n) => {
            if n > 200 {
                200
            } else {
                n
            }
        },
        None => 3,
    };
    Ok(unified_diff(original, modified, context))
}

} // verus!
