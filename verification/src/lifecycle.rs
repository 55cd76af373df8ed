//! The session lifecycle manager.
//!
//! Before any sandbox resource is touched, the requested program variant
//! is validated against the supported set and mapped to the binary the
//! sandbox must exec; an unsupported variant is a fatal, non-retryable
//! error and allocates nothing. Each session also receives a
//! human-readable name, two words drawn from fixed lists, so concurrently
//! active sandboxes never need to share an identifier scheme.

use vstd::prelude::*;
use vstd::string::*;

verus! {

/// Why a session could not be prepared.
#[derive(Clone, Copy, PartialEq, Eq, Structural, Debug)]
pub enum LifecycleError {
    /// The requested program variant is not one of the supported set.
    UnsupportedVariant,
}

/// Everything the lifecycle manager decides before the sandbox starts.
pub struct LaunchPlan {
    /// Name of the program binary that the sandbox must exec.
    pub binary: String,
    /// Human-readable name for the session and its sandbox.
    pub session_name: String,
}

/// The first word list of the session name generator.
pub open spec fn first_word_spec(i: int) -> Seq<char> {
    if i == 0 {
        "amber"@
    } else if i == 1 {
        "brisk"@
    } else if i == 2 {
        "cedar"@
    } else {
        "dusky"@
    }
}

/// The second word list of the session name generator.
pub open spec fn second_word_spec(i: int) -> Seq<char> {
    if i == 0 {
        "falcon"@
    } else if i == 1 {
        "harbor"@
    } else if i == 2 {
        "maple"@
    } else {
        "otter"@
    }
}

/// The session name drawn for the two given draws: one word of each
/// list, joined by a dash.
pub open spec fn session_name_spec(a: int, b: int) -> Seq<char> {
    first_word_spec(a % 4) + "-"@ + second_word_spec(b % 4)
}

fn first_word(i: usize) -> (w: &'static str)
    ensures
        w@ == first_word_spec(i as int % 4),
{
    let k = i % 4;
    if k == 0 {
        "amber"
    } else if k == 1 {
        "brisk"
    } else if k == 2 {
        "cedar"
    } else {
        "dusky"
    }
}

fn second_word(i: usize) -> (w: &'static str)
    ensures
        w@ == second_word_spec(i as int % 4),
{
    let k = i % 4;
    if k == 0 {
        "falcon"
    } else if k == 1 {
        "harbor"
    } else if k == 2 {
        "maple"
    } else {
        "otter"
    }
}

/// Build the session name for two draws; the draws themselves come from
/// whatever entropy the caller has.
pub fn session_name(a: usize, b: usize) -> (r: String)
    ensures
        r@ == session_name_spec(a as int, b as int),
{
    let mut s = first_word(a).to_owned();
    s.append("-");
    s.append(second_word(b));
    s
}

/// Map a requested program variant to the binary the sandbox must exec:
/// exactly "release" and "master" are supported.
pub fn variant_binary(variant: &str) -> (r: Option<&'static str>)
    ensures
        variant@ == "release"@ ==> (r matches Some(b) && b@ == "helix"@),
        variant@ == "master"@ ==> (r matches Some(b) && b@ == "hx"@),
        variant@ != "release"@ && variant@ != "master"@ ==> r is None,
{
    proof {
        reveal_strlit("release");
        reveal_strlit("master");
        assert("release"@ != "master"@) by {
            assert("release"@.len() == 7);
            assert("master"@.len() == 6);
        }
    }
    let v = variant.to_owned();
    if v == String::from_str("release") {
        Some("helix")
    } else if v == String::from_str("master") {
        Some("hx")
    } else {
        None
    }
}

/// Validate the requested variant and name the session — everything that
/// must be decided before any sandbox resource is allocated. An
/// unsupported variant yields an error and no plan, so nothing is ever
/// launched, and nothing has to be cleaned up, for a request that is
/// rejected.
pub fn prepare_launch(variant: &str, draw_a: usize, draw_b: usize) -> (r: Result<
    LaunchPlan,
    LifecycleError,
>)
    ensures
        variant@ == "release"@ || variant@ == "master"@ ==> (r matches Ok(plan)
            && plan.session_name@ == session_name_spec(draw_a as int, draw_b as int) && (variant@
            == "release"@ ==> plan.binary@ == "helix"@) && (variant@ == "master"@
            ==> plan.binary@ == "hx"@)),
        variant@ != "release"@ && variant@ != "master"@ ==> r == Result::<
            LaunchPlan,
            LifecycleError,
        >::Err(LifecycleError::UnsupportedVariant),
{
    match variant_binary(variant) {
        Some(bin) => Ok(
            LaunchPlan { binary: bin.to_owned(), session_name: session_name(draw_a, draw_b) },
        ),
        None => Err(LifecycleError::UnsupportedVariant),
    }
}

} // verus!
