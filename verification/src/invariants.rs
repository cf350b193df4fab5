//! Conditions that are checked while the program runs.
//!
//! A broken invariant stops the program, with a text that names the condition. A broken soft
//! invariant is reported, under a name that alerts can look for, and the program goes on: that
//! is for code whose task is to repair what it finds. What is decided and said here; the
//! program that uses the library stops or reports.
use vstd::prelude::*;

verus! {

/// What is said of the broken condition `cond`.
pub open spec fn violation(cond: Seq<char>, detail: Option<Seq<char>>) -> Seq<char> {
    match detail {
        Some(detail) => "invariant violated: "@ + cond + ": "@ + detail,
        None => "invariant violated: "@ + cond,
    }
}

/// The text with which to stop where an invariant does not hold: nothing where it does.
pub fn invariant_check(holds: bool, cond: &str, detail: Option<&str>) -> (res: Option<String>)
    ensures
        holds ==> res is None,
        !holds ==> res is Some && (res->0)@ == violation(cond@, detail.deep_view()),
{
    if holds {
        return None;
    }
    let mut text = String::from_str("invariant violated: ");
    text.append(cond);
    if let Some(detail) = detail {
        text.append(": ");
        text.append(detail);
    }
    Some(text)
}

/// The report on a broken soft invariant.
#[derive(Clone, Debug, PartialEq, Eq)]
pub struct SoftViolation {
    /// The name of the condition, for alerts.
    pub name: String,
    pub message: String,
}

/// The report to make where a soft invariant does not hold: nothing where it does.
pub fn soft_invariant_check(holds: bool, name: &str, detail: &str) -> (res: Option<SoftViolation>)
    ensures
        holds ==> res is None,
        !holds ==> {
            &&& res is Some
            &&& res->0.name@ == name@
            &&& res->0.message@ == "soft-invariant violated: "@ + detail@
        },
{
    if holds {
        return None;
    }
    let mut message = String::from_str("soft-invariant violated: ");
    message.append(detail);
    Some(SoftViolation { name: name.to_owned(), message })
}

/// What is said of a broken condition names it, and ends with the detail, where there is one.
pub proof fn violations_name_the_condition(cond: Seq<char>, detail: Seq<char>)
    ensures
        cond.is_suffix_of(violation(cond, None)),
        detail.is_suffix_of(violation(cond, Some(detail))),
        violation(cond, None).is_prefix_of(violation(cond, Some(detail))),
{
    let bare = violation(cond, None);
    let full = violation(cond, Some(detail));
    assert(bare.subrange(bare.len() - cond.len(), bare.len() as int) =~= cond);
    assert(full.subrange(full.len() - detail.len(), full.len() as int) =~= detail);
    assert(full.subrange(0, bare.len() as int) =~= bare);
}

} // verus!
