use vstd::prelude::*;

verus! {

/// A copy of an optional text.
pub fn copy_opt(text: &Option<String>) -> (r: Option<String>)
    ensures
        r == *text,
{
    match text {
        Some(s) => Some(s.clone()),
        None => None,
    }
}

/// An owned copy of an optional borrowed text.
pub fn own_opt(text: Option<&str>) -> (r: Option<String>)
    ensures
        r.deep_view() == text.deep_view(),
{
    match text {
        Some(s) => Some(s.to_owned()),
        None => None,
    }
}

} // verus!
