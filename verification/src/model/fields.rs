use vstd::prelude::*;

verus! {

/// The text of an optional text.
pub open spec fn opt_view(o: Option<String>) -> Option<Seq<char>> {
    match o {
        Some(s) => Some(s@),
        None => None,
    }
}

/// `new` where it is set, `old` elsewhere.
pub open spec fn pick<T>(old: T, new: Option<T>) -> T {
    match new {
        Some(v) => v,
        None => old,
    }
}

/// Writes `new` over `field` where it is set.
pub(crate) fn pick_field<T>(field: &mut T, new: Option<T>)
    ensures
        *final(field) == pick(*old(field), new),
{
    if let Some(v) = new {
        *field = v;
    }
}

} // verus!
