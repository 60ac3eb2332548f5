use vstd::prelude::*;

verus! {

/// What one request filter decides: go on to the next filter, answer at once with a
/// response, or change the response once it is made.
pub enum FilterAction<R, M> {
    Continue,
    Return(R),
    Modify(M),
}

/// What the filters decided together: answer at once with a response, or
/// apply these modifiers, in order, to the response once it is made.
pub enum PreroutingResolution<R, M> {
    Return(R),
    Modify(Vec<M>),
}

impl<R, M> FilterAction<R, M> {
    /// Takes one filter's decision into the evaluation of the filters: a
    /// modifier joins the list, a response ends the evaluation with it, and
    /// going on changes nothing.
    pub fn absorb(self, modifiers: &mut Vec<M>) -> (r: Option<R>)
        ensures
            match self {
                FilterAction::Continue => r is None && final(modifiers)@ == old(modifiers)@,
                FilterAction::Return(x) => r == Some(x) && final(modifiers)@ == old(modifiers)@,
                FilterAction::Modify(m) => r is None && final(modifiers)@ == old(modifiers)@.push(
                    m,
                ),
            },
    {
        match self {
            FilterAction::Continue => None,
            FilterAction::Return(x) => Some(x),
            FilterAction::Modify(m) => {
                modifiers.push(m);
                None
            },
        }
    }
}

} // verus!
