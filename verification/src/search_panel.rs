//! State of the object-search overlay: whether it is open, the live query
//! text, and the committed target the sky-view finder points at.

use vstd::prelude::*;

use crate::search::{SearchTarget, TargetView};

verus! {

/// State the search overlay reads and writes. `has_target` mirrors whether
/// a target is committed (locked mode) and `no_target` is always its
/// inverse; the overlay's two modes are driven by these flags.
#[derive(Debug)]
pub struct SearchState<K> {
    /// Whether the overlay is shown at all.
    pub active: bool,
    /// `true` once a target is committed (locked mode). Mirrors `target`.
    pub has_target: bool,
    /// Always the inverse of `has_target`; drives the input mode.
    pub no_target: bool,
    /// Live text-field contents.
    pub query: String,
    /// The committed target the sky-view finder points at.
    pub target: Option<SearchTarget<K>>,
}

/// View of an optional target.
pub open spec fn target_view<K>(t: Option<SearchTarget<K>>) -> Option<TargetView<K>> {
    match t {
        Some(t) => Some(t@),
        None => None,
    }
}

impl<K> SearchState<K> {
    /// The mode flags agree with the committed target.
    pub open spec fn wf(&self) -> bool {
        &&& self.has_target == (self.target is Some)
        &&& self.no_target == !self.has_target
    }

    /// A closed overlay with no target and an empty query.
    pub fn new() -> (s: Self)
        ensures
            s.wf(),
            !s.active,
            s.target is None,
            s.query@ == Seq::<char>::empty(),
    {
        SearchState {
            active: false,
            has_target: false,
            no_target: true,
            query: String::new(),
            target: None,
        }
    }

    /// Commit a chosen target (enter locked mode); the query is cleared and
    /// the overlay stays as open as it was.
    pub fn select(&mut self, target: SearchTarget<K>)
        ensures
            final(self).wf(),
            target_view(final(self).target) == Some(target@),
            final(self).has_target,
            !final(self).no_target,
            final(self).query@ == Seq::<char>::empty(),
            final(self).active == old(self).active,
    {
        self.target = Some(target);
        self.has_target = true;
        self.no_target = false;
        self.query = String::new();
    }

    /// Drop the current target (back to input mode), keeping the overlay
    /// open so the user can search again; the query is cleared.
    pub fn clear_target(&mut self)
        ensures
            final(self).wf(),
            final(self).target is None,
            !final(self).has_target,
            final(self).no_target,
            final(self).query@ == Seq::<char>::empty(),
            final(self).active == old(self).active,
    {
        self.target = None;
        self.has_target = false;
        self.no_target = true;
        self.query = String::new();
    }

    /// Text of the locked-mode banner: `Looking for: <name>` while a target
    /// is committed, empty otherwise.
    pub fn looking_for_text(&self) -> (r: String)
        ensures
            r@ == match self.target {
                Some(t) => "Looking for: "@ + t.name@,
                None => Seq::<char>::empty(),
            },
    {
        match &self.target {
            Some(t) => {
                let mut r = String::from_str("Looking for: ");
                r.append(t.name.as_str());
                r
            },
            None => String::new(),
        }
    }

    /// Close the overlay entirely and reset all search state.
    pub fn close(&mut self)
        ensures
            final(self).wf(),
            !final(self).active,
            final(self).target is None,
            final(self).query@ == Seq::<char>::empty(),
    {
        self.active = false;
        self.clear_target();
    }
}

} // verus!
