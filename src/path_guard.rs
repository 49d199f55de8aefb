//! A guard that has a named socket's file removed when the socket goes away.
use vstd::prelude::*;

verus! {

/// The path of a socket file and whether it is to be removed when its socket is dropped.
#[derive(Debug)]
pub struct PathDropGuard {
    path: Option<String>,
    enabled: bool,
}

impl PathDropGuard {
    /// The path held, if any.
    pub closed spec fn path_spec(&self) -> Option<Seq<char>> {
        match self.path {
            Some(p) => Some(p@),
            None => None,
        }
    }

    /// Whether removal is still pending.
    pub closed spec fn enabled_spec(&self) -> bool {
        self.enabled
    }

    /// A guard that removes nothing, for unnamed or non-persistent bindings.
    pub fn dummy() -> (r: Self)
        ensures
            r.path_spec() is None,
            !r.enabled_spec(),
    {
        PathDropGuard { path: None, enabled: false }
    }

    /// A guard that removes `path` once.
    pub fn new(path: String) -> (r: Self)
        ensures
            r.path_spec() == Some(path@),
            r.enabled_spec(),
    {
        PathDropGuard { path: Some(path), enabled: true }
    }

    /// Whether removal is still pending.
    pub fn is_enabled(&self) -> (r: bool)
        ensures
            r == self.enabled_spec(),
    {
        self.enabled
    }

    /// The path to remove now, if removal is pending; the guard is disabled, so that the path
    /// is handed out at most once. A failure to remove it is no error.
    pub fn take_removal(&mut self) -> (r: Option<String>)
        ensures
            !final(self).enabled_spec(),
            final(self).path_spec() == old(self).path_spec(),
            r is Some <==> old(self).enabled_spec() && old(self).path_spec() is Some,
            r matches Some(p) ==> old(self).path_spec() == Some(p@),
    {
        let was_enabled = self.enabled;
        self.enabled = false;
        if was_enabled {
            match &self.path {
                Some(p) => Some(p.clone()),
                None => None,
            }
        } else {
            None
        }
    }
}

} // verus!
