//! Listener capabilities: the type-level tags naming the shared background
//! event sources a module may depend on. At most one listener instance runs
//! per tag, however many modules declare the dependency.
use vstd::prelude::*;

verus! {

/// A capability tag for a shared, singleton background event source.
#[derive(Clone, Copy, PartialEq, Eq, Structural, Debug)]
pub enum Listener {
    /// The Hyprland IPC event socket.
    Hyprland,
    /// The Wayfire IPC event socket.
    Wayfire,
}

/// Whether a vector of tags holds `l`.
pub fn contains_listener(v: &Vec<Listener>, l: Listener) -> (r: bool)
    ensures
        r == v@.contains(l),
{
    let mut i: usize = 0;
    while i < v.len()
        invariant
            i <= v@.len(),
            forall|k: int| 0 <= k < i ==> v@[k] != l,
        decreases v@.len() - i,
    {
        if v[i] == l {
            return true;
        }
        i = i + 1;
    }
    false
}

} // verus!
