//! Identifiers of applications.
use vstd::prelude::*;

verus! {

/// Identifies an application for as long as the program runs.
#[derive(Debug, Clone, Copy, PartialEq, Eq, Hash, Structural)]
pub struct AppId(pub u64);

/// Hands out identifiers, each one greater than the one before.
#[derive(Debug)]
pub struct AppIds {
    next: u64,
}

impl View for AppIds {
    type V = u64;

    closed spec fn view(&self) -> u64 {
        self.next
    }
}

impl Default for AppIds {
    fn default() -> (r: Self)
        ensures
            r@ == 1,
    {
        AppIds { next: 1 }
    }
}

impl AppId {
    /// Takes the next identifier; behind the greatest one they start over.
    pub fn next(ids: &mut AppIds) -> (r: AppId)
        ensures
            r == AppId(old(ids)@),
            final(ids)@ == if old(ids)@ == u64::MAX {
                0
            } else {
                (old(ids)@ + 1) as u64
            },
    {
        let id = AppId(ids.next);
        ids.next = ids.next.wrapping_add(1);
        id
    }
}

/// The identifier that follows `n` others from `first` on, as long as they do not start over.
pub open spec fn nth_id(first: u64, n: nat) -> AppId {
    AppId((first + n) as u64)
}

/// Identifiers are not handed out twice before they start over.
pub proof fn law_ids_differ(first: u64, a: nat, b: nat)
    requires
        a != b,
        first + a <= u64::MAX,
        first + b <= u64::MAX,
    ensures
        nth_id(first, a) != nth_id(first, b),
{
}

} // verus!
