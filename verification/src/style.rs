use vstd::prelude::*;

verus! {

/// The plain symbol marking a passed check; rendering (colour) is the
/// caller's concern.
pub fn green_check() -> (r: String)
    ensures
        r@ =~= seq!['\u{2713}'],
{
    proof {
        reveal_strlit("\u{2713}");
    }
    "\u{2713}".to_string()
}

/// The plain symbol marking a failed check; rendering (colour) is the
/// caller's concern.
pub fn red_cross() -> (r: String)
    ensures
        r@ =~= seq!['\u{2716}'],
{
    proof {
        reveal_strlit("\u{2716}");
    }
    "\u{2716}".to_string()
}

} // verus!
