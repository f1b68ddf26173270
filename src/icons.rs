//! The icon colour of a new discussion thread, picked at random from the
//! colours the chat platform offers.

use rand::seq::SliceRandom;
use vstd::prelude::*;

verus! {

/// The thread icon colours that the chat platform offers.
pub open spec fn icon_colors() -> Seq<u32> {
    seq![0x6FB9F0u32, 0xFFD67Eu32, 0xCB86DBu32, 0x8EEE98u32, 0xFF93B2u32, 0xFB6F5Fu32]
}

/// Relies on rand's `SliceRandom::choose` with `thread_rng`: one element of
/// the slice, none only if it is empty.
#[verifier::external_body]
fn choose_one(items: &[u32]) -> (r: Option<u32>)
    ensures
        r matches Some(c) ==> items@.contains(c),
        items@.len() > 0 ==> r is Some,
{
    items.choose(&mut rand::thread_rng()).copied()
}

/// One of the offered icon colours, at random.
pub fn random_icon_color() -> (r: u32)
    ensures
        icon_colors().contains(r),
{
    let colors: Vec<u32> = vec![0x6FB9F0, 0xFFD67E, 0xCB86DB, 0x8EEE98, 0xFF93B2, 0xFB6F5F];
    assert(colors@ =~= icon_colors());
    match choose_one(colors.as_slice()) {
        Some(c) => c,
        None => 0x6FB9F0,
    }
}

} // verus!
