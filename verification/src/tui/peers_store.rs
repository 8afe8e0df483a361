//! The remembered peer addresses: the list itself. Reading it from and
//! writing it to its file is the host's part.

use vstd::prelude::*;

verus! {

/// True iff `addr` is among `addrs`.
pub fn contains_addr(addrs: &Vec<String>, addr: &str) -> (found: bool)
    ensures
        found == addrs.deep_view().contains(addr@),
{
    let wanted = addr.to_owned();
    let mut i: usize = 0;
    while i < addrs.len()
        invariant
            i <= addrs@.len(),
            wanted@ == addr@,
            forall|j: int| 0 <= j < i ==> addrs.deep_view()[j] != addr@,
        decreases addrs@.len() - i,
    {
        if addrs[i] == wanted {
            assert(addrs.deep_view()[i as int] == addr@);
            return true;
        }
        i += 1;
    }
    false
}

/// Adds `addr` to the remembered addresses unless it is among them already.
/// Returns whether the list has changed and so has to be written back.
pub fn add(addrs: &mut Vec<String>, addr: &str) -> (changed: bool)
    ensures
        changed == !old(addrs).deep_view().contains(addr@),
        final(addrs).deep_view() == if changed {
            old(addrs).deep_view().push(addr@)
        } else {
            old(addrs).deep_view()
        },
{
    if contains_addr(addrs, addr) {
        false
    } else {
        let ghost before = addrs.deep_view();
        addrs.push(addr.to_owned());
        assert(addrs.deep_view() =~= before.push(addr@));
        true
    }
}

} // verus!
