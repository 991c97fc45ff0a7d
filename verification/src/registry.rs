//! What a printer registry holds after a sequence of registrations.

use vstd::prelude::*;
use crate::printers::BuiltinPrinter;

verus! {

/// The registry's map after registering, in order, each name with its
/// printer, from an empty registry (`new`, then `register` for each).
pub open spec fn registered(regs: Seq<(Seq<char>, BuiltinPrinter)>) -> Map<Seq<char>, BuiltinPrinter>
    decreases regs.len(),
{
    if regs.len() == 0 {
        Map::empty()
    } else {
        registered(regs.drop_last()).insert(regs.last().0, regs.last().1)
    }
}

/// After any sequence of registrations on a new registry, a name is found
/// exactly when it was registered (the same text, nothing trimmed or
/// matched loosely), and it gives the printer of its last registration.
#[verifier::rlimit(60)]
pub proof fn law_registry_after_registrations(regs: Seq<(Seq<char>, BuiltinPrinter)>, name: Seq<char>)
    ensures
        registered(regs).dom().contains(name) <==> exists|i: int| 0 <= i < regs.len() && #[trigger] regs[i].0 == name,
        forall|i: int|
            0 <= i < regs.len() && #[trigger] regs[i].0 == name && (forall|j: int| i < j < regs.len() ==> regs[j].0 != name)
                ==> registered(regs)[name] == regs[i].1,
    decreases regs.len(),
{
    if regs.len() > 0 {
        let init = regs.drop_last();
        let last = regs.len() - 1;
        law_registry_after_registrations(init, name);
        assert forall|i: int| 0 <= i < init.len() implies #[trigger] init[i] == regs[i] by {}
        if regs[last].0 != name {
            if registered(init).dom().contains(name) {
                let i = choose|i: int| 0 <= i < init.len() && #[trigger] init[i].0 == name;
                assert(regs[i].0 == name);
            }
            if exists|i: int| 0 <= i < regs.len() && #[trigger] regs[i].0 == name {
                let i = choose|i: int| 0 <= i < regs.len() && #[trigger] regs[i].0 == name;
                assert(init[i].0 == name);
            }
            assert forall|i: int|
                0 <= i < regs.len() && #[trigger] regs[i].0 == name && (forall|j: int| i < j < regs.len() ==> regs[j].0 != name)
                    implies registered(regs)[name] == regs[i].1 by {
                assert(init[i].0 == name);
                assert forall|j: int| i < j < init.len() implies init[j].0 != name by {
                    assert(regs[j].0 != name);
                }
            }
        }
    }
}

} // verus!
