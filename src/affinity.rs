use vstd::prelude::*;
use core_affinity::CoreId;

verus! {

#[verifier::external_type_specification]
#[verifier::external_body]
pub struct ExCoreId(core_affinity::CoreId);

/// Relies on `core_affinity::get_core_ids`: the cores the current thread may
/// run on, or `None` where they cannot be read. What comes back depends on
/// the machine.
#[verifier::external_body]
fn available_cores() -> (r: Option<Vec<CoreId>>) {
    core_affinity::get_core_ids()
}

/// Relies on `core_affinity::set_for_current`: pins the current thread to
/// `core`, returning whether the system accepted it.
#[verifier::external_body]
fn pin_current_thread(core: CoreId) -> (r: bool) {
    core_affinity::set_for_current(core)
}

/// What became of a request to pin the current thread.
#[derive(Clone, Copy, Debug, PartialEq, Eq, Structural)]
pub enum AffinityOutcome {
    /// No core could be listed, so the thread was left where it was.
    NoCores,
    /// The thread was to be pinned to core `index` of the `count` available
    /// ones; `pinned` says whether the system accepted it.
    Tried { index: usize, count: usize, pinned: bool },
}

/// The core that index `t_id` designates: indices wrap around the list of
/// available cores. An empty list designates none.
pub fn pick_core(cores: &Vec<CoreId>, t_id: usize) -> (r: Option<CoreId>)
    ensures
        r is None <==> cores@.len() == 0,
        r matches Some(c) ==> c == cores@[t_id as int % cores@.len() as int],
{
    if cores.len() == 0 {
        None
    } else {
        Some(cores[t_id % cores.len()])
    }
}

/// Pins the current thread to the core that index `t_id` designates among
/// the available ones, the index wrapping around their number (so any
/// index is accepted). Where the cores cannot be listed or none is
/// available, the thread is left unpinned.
pub fn set_affinity(t_id: usize) -> (r: AffinityOutcome)
    ensures
        r matches AffinityOutcome::Tried { index, count, .. } ==> count > 0 && index == t_id
            % count,
{
    match available_cores() {
        Some(cores) => match pick_core(&cores, t_id) {
            Some(core) => {
                let pinned = pin_current_thread(core);
                AffinityOutcome::Tried { index: t_id % cores.len(), count: cores.len(), pinned }
            },
            None => AffinityOutcome::NoCores,
        },
        None => AffinityOutcome::NoCores,
    }
}

} // verus!
