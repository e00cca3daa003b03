//! Which GPUs were blocked by hand.
use crate::listing::Listing;
use vstd::prelude::*;

verus! {

/// Which GPUs were blocked or unblocked by hand, by PCI address.
#[derive(Clone, Debug)]
pub struct CardwireGpuState {
    pub blocked: Listing<bool>,
}

/// Whether a GPU is recorded as blocked.
pub open spec fn recorded_blocked(state: Map<Seq<char>, bool>, address: Seq<char>) -> bool {
    state.contains_key(address) && state[address]
}

impl View for CardwireGpuState {
    type V = Map<Seq<char>, bool>;

    open spec fn view(&self) -> Map<Seq<char>, bool> {
        self.blocked@
    }
}

impl CardwireGpuState {
    /// No GPU is recorded twice.
    pub open spec fn wf(&self) -> bool {
        self.blocked.wf()
    }

    /// Nothing is recorded.
    pub fn new() -> (state: Self)
        ensures
            state.wf(),
            state@ == Map::<Seq<char>, bool>::empty(),
    {
        CardwireGpuState { blocked: Listing::new() }
    }

    /// Whether nothing was recorded yet, as on the very first start.
    pub fn is_default_state(&self) -> (default: bool)
        requires
            self.wf(),
        ensures
            default == (self@ == Map::<Seq<char>, bool>::empty()),
    {
        let n: usize = self.blocked.len();
        proof {
            if n == 0 {
                assert(self@.dom() =~= Set::empty());
                assert(self@ =~= Map::empty());
            }
        }
        n == 0
    }

    /// Whether a GPU is recorded as blocked. One that is not recorded is not blocked.
    pub fn gpu_block_state(&self, address: &str) -> (blocked: bool)
        requires
            self.wf(),
        ensures
            blocked == recorded_blocked(self@, address@),
    {
        match self.blocked.get(address) {
            Some(blocked) => *blocked,
            None => false,
        }
    }

    /// Records whether a GPU is blocked.
    pub fn save_state(&mut self, address: &str, blocked: bool)
        requires
            old(self).wf(),
        ensures
            final(self).wf(),
            final(self)@ == old(self)@.insert(address@, blocked),
    {
        self.blocked.insert(String::from_str(address), blocked);
    }
}

} // verus!
