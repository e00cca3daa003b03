//! Modes, GPUs and kinds of systems.
use crate::gpu::GpuInterface;
use crate::order::{ids_of, in_order, member};
use std::collections::BTreeMap;
use vstd::prelude::*;

verus! {

/// How the GPUs of a system are shared out.
#[derive(Copy, Clone, Debug, PartialEq, Eq, Structural)]
pub enum Modes {
    /// Only the integrated GPU is in use.
    Integrated,
    /// All GPUs are in use.
    Hybrid,
    /// Each GPU is blocked or not by hand.
    Manual,
    /// The discrete GPU is open to chosen processes.
    Smart,
}

impl Modes {
    /// The number of the mode.
    pub open spec fn number(self) -> u32 {
        match self {
            Modes::Integrated => 0,
            Modes::Hybrid => 1,
            Modes::Manual => 2,
            Modes::Smart => 3,
        }
    }

    /// The name of the mode.
    pub open spec fn title(self) -> Seq<char> {
        match self {
            Modes::Integrated => "Integrated"@,
            Modes::Hybrid => "Hybrid"@,
            Modes::Manual => "Manual"@,
            Modes::Smart => "Smart"@,
        }
    }

    /// The number of the mode.
    pub fn to_u32(self) -> (number: u32)
        ensures
            number == self.number(),
    {
        match self {
            Modes::Integrated => 0,
            Modes::Hybrid => 1,
            Modes::Manual => 2,
            Modes::Smart => 3,
        }
    }

    /// The mode with this number, if there is one.
    pub fn from_u32(number: u32) -> (mode: Option<Modes>)
        ensures
            mode is Some <==> number < 4,
            mode matches Some(m) ==> m.number() == number,
    {
        match number {
            0 => Some(Modes::Integrated),
            1 => Some(Modes::Hybrid),
            2 => Some(Modes::Manual),
            3 => Some(Modes::Smart),
            _ => None,
        }
    }

    /// The name of the mode.
    pub fn name(self) -> (name: &'static str)
        ensures
            name@ == self.title(),
    {
        match self {
            Modes::Integrated => "Integrated",
            Modes::Hybrid => "Hybrid",
            Modes::Manual => "Manual",
            Modes::Smart => "Smart",
        }
    }
}

/// Modes and their numbers correspond one to one.
pub proof fn law_mode_numbers(mode: Modes, other: Modes)
    ensures
        mode.number() < 4,
        mode.number() == other.number() <==> mode == other,
{
}

/// Who makes a GPU.
#[derive(Copy, Clone, Debug, PartialEq, Eq, Structural)]
pub enum GpuVendor {
    Nvidia,
    Other,
}

/// A device on the PCI bus.
#[derive(Clone, Debug)]
pub struct PciDevice {
    pub pci_address: String,
    /// The address of the device it hangs on.
    pub parent_pci: Option<String>,
    /// All else that was read of it, such as its class, its vendor and its driver.
    pub details: String,
}

/// A GPU.
#[derive(Clone, Debug)]
pub struct GpuDevice {
    pub name: String,
    pub pci: PciDevice,
    /// Number of its render node.
    pub render: u32,
    /// Number of its card node.
    pub card: u32,
    /// Number of its NVIDIA node.
    pub nvidia_minor: Option<u32>,
    pub vendor: GpuVendor,
    /// It drives the default display.
    pub default: bool,
    /// It is a discrete GPU.
    pub discrete: bool,
    /// It can be used.
    pub available: bool,
}

/// The kinds of systems, by what their GPUs are.
#[derive(Clone, Debug, PartialEq, Eq, Structural)]
pub enum SystemType {
    /// A default integrated GPU and a discrete one.
    Laptop,
    /// A default discrete GPU and an integrated one.
    Desktop,
    /// Anything else.
    Manual,
}

/// The numbers of the GPUs that can be used, in increasing order.
pub open spec fn available_ids(list: Map<usize, GpuDevice>) -> Seq<usize> {
    in_order(list.dom()).filter(is_available(list))
}

/// Whether a GPU of the list can be used.
pub open spec fn is_available(list: Map<usize, GpuDevice>) -> spec_fn(usize) -> bool {
    |id: usize| list[id].available
}

/// Among the GPUs that can be used there is one of this kind.
pub open spec fn has_gpu(list: Map<usize, GpuDevice>, default: bool, discrete: bool) -> bool {
    exists|id: usize| #[trigger]
        list.contains_key(id) && list[id].available && list[id].default == default
            && list[id].discrete == discrete
}

/// The kind of a system with these GPUs.
pub open spec fn system_type(list: Map<usize, GpuDevice>) -> SystemType {
    if available_ids(list).len() != 2 {
        SystemType::Manual
    } else if has_gpu(list, true, true) && has_gpu(list, false, false) {
        SystemType::Desktop
    } else if has_gpu(list, false, true) && has_gpu(list, true, false) {
        SystemType::Laptop
    } else {
        SystemType::Manual
    }
}

/// One more element of a prefix goes through a filter.
pub proof fn lemma_filter_step<A>(s: Seq<A>, i: int, keep: spec_fn(A) -> bool)
    requires
        0 <= i < s.len(),
    ensures
        s.take(i + 1).filter(keep) == if keep(s[i]) {
            s.take(i).filter(keep).push(s[i])
        } else {
            s.take(i).filter(keep)
        },
        s.take(0).filter(keep) == Seq::<A>::empty(),
        s.take(s.len() as int) == s,
{
    reveal(Seq::filter);
    assert(s.take(i + 1).drop_last() =~= s.take(i));
    assert(s.take(0) =~= Seq::empty());
    assert(s.take(s.len() as int) =~= s);
}

/// What a walk over GPUs has seen of those that can be used.
#[derive(Copy, Clone)]
struct Census {
    count: usize,
    default_discrete: bool,
    default_integrated: bool,
    other_discrete: bool,
    other_integrated: bool,
}

impl Census {
    spec fn seen(self, list: Map<usize, GpuDevice>, ids: Seq<usize>) -> bool {
        &&& self.count == ids.filter(is_available(list)).len()
        &&& self.default_discrete == seen_gpu(list, ids, true, true)
        &&& self.default_integrated == seen_gpu(list, ids, true, false)
        &&& self.other_discrete == seen_gpu(list, ids, false, true)
        &&& self.other_integrated == seen_gpu(list, ids, false, false)
    }

    fn new(Ghost(list): Ghost<Map<usize, GpuDevice>>, Ghost(ids): Ghost<Seq<usize>>) -> (c: Census)
        ensures
            c.seen(list, ids.take(0)),
    {
        proof {
            reveal(Seq::filter);
            assert(ids.take(0).len() == 0);
        }
        Census {
            count: 0,
            default_discrete: false,
            default_integrated: false,
            other_discrete: false,
            other_integrated: false,
        }
    }

    /// Counts one more GPU.
    fn see(
        self,
        gpu: &GpuDevice,
        Ghost(list): Ghost<Map<usize, GpuDevice>>,
        Ghost(ids): Ghost<Seq<usize>>,
        i: usize,
    ) -> (c: Census)
        requires
            i < ids.len(),
            ids.len() <= usize::MAX,
            self.seen(list, ids.take(i as int)),
            list[ids[i as int]] == *gpu,
        ensures
            c.seen(list, ids.take(i + 1)),
    {
        let mut c = self;
        proof {
            lemma_filter_step(ids, i as int, is_available(list));
            ids.take(i as int).lemma_filter_len(is_available(list));
            lemma_seen_step(list, ids, i as int, true, true);
            lemma_seen_step(list, ids, i as int, true, false);
            lemma_seen_step(list, ids, i as int, false, true);
            lemma_seen_step(list, ids, i as int, false, false);
        }
        if gpu.available {
            c.count = c.count + 1;
            match (gpu.default, gpu.discrete) {
                (true, true) => {
                    c.default_discrete = true;
                },
                (true, false) => {
                    c.default_integrated = true;
                },
                (false, true) => {
                    c.other_discrete = true;
                },
                (false, false) => {
                    c.other_integrated = true;
                },
            }
        }
        c
    }

    /// The kind of system that was seen.
    fn system_type(self, Ghost(list): Ghost<Map<usize, GpuDevice>>) -> (kind: SystemType)
        requires
            self.seen(list, in_order(list.dom())),
        ensures
            kind == system_type(list),
    {
        proof {
            lemma_seen_all(list, true, true);
            lemma_seen_all(list, true, false);
            lemma_seen_all(list, false, true);
            lemma_seen_all(list, false, false);
        }
        if self.count != 2 {
            SystemType::Manual
        } else if self.default_discrete && self.other_integrated {
            SystemType::Desktop
        } else if self.other_discrete && self.default_integrated {
            SystemType::Laptop
        } else {
            SystemType::Manual
        }
    }
}

/// One of these GPUs can be used and is of this kind.
spec fn seen_gpu(
    list: Map<usize, GpuDevice>,
    ids: Seq<usize>,
    default: bool,
    discrete: bool,
) -> bool {
    exists|j: int|
        0 <= j < ids.len() && list[#[trigger] ids[j]].available && list[ids[j]].default == default
            && list[ids[j]].discrete == discrete
}

proof fn lemma_seen_step(
    list: Map<usize, GpuDevice>,
    ids: Seq<usize>,
    i: int,
    default: bool,
    discrete: bool,
)
    requires
        0 <= i < ids.len(),
    ensures
        seen_gpu(list, ids.take(i + 1), default, discrete) == (seen_gpu(
            list,
            ids.take(i),
            default,
            discrete,
        ) || (list[ids[i]].available && list[ids[i]].default == default && list[ids[i]].discrete
            == discrete)),
{
    let now = ids.take(i + 1);
    let before = ids.take(i);
    if seen_gpu(list, before, default, discrete) {
        let j = choose|j: int|
            0 <= j < before.len() && list[#[trigger] before[j]].available && list[before[j]].default
                == default && list[before[j]].discrete == discrete;
        assert(now[j] == before[j]);
    }
    if seen_gpu(list, now, default, discrete) {
        let j = choose|j: int|
            0 <= j < now.len() && list[#[trigger] now[j]].available && list[now[j]].default
                == default && list[now[j]].discrete == discrete;
        if j < i {
            assert(before[j] == now[j]);
        }
    }
    assert(now[i] == ids[i]);
}

proof fn lemma_seen_all(list: Map<usize, GpuDevice>, default: bool, discrete: bool)
    ensures
        seen_gpu(list, in_order(list.dom()), default, discrete) == has_gpu(list, default, discrete),
{
    let ids = in_order(list.dom());
    crate::order::lemma_in_order(list.dom());
    if has_gpu(list, default, discrete) {
        let id = choose|id: usize| #[trigger]
            list.contains_key(id) && list[id].available && list[id].default == default
                && list[id].discrete == discrete;
        assert(ids.contains(id));
        let j = choose|j: int| 0 <= j < ids.len() && ids[j] == id;
        assert(list[ids[j]].available);
    }
    if seen_gpu(list, ids, default, discrete) {
        let j = choose|j: int|
            0 <= j < ids.len() && list[#[trigger] ids[j]].available && list[ids[j]].default
                == default && list[ids[j]].discrete == discrete;
        assert(ids.contains(ids[j]));
        assert(list.contains_key(ids[j]));
    }
}

impl SystemType {
    /// The kind of a system with these GPUs.
    pub fn from_gpulist(gpu_list: &BTreeMap<usize, GpuDevice>) -> (kind: Self)
        ensures
            kind == system_type(gpu_list@),
    {
        let ids = ids_of(gpu_list);
        let mut census = Census::new(Ghost(gpu_list@), Ghost(ids@));
        let mut i: usize = 0;
        while i < ids.len()
            invariant
                i <= ids@.len(),
                ids@ == in_order(gpu_list@.dom()),
                forall|j: int| 0 <= j < ids@.len() ==> gpu_list@.contains_key(#[trigger] ids@[j]),
                census.seen(gpu_list@, ids@.take(i as int)),
            decreases ids.len() - i,
        {
            let gpu = member(gpu_list, ids[i]);
            census = census.see(gpu, Ghost(gpu_list@), Ghost(ids@), i);
            i = i + 1;
        }
        assert(ids@.take(i as int) =~= ids@);
        census.system_type(Ghost(gpu_list@))
    }

    /// The kind of a system with these GPUs, as they are served.
    pub fn from_interfaces(gpu_list: &BTreeMap<usize, GpuInterface>) -> (kind: Self)
        ensures
            kind == system_type(devices(gpu_list@)),
    {
        let ghost list = devices(gpu_list@);
        let ids = ids_of(gpu_list);
        proof {
            assert(list.dom() =~= gpu_list@.dom());
        }
        let mut census = Census::new(Ghost(list), Ghost(ids@));
        let mut i: usize = 0;
        while i < ids.len()
            invariant
                i <= ids@.len(),
                list == devices(gpu_list@),
                ids@ == in_order(list.dom()),
                forall|j: int| 0 <= j < ids@.len() ==> gpu_list@.contains_key(#[trigger] ids@[j]),
                census.seen(list, ids@.take(i as int)),
            decreases ids.len() - i,
        {
            let gpu = member(gpu_list, ids[i]);
            census = census.see(gpu.get_device(), Ghost(list), Ghost(ids@), i);
            i = i + 1;
        }
        assert(ids@.take(i as int) =~= ids@);
        census.system_type(Ghost(list))
    }
}

/// The devices of GPUs that are served.
pub open spec fn devices(list: Map<usize, GpuInterface>) -> Map<usize, GpuDevice> {
    list.map_values(|gpu: GpuInterface| gpu.hardware())
}

} // verus!
