//! Building the list of GPUs that are served.
use crate::gpu::GpuInterface;
use crate::inode::texts;
use crate::keys::InodeKey;
use crate::order::{ids_of, in_order, lemma_in_order, member, put, take_out};
use crate::text::{decimal, numbered};
use crate::types::{available_ids, is_available, lemma_filter_step, GpuDevice, GpuVendor};
use std::collections::BTreeMap;
use vstd::prelude::*;

verus! {

/// What the launch environment of a GPU is computed from.
#[derive(Clone, Debug)]
pub struct EnvRequest {
    /// How many GPUs can be used.
    pub gpu_count: usize,
    pub default: bool,
    pub discrete: bool,
    pub id: u32,
    pub vendor: GpuVendor,
    pub pci_address: String,
}

/// `request` asks for the environment of GPU `id` among `gpu_count`.
pub open spec fn requests_env(
    request: EnvRequest,
    gpu_count: nat,
    id: usize,
    device: GpuDevice,
) -> bool {
    &&& request.gpu_count == gpu_count
    &&& request.default == device.default
    &&& request.discrete == device.discrete
    &&& request.id == id as u32
    &&& request.vendor == device.vendor
    &&& request.pci_address == device.pci.pci_address
}

/// Counts the GPUs that can be used.
pub fn count_available(devices: &BTreeMap<usize, GpuDevice>) -> (count: usize)
    ensures
        count == available_ids(devices@).len(),
{
    let ids = ids_of(devices);
    let mut count: usize = 0;
    let mut i: usize = 0;
    assert(ids@.take(0).filter(is_available(devices@)).len() == 0) by {
        reveal(Seq::filter);
    }
    while i < ids.len()
        invariant
            i <= ids@.len(),
            forall|j: int| 0 <= j < ids@.len() ==> devices@.contains_key(#[trigger] ids@[j]),
            count == ids@.take(i as int).filter(is_available(devices@)).len(),
            count <= i,
        decreases ids.len() - i,
    {
        proof {
            lemma_filter_step(ids@, i as int, is_available(devices@));
        }
        if member(devices, ids[i]).available {
            count = count + 1;
        }
        i = i + 1;
    }
    assert(ids@.take(i as int) =~= ids@);
    count
}

/// What the launch environments of these GPUs are computed from, in the order of their numbers.
pub fn env_requests(devices: &BTreeMap<usize, GpuDevice>) -> (requests: Vec<EnvRequest>)
    ensures
        requests@.len() == in_order(devices@.dom()).len(),
        forall|i: int|
            0 <= i < requests@.len() ==> requests_env(
                #[trigger] requests@[i],
                available_ids(devices@).len(),
                in_order(devices@.dom())[i],
                devices@[in_order(devices@.dom())[i]],
            ),
{
    let gpu_count: usize = count_available(devices);
    let ids = ids_of(devices);
    let mut requests: Vec<EnvRequest> = Vec::new();
    let mut i: usize = 0;
    while i < ids.len()
        invariant
            i <= ids@.len(),
            ids@ == in_order(devices@.dom()),
            gpu_count == available_ids(devices@).len(),
            forall|j: int| 0 <= j < ids@.len() ==> devices@.contains_key(#[trigger] ids@[j]),
            requests@.len() == i,
            forall|j: int|
                0 <= j < i ==> requests_env(
                    #[trigger] requests@[j],
                    gpu_count as nat,
                    ids@[j],
                    devices@[ids@[j]],
                ),
        decreases ids.len() - i,
    {
        let device = member(devices, ids[i]);
        requests.push(
            EnvRequest {
                gpu_count,
                default: device.default,
                discrete: device.discrete,
                id: ids[i] as u32,
                vendor: device.vendor,
                pci_address: device.pci.pci_address.clone(),
            },
        );
        i = i + 1;
    }
    requests
}

/// The GPU that is served for a device: nothing was written for it yet.
pub open spec fn serves(gpu: GpuInterface, id: usize, device: GpuDevice, env: Vec<String>) -> bool {
    gpu.number() == id as u32 && gpu.hardware() == device && gpu.environment() == env && gpu.pushed()
        == Seq::<InodeKey>::empty()
}

/// Builds the list of GPUs that are served, one for each device. The environments come in the
/// order of the devices' numbers.
pub fn build_interfaces(devices: BTreeMap<usize, GpuDevice>, envs: Vec<Vec<String>>) -> (list:
    BTreeMap<usize, GpuInterface>)
    requires
        envs@.len() == in_order(devices@.dom()).len(),
    ensures
        list@.dom() == devices@.dom(),
        forall|i: int|
            0 <= i < envs@.len() ==> serves(
                list@[#[trigger] in_order(devices@.dom())[i]],
                in_order(devices@.dom())[i],
                devices@[in_order(devices@.dom())[i]],
                envs@[i],
            ),
{
    let ghost all = devices@;
    let ghost all_envs = envs@;
    let mut devices = devices;
    let mut envs = envs;
    let ids = ids_of(&devices);
    proof {
        lemma_in_order(all.dom());
    }
    let mut list: BTreeMap<usize, GpuInterface> = BTreeMap::new();
    let mut i: usize = 0;
    while i < ids.len()
        invariant
            i <= ids@.len(),
            ids@ == in_order(all.dom()),
            crate::order::increasing(ids@),
            forall|j: int| 0 <= j < ids@.len() ==> all.contains_key(#[trigger] ids@[j]),
            all_envs.len() == ids@.len(),
            envs@ == all_envs.skip(i as int),
            forall|j: int|
                i <= j < ids@.len() ==> devices@.contains_key(#[trigger] ids@[j]) && devices@[ids@[j]]
                    == all[ids@[j]],
            forall|id: usize| #[trigger]
                list@.contains_key(id) <==> ids@.take(i as int).contains(id),
            forall|j: int|
                0 <= j < i ==> serves(list@[#[trigger] ids@[j]], ids@[j], all[ids@[j]], all_envs[j]),
        decreases ids.len() - i,
    {
        let id: usize = ids[i];
        let ghost before = list@;
        let device = take_out(&mut devices, id);
        let env = envs.remove(0);
        let gpu = GpuInterface::build(id as u32, device, env);
        put(&mut list, id, gpu);
        proof {
            assert(envs@ =~= all_envs.skip(i + 1));
            let now = ids@.take(i + 1);
            let was = ids@.take(i as int);
            assert forall|x: usize| #[trigger] list@.contains_key(x) <==> now.contains(x) by {
                assert(now =~= was.push(id));
                assert(now[i as int] == id);
                if was.contains(x) {
                    let j = choose|j: int| 0 <= j < was.len() && was[j] == x;
                    assert(now[j] == x);
                }
                if now.contains(x) && x != id {
                    let j = choose|j: int| 0 <= j < now.len() && now[j] == x;
                    assert(was[j] == x);
                }
                assert(list@.contains_key(x) <==> before.contains_key(x) || x == id);
            }
        }
        i = i + 1;
    }
    proof {
        assert(ids@.take(i as int) =~= ids@);
        assert(list@.dom() =~= all.dom()) by {
            assert forall|id: usize| list@.dom().contains(id) <==> all.dom().contains(id) by {
                assert(list@.contains_key(id) <==> ids@.contains(id));
            }
        }
    }
    list
}

/// Where GPU `id` is served on the bus.
pub open spec fn served_at(id: usize) -> Seq<char> {
    "/org/opengamingcollective/cardwire/Gpu/"@ + decimal(id as nat)
}

/// Where GPU `id` is served on the bus.
pub fn gpu_path(id: usize) -> (path: String)
    ensures
        path@ == served_at(id),
{
    numbered("/org/opengamingcollective/cardwire/Gpu/", id as u64)
}

/// Where the GPUs with these numbers are served.
pub open spec fn served_paths(ids: Seq<usize>) -> Seq<Seq<char>> {
    ids.map_values(|id: usize| served_at(id))
}

/// What these GPUs had written, one after the other.
pub open spec fn all_pushed(list: Map<usize, GpuInterface>, ids: Seq<usize>) -> Seq<InodeKey>
    decreases ids.len(),
{
    if ids.len() == 0 {
        Seq::empty()
    } else {
        all_pushed(list, ids.drop_last()) + list[ids.last()].pushed()
    }
}

/// GPUs that are no longer served.
#[derive(Debug)]
pub struct RetiredGpus {
    /// Their numbers: whoever watches one of them stops.
    pub ids: Vec<usize>,
    /// Where they were served.
    pub paths: Vec<String>,
    /// What they had written to the kernel side.
    pub inodes: Vec<InodeKey>,
}

/// Empties the list of GPUs that are served.
pub fn retire_all(list: &mut BTreeMap<usize, GpuInterface>) -> (retired: RetiredGpus)
    ensures
        final(list)@ == Map::<usize, GpuInterface>::empty(),
        retired.ids@ == in_order(old(list)@.dom()),
        texts(retired.paths@) == served_paths(retired.ids@),
        retired.inodes@ == all_pushed(old(list)@, retired.ids@),
{
    let ghost all = list@;
    let ids = ids_of(list);
    let mut paths: Vec<String> = Vec::new();
    let mut inodes: Vec<InodeKey> = Vec::new();
    let mut i: usize = 0;
    assert(texts(paths@) =~= served_paths(ids@.take(0)));
    while i < ids.len()
        invariant
            i <= ids@.len(),
            list@ == all,
            forall|j: int| 0 <= j < ids@.len() ==> all.contains_key(#[trigger] ids@[j]),
            texts(paths@) == served_paths(ids@.take(i as int)),
            inodes@ == all_pushed(all, ids@.take(i as int)),
        decreases ids.len() - i,
    {
        let ghost was = ids@.take(i as int);
        let ghost texts_before = texts(paths@);
        paths.push(gpu_path(ids[i]));
        let mut pushed = member(list, ids[i]).pushed_inodes();
        inodes.append(&mut pushed);
        proof {
            let now = ids@.take(i + 1);
            assert(now.drop_last() =~= was);
            assert(texts(paths@) =~= texts_before.push(served_at(ids@[i as int])));
            assert(served_paths(now) =~= served_paths(was).push(served_at(ids@[i as int])));
        }
        i = i + 1;
    }
    assert(ids@.take(i as int) =~= ids@);
    *list = BTreeMap::new();
    RetiredGpus { ids, paths, inodes }
}

/// A GPU to serve.
#[derive(Clone, Debug)]
pub struct ServedGpu {
    pub id: usize,
    pub path: String,
    /// Watch its power state.
    pub watch: bool,
}

/// GPU `id` is served where it belongs, and watched if it can be used.
pub open spec fn is_served(served: ServedGpu, id: usize, gpu: GpuInterface) -> bool {
    served.id == id && served.path@ == served_at(id) && served.watch == gpu.hardware().available
}

/// How the GPUs are served, in the order of their numbers.
pub fn serve_all(list: &BTreeMap<usize, GpuInterface>) -> (served: Vec<ServedGpu>)
    ensures
        served@.len() == in_order(list@.dom()).len(),
        forall|i: int|
            0 <= i < served@.len() ==> is_served(
                #[trigger] served@[i],
                in_order(list@.dom())[i],
                list@[in_order(list@.dom())[i]],
            ),
{
    let ids = ids_of(list);
    let mut served: Vec<ServedGpu> = Vec::new();
    let mut i: usize = 0;
    while i < ids.len()
        invariant
            i <= ids@.len(),
            ids@ == in_order(list@.dom()),
            forall|j: int| 0 <= j < ids@.len() ==> list@.contains_key(#[trigger] ids@[j]),
            served@.len() == i,
            forall|j: int|
                0 <= j < i ==> is_served(#[trigger] served@[j], ids@[j], list@[ids@[j]]),
        decreases ids.len() - i,
    {
        let watch = member(list, ids[i]).get_device().available;
        served.push(ServedGpu { id: ids[i], path: gpu_path(ids[i]), watch });
        i = i + 1;
    }
    served
}

} // verus!
