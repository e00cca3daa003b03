//! The devices on the PCI bus, and the devices that a device hangs on.
use crate::listing::Listing;
use crate::text::{replaced, same_text};
use crate::types::PciDevice;
use vstd::prelude::*;

verus! {

/// The devices on the PCI bus by identifier.
pub type PciList = Listing<PciDevice>;

/// The address of the device that a device hangs on.
pub open spec fn parent_of(device: PciDevice) -> Option<Seq<char>> {
    match device.parent_pci {
        Some(parent) => Some(parent@),
        None => None,
    }
}

/// Two devices are described alike, in everything that was read of them.
pub open spec fn same_device(a: PciDevice, b: PciDevice) -> bool {
    a.pci_address@ == b.pci_address@ && parent_of(a) == parent_of(b) && a.details@ == b.details@
}

/// Every device of `a` is listed in `b` under the same identifier and described alike.
pub open spec fn covered(a: Map<Seq<char>, PciDevice>, b: Map<Seq<char>, PciDevice>) -> bool {
    forall|id: Seq<char>| #[trigger]
        a.contains_key(id) ==> b.contains_key(id) && same_device(a[id], b[id])
}

/// Two lists hold the same devices.
pub open spec fn same_devices(a: Map<Seq<char>, PciDevice>, b: Map<Seq<char>, PciDevice>) -> bool {
    covered(a, b) && covered(b, a)
}

fn is_same_device(a: &PciDevice, b: &PciDevice) -> (same: bool)
    ensures
        same == same_device(*a, *b),
{
    let same_parent = match (&a.parent_pci, &b.parent_pci) {
        (Some(a), Some(b)) => same_text(a.as_str(), b.as_str()),
        (None, None) => true,
        _ => false,
    };
    same_parent && same_text(a.pci_address.as_str(), b.pci_address.as_str()) && same_text(
        a.details.as_str(),
        b.details.as_str(),
    )
}

fn is_covered(a: &PciList, b: &PciList) -> (same: bool)
    requires
        a.wf(),
        b.wf(),
    ensures
        same == covered(a@, b@),
{
    let ids = a.ids();
    let mut i: usize = 0;
    while i < ids.len()
        invariant
            a.wf(),
            b.wf(),
            i <= ids@.len(),
            forall|j: int| 0 <= j < ids@.len() ==> a@.contains_key((#[trigger] ids@[j])@),
            forall|j: int|
                0 <= j < i ==> b@.contains_key((#[trigger] ids@[j])@) && same_device(
                    a@[ids@[j]@],
                    b@[ids@[j]@],
                ),
        decreases ids.len() - i,
    {
        match (a.get(ids[i].as_str()), b.get(ids[i].as_str())) {
            (Some(x), Some(y)) => {
                if !is_same_device(x, y) {
                    return false;
                }
            },
            _ => {
                return false;
            },
        }
        i = i + 1;
    }
    true
}

/// Whether two lists hold the same devices.
pub fn lists_agree(a: &PciList, b: &PciList) -> (same: bool)
    requires
        a.wf(),
        b.wf(),
    ensures
        same == same_devices(a@, b@),
{
    is_covered(a, b) && is_covered(b, a)
}

/// The walk from device to device that it hangs on, begun at `start`, ends within `n` devices: at
/// a device that hangs on none, or at one that is not listed.
pub open spec fn walk_ends(
    list: Map<Seq<char>, PciDevice>,
    start: Option<Seq<char>>,
    n: nat,
) -> bool
    decreases n,
{
    match start {
        None => true,
        Some(id) => !list.contains_key(id) || (n > 0 && walk_ends(
            list,
            parent_of(list[id]),
            (n - 1) as nat,
        )),
    }
}

/// The walk from device to device that it hangs on ends. On the bus it does: the devices form a
/// tree.
pub open spec fn walk_is_finite(
    list: Map<Seq<char>, PciDevice>,
    start: Option<Seq<char>>,
) -> bool {
    exists|n: nat| #[trigger] walk_ends(list, start, n)
}

/// The addresses of the first `n` devices on the walk begun at `start`.
pub open spec fn walked(
    list: Map<Seq<char>, PciDevice>,
    start: Option<Seq<char>>,
    n: nat,
) -> Seq<Seq<char>>
    decreases n,
{
    match start {
        None => Seq::empty(),
        Some(id) => if list.contains_key(id) && n > 0 {
            seq![list[id].pci_address@] + walked(list, parent_of(list[id]), (n - 1) as nat)
        } else {
            Seq::empty()
        },
    }
}

/// The addresses of all devices on the walk begun at `start`.
pub open spec fn ancestors(
    list: Map<Seq<char>, PciDevice>,
    start: Option<Seq<char>>,
) -> Seq<Seq<char>> {
    walked(list, start, choose|n: nat| #[trigger] walk_ends(list, start, n))
}

/// Once a walk has ended, going on changes nothing.
pub proof fn lemma_walk_stable(
    list: Map<Seq<char>, PciDevice>,
    start: Option<Seq<char>>,
    n: nat,
    m: nat,
)
    requires
        walk_ends(list, start, n),
        walk_ends(list, start, m),
    ensures
        walked(list, start, n) == walked(list, start, m),
    decreases n,
{
    match start {
        None => {},
        Some(id) => {
            if list.contains_key(id) {
                lemma_walk_stable(list, parent_of(list[id]), (n - 1) as nat, (m - 1) as nat);
            }
        },
    }
}

proof fn lemma_ancestors_at(
    list: Map<Seq<char>, PciDevice>,
    start: Option<Seq<char>>,
    n: nat,
)
    requires
        walk_ends(list, start, n),
    ensures
        ancestors(list, start) == walked(list, start, n),
{
    let m = choose|m: nat| #[trigger] walk_ends(list, start, m);
    lemma_walk_stable(list, start, m, n);
}

/// The ancestors of a listed device: the device, then its own ancestors.
pub proof fn lemma_ancestors_unfold(list: Map<Seq<char>, PciDevice>, start: Option<Seq<char>>)
    requires
        walk_is_finite(list, start),
    ensures
        start matches Some(id) ==> (if list.contains_key(id) {
            &&& walk_is_finite(list, parent_of(list[id]))
            &&& ancestors(list, start) == seq![list[id].pci_address@] + ancestors(
                list,
                parent_of(list[id]),
            )
        } else {
            ancestors(list, start) == Seq::<Seq<char>>::empty()
        }),
        start is None ==> ancestors(list, start) == Seq::<Seq<char>>::empty(),
{
    let n = choose|n: nat| #[trigger] walk_ends(list, start, n);
    lemma_ancestors_at(list, start, n);
    if let Some(id) = start {
        if list.contains_key(id) {
            let rest = (n - 1) as nat;
            assert(walk_ends(list, parent_of(list[id]), rest));
            lemma_ancestors_at(list, parent_of(list[id]), rest);
        }
    }
}

/// Where the walk stands after `n` devices.
spec fn stop_at(
    list: Map<Seq<char>, PciDevice>,
    start: Option<Seq<char>>,
    n: nat,
) -> Option<Seq<char>>
    decreases n,
{
    if n == 0 {
        start
    } else {
        match stop_at(list, start, (n - 1) as nat) {
            None => None,
            Some(id) => if list.contains_key(id) {
                parent_of(list[id])
            } else {
                Some(id)
            },
        }
    }
}

/// The walk goes on at `at`.
spec fn goes_on(list: Map<Seq<char>, PciDevice>, at: Option<Seq<char>>) -> bool {
    at is Some && list.contains_key(at->0)
}

proof fn lemma_stop_shift(
    list: Map<Seq<char>, PciDevice>,
    start: Option<Seq<char>>,
    n: nat,
)
    requires
        goes_on(list, start),
    ensures
        stop_at(list, start, n + 1) == stop_at(list, parent_of(list[start->0]), n),
    decreases n,
{
    if n == 0 {
        assert(stop_at(list, start, 0) == start);
    } else {
        lemma_stop_shift(list, start, (n - 1) as nat);
    }
}

/// A walk ends within `n` devices exactly if it does not go on after `n` of them.
proof fn lemma_walk_ends_at(
    list: Map<Seq<char>, PciDevice>,
    start: Option<Seq<char>>,
    n: nat,
)
    ensures
        walk_ends(list, start, n) == !goes_on(list, stop_at(list, start, n)),
    decreases n,
{
    if n > 0 {
        if goes_on(list, start) {
            lemma_stop_shift(list, start, (n - 1) as nat);
            lemma_walk_ends_at(list, parent_of(list[start->0]), (n - 1) as nat);
        } else {
            lemma_stays_stopped(list, start, 0, n);
        }
    }
}

proof fn lemma_stays_stopped(
    list: Map<Seq<char>, PciDevice>,
    start: Option<Seq<char>>,
    n: nat,
    m: nat,
)
    requires
        n <= m,
        !goes_on(list, stop_at(list, start, n)),
    ensures
        stop_at(list, start, m) == stop_at(list, start, n),
    decreases m,
{
    if n < m {
        lemma_stays_stopped(list, start, n, (m - 1) as nat);
    }
}

proof fn lemma_same_stop(
    list: Map<Seq<char>, PciDevice>,
    start: Option<Seq<char>>,
    i: nat,
    j: nat,
    k: nat,
)
    requires
        stop_at(list, start, i) == stop_at(list, start, j),
    ensures
        stop_at(list, start, i + k) == stop_at(list, start, j + k),
    decreases k,
{
    if k > 0 {
        lemma_same_stop(list, start, i, j, (k - 1) as nat);
    }
}

/// A walk that does not end within as many devices as are listed does not end: it has come to
/// some device twice.
proof fn lemma_walk_bound(
    list: Map<Seq<char>, PciDevice>,
    start: Option<Seq<char>>,
    n: nat,
)
    requires
        list.dom().finite(),
        walk_ends(list, start, n),
    ensures
        walk_ends(list, start, list.dom().len()),
    decreases n,
{
    let len = list.dom().len();
    lemma_walk_ends_at(list, start, n);
    lemma_walk_ends_at(list, start, len);
    if n <= len {
        lemma_stays_stopped(list, start, n, len);
    } else if walk_ends(list, start, (n - 1) as nat) {
        lemma_walk_bound(list, start, (n - 1) as nat);
    } else {
        // The walk passes n listed devices, all different: more than there are.
        lemma_walk_ends_at(list, start, (n - 1) as nat);
        let ids = Seq::new(n, |i: int| stop_at(list, start, i as nat)->0);
        assert forall|i: nat| i < n implies goes_on(list, #[trigger] stop_at(list, start, i)) by {
            if !goes_on(list, stop_at(list, start, i)) {
                lemma_stays_stopped(list, start, i, (n - 1) as nat);
            }
        }
        assert(ids.no_duplicates()) by {
            assert forall|i: int, j: int| 0 <= i < j < ids.len() implies ids[i] != ids[j] by {
                if ids[i] == ids[j] {
                    assert(goes_on(list, stop_at(list, start, i as nat)));
                    assert(goes_on(list, stop_at(list, start, j as nat)));
                    let k = (n - j) as nat;
                    lemma_same_stop(list, start, i as nat, j as nat, k);
                    assert(j as nat + k == n);
                    assert(goes_on(list, stop_at(list, start, (i + k) as nat)));
                }
            }
        }
        ids.unique_seq_to_set();
        assert(ids.to_set().subset_of(list.dom())) by {
            assert forall|id: Seq<char>| ids.to_set().contains(id) implies list.dom().contains(
                id,
            ) by {
                let i = choose|i: int| 0 <= i < ids.len() && ids[i] == id;
                assert(goes_on(list, stop_at(list, start, i as nat)));
            }
        }
        vstd::set_lib::lemma_len_subset(ids.to_set(), list.dom());
    }
}

fn clone_parent(parent: &Option<String>) -> (copy: Option<String>)
    ensures
        copy is Some <==> parent is Some,
        copy matches Some(c) ==> c@ == parent->0@,
{
    match parent {
        Some(p) => Some(String::from_str(p.as_str())),
        None => None,
    }
}

/// The text of an optional address.
pub open spec fn address_of(address: Option<String>) -> Option<Seq<char>> {
    match address {
        Some(a) => Some(a@),
        None => None,
    }
}

/// Whether the walk from device to device that it hangs on ends.
pub fn ancestry_is_finite(parent_pci: &Option<String>, pci_list: &PciList) -> (finite: bool)
    requires
        pci_list.wf(),
    ensures
        finite == walk_is_finite(pci_list@, address_of(*parent_pci)),
{
    let len: usize = pci_list.len();
    let ghost list = pci_list@;
    let ghost start = address_of(*parent_pci);
    let mut current = clone_parent(parent_pci);
    let mut i: usize = 0;
    while i < len
        invariant
            i <= len,
            pci_list.wf(),
            list == pci_list@,
            list.dom().finite(),
            len == list.dom().len(),
            address_of(current) == stop_at(list, start, i as nat),
        decreases len - i,
    {
        let next = match &current {
            None => None,
            Some(id) => match pci_list.get(id.as_str()) {
                Some(device) => clone_parent(&device.parent_pci),
                None => Some(String::from_str(id.as_str())),
            },
        };
        current = next;
        i = i + 1;
    }
    let finite = match &current {
        None => true,
        Some(id) => pci_list.get(id.as_str()).is_none(),
    };
    proof {
        lemma_walk_ends_at(list, start, len as nat);
        if walk_is_finite(list, start) {
            let n = choose|n: nat| #[trigger] walk_ends(list, start, n);
            assert(list.dom().finite());
            lemma_walk_bound(list, start, n);
        }
    }
    finite
}

/// The addresses whose entries belong to the GPU at `pci`: its own, that of its audio function,
/// and those of the devices it hangs on.
pub open spec fn gpu_addresses(
    pci: Seq<char>,
    parent_pci: Option<Seq<char>>,
    list: Map<Seq<char>, PciDevice>,
) -> Seq<Seq<char>> {
    seq![pci, replaced(pci, ".0"@, ".1"@)] + ancestors(list, parent_pci)
}

} // verus!
