//! What holds of the entries that belong to a GPU, and of those that NVIDIA devices share.
use crate::errors::FdoError;
use crate::gpu::GpuInterface;
use crate::inode::{
    backlight_path, backlight_to_inode, card_path, card_to_inode, drm_entry_keys, drm_keys,
    exp_nvidia_inodes, get_inodes, hwmon_class_path, hwmon_dir, hwmon_entry_keys, hwmon_keys,
    icd_dirs_keys, icd_entry_keys, icd_keys, key_if, nvidia_keys, nvidia_path, nvidia_to_inode,
    pci_addresses, pci_keys, pci_path, probe_at, render_path, render_to_inode, single_pci_to_inode,
    texts, vulkan_paths, DrmEntry, HwmonEntry, IcdEntry, InodeProbes, LinkProbe,
};
use crate::keys::{key_of, InodeKey};
use crate::pci::{
    address_of, ancestors, ancestry_is_finite, gpu_addresses, lemma_ancestors_unfold, lists_agree,
    parent_of, walk_ends, walk_is_finite, PciList,
};
use crate::text::{decimal, has_text, replaced};
use crate::types::PciDevice;
use vstd::prelude::*;

verus! {

/// What two sequences hold together is what either holds.
proof fn lemma_joined<A>(a: Seq<A>, b: Seq<A>, x: A)
    ensures
        (a + b).contains(x) <==> a.contains(x) || b.contains(x),
{
    if a.contains(x) {
        let i = choose|i: int| 0 <= i < a.len() && a[i] == x;
        assert((a + b)[i] == x);
    }
    if b.contains(x) {
        let i = choose|i: int| 0 <= i < b.len() && b[i] == x;
        assert((a + b)[a.len() + i] == x);
    }
    if (a + b).contains(x) {
        let i = choose|i: int| 0 <= i < (a + b).len() && (a + b)[i] == x;
        if i < a.len() {
            assert(a[i] == x);
        } else {
            assert(b[i - a.len()] == x);
        }
    }
}

/// The key of an entry is there exactly where its inode number is known.
proof fn lemma_key_if(name: Seq<char>, ino: Option<u64>, key: InodeKey)
    ensures
        key_if(name, ino).contains(key) <==> (ino matches Some(n) && key == key_of(name, n)),
{
    if let Some(n) = ino {
        assert(key_if(name, ino)[0] == key_of(name, n));
    }
}

/// The key is that of one of NVIDIA's Vulkan drivers, which is a regular file in this directory.
pub open spec fn is_driver_key(entry: IcdEntry, key: InodeKey) -> bool {
    &&& entry.name matches Some(name)
    &&& name@ == "nvidia_icd.json"@ || name@ == "nvidia_icd.x86_64.json"@ || name@
        == "nvidia_icd.i686.json"@
    &&& entry.file matches Some(ino)
    &&& key == key_of(name@, ino)
}

proof fn lemma_icd_keys(entries: Seq<IcdEntry>, key: InodeKey)
    ensures
        icd_keys(entries).contains(key) <==> exists|i: int|
            0 <= i < entries.len() && is_driver_key(#[trigger] entries[i], key),
    decreases entries.len(),
{
    if entries.len() > 0 {
        let rest = entries.drop_last();
        let last = entries.last();
        lemma_icd_keys(rest, key);
        lemma_joined(icd_keys(rest), icd_entry_keys(last), key);
        if let Some(name) = last.name {
            lemma_key_if(name@, last.file, key);
        }
        assert(entries[entries.len() - 1] == last);
        assert forall|i: int| 0 <= i < rest.len() implies #[trigger] rest[i] == entries[i] by {}
        if icd_keys(rest).contains(key) {
            let i = choose|i: int| 0 <= i < rest.len() && is_driver_key(#[trigger] rest[i], key);
            assert(is_driver_key(entries[i], key));
        }
        if exists|i: int| 0 <= i < entries.len() && is_driver_key(#[trigger] entries[i], key) {
            let i = choose|i: int|
                0 <= i < entries.len() && is_driver_key(#[trigger] entries[i], key);
            if i < rest.len() {
                assert(is_driver_key(rest[i], key));
            }
        }
    }
}

/// The key is that of one of NVIDIA's Vulkan drivers in this directory, if it could be read.
pub open spec fn lists_driver(dir: Option<Vec<IcdEntry>>, key: InodeKey) -> bool {
    &&& dir matches Some(entries)
    &&& exists|i: int| 0 <= i < entries@.len() && is_driver_key(#[trigger] entries@[i], key)
}

proof fn lemma_icd_dirs_keys(dirs: Seq<Option<Vec<IcdEntry>>>, key: InodeKey)
    ensures
        icd_dirs_keys(dirs).contains(key) <==> exists|d: int|
            0 <= d < dirs.len() && lists_driver(#[trigger] dirs[d], key),
    decreases dirs.len(),
{
    if dirs.len() > 0 {
        let rest = dirs.drop_last();
        let last = dirs.last();
        let part = match last {
            Some(entries) => icd_keys(entries@),
            None => Seq::empty(),
        };
        lemma_icd_dirs_keys(rest, key);
        lemma_joined(icd_dirs_keys(rest), part, key);
        if let Some(entries) = last {
            lemma_icd_keys(entries@, key);
        }
        assert(dirs[dirs.len() - 1] == last);
        assert forall|i: int| 0 <= i < rest.len() implies #[trigger] rest[i] == dirs[i] by {}
        if icd_dirs_keys(rest).contains(key) {
            let d = choose|d: int| 0 <= d < rest.len() && lists_driver(#[trigger] rest[d], key);
            assert(lists_driver(dirs[d], key));
        }
        if exists|d: int| 0 <= d < dirs.len() && lists_driver(#[trigger] dirs[d], key) {
            let d = choose|d: int| 0 <= d < dirs.len() && lists_driver(#[trigger] dirs[d], key);
            if d < rest.len() {
                assert(lists_driver(rest[d], key));
            }
        }
    }
}

/// What NVIDIA devices share is the control node and the Vulkan drivers of these three names: each
/// of them counts wherever a directory lists it as a file, and nothing else does.
pub proof fn law_shared_files_are_the_control_node_and_the_drivers(
    nvidiactl: Option<u64>,
    dirs: Vec<Option<Vec<IcdEntry>>>,
    keys: Vec<InodeKey>,
)
    requires
        call_ensures(exp_nvidia_inodes, (nvidiactl, &dirs), keys),
    ensures
        nvidiactl matches Some(ino) ==> keys@.contains(key_of("nvidiactl"@, ino)),
        forall|d: int, i: int|
            #![trigger dirs@[d]->0@[i]]
            0 <= d < dirs@.len() && dirs@[d] is Some && 0 <= i < dirs@[d]->0@.len() ==> {
                let entry = dirs@[d]->0@[i];
                entry.name is Some && entry.file is Some && (entry.name->0@ == "nvidia_icd.json"@
                    || entry.name->0@ == "nvidia_icd.x86_64.json"@ || entry.name->0@
                    == "nvidia_icd.i686.json"@) ==> keys@.contains(
                    key_of(entry.name->0@, entry.file->0),
                )
            },
        forall|key: InodeKey| #[trigger]
            keys@.contains(key) ==> (nvidiactl is Some && key == key_of("nvidiactl"@, nvidiactl->0))
                || exists|d: int| 0 <= d < dirs@.len() && lists_driver(#[trigger] dirs@[d], key),
{
    let control = key_if("nvidiactl"@, nvidiactl);
    let drivers = icd_dirs_keys(dirs@);
    if let Some(ino) = nvidiactl {
        lemma_key_if("nvidiactl"@, nvidiactl, key_of("nvidiactl"@, ino));
        lemma_joined(control, drivers, key_of("nvidiactl"@, ino));
    }
    assert forall|d: int, i: int|
        #![trigger dirs@[d]->0@[i]]
        0 <= d < dirs@.len() && dirs@[d] is Some && 0 <= i < dirs@[d]->0@.len() implies ({
        let entry = dirs@[d]->0@[i];
        entry.name is Some && entry.file is Some && (entry.name->0@ == "nvidia_icd.json"@
            || entry.name->0@ == "nvidia_icd.x86_64.json"@ || entry.name->0@
            == "nvidia_icd.i686.json"@) ==> keys@.contains(key_of(entry.name->0@, entry.file->0))
    }) by {
        let entry = dirs@[d]->0@[i];
        let key = key_of(entry.name->0@, entry.file->0);
        if entry.name is Some && entry.file is Some && (entry.name->0@ == "nvidia_icd.json"@
            || entry.name->0@ == "nvidia_icd.x86_64.json"@ || entry.name->0@
            == "nvidia_icd.i686.json"@) {
            assert(is_driver_key(dirs@[d]->0@[i], key));
            assert(lists_driver(dirs@[d], key));
            lemma_icd_dirs_keys(dirs@, key);
            lemma_joined(control, drivers, key);
        }
    }
    assert forall|key: InodeKey| #[trigger] keys@.contains(key) implies (nvidiactl is Some && key
        == key_of("nvidiactl"@, nvidiactl->0)) || exists|d: int|
        0 <= d < dirs@.len() && lists_driver(#[trigger] dirs@[d], key) by {
        lemma_joined(control, drivers, key);
        lemma_key_if("nvidiactl"@, nvidiactl, key);
        lemma_icd_dirs_keys(dirs@, key);
    }
}

/// The key is that of a PCI device at this address, or of the link to it.
pub open spec fn is_device_key(address: Seq<char>, probe: LinkProbe, key: InodeKey) -> bool {
    ||| probe.target matches Some(ino) && key == key_of(address, ino)
    ||| probe.link matches Some(ino) && key == key_of(address, ino)
}

proof fn lemma_pci_keys(addresses: Seq<Seq<char>>, probes: Seq<LinkProbe>, key: InodeKey)
    ensures
        pci_keys(addresses, probes).contains(key) <==> exists|i: int|
            0 <= i < addresses.len() && i < probes.len() && is_device_key(
                #[trigger] addresses[i],
                probes[i],
                key,
            ),
    decreases addresses.len(),
{
    if addresses.len() > 0 {
        let rest = addresses.drop_last();
        let last = addresses.last();
        let n = addresses.len() - 1;
        let probe = probe_at(probes, n);
        lemma_pci_keys(rest, probes, key);
        lemma_joined(pci_keys(rest, probes), key_if(last, probe.target), key);
        lemma_joined(
            pci_keys(rest, probes) + key_if(last, probe.target),
            key_if(last, probe.link),
            key,
        );
        lemma_key_if(last, probe.target, key);
        lemma_key_if(last, probe.link, key);
        assert(addresses[n] == last);
        assert forall|i: int| 0 <= i < rest.len() implies #[trigger] rest[i] == addresses[i] by {}
        if pci_keys(rest, probes).contains(key) {
            let i = choose|i: int|
                0 <= i < rest.len() && i < probes.len() && is_device_key(
                    #[trigger] rest[i],
                    probes[i],
                    key,
                );
            assert(is_device_key(addresses[i], probes[i], key));
        }
        if is_device_key(last, probe, key) {
            assert(n < probes.len());
            assert(is_device_key(addresses[n], probes[n], key));
        }
        if exists|i: int|
            0 <= i < addresses.len() && i < probes.len() && is_device_key(
                #[trigger] addresses[i],
                probes[i],
                key,
            ) {
            let i = choose|i: int|
                0 <= i < addresses.len() && i < probes.len() && is_device_key(
                    #[trigger] addresses[i],
                    probes[i],
                    key,
                );
            if i < rest.len() {
                assert(is_device_key(rest[i], probes[i], key));
            }
        }
    }
}

/// The key is that of an entry of `/sys/class/drm` whose name holds that of the card or of the
/// render node.
pub open spec fn is_drm_key(render: u32, card: u32, entry: DrmEntry, key: InodeKey) -> bool {
    &&& entry.name matches Some(name)
    &&& has_text(name@, "card"@ + decimal(card as nat)) || has_text(
        name@,
        "renderD"@ + decimal(render as nat),
    )
    &&& entry.ino matches Some(ino)
    &&& key == key_of(name@, ino)
}

proof fn lemma_drm_keys(render: u32, card: u32, entries: Seq<DrmEntry>, key: InodeKey)
    ensures
        drm_keys(render, card, entries).contains(key) <==> exists|i: int|
            0 <= i < entries.len() && is_drm_key(render, card, #[trigger] entries[i], key),
    decreases entries.len(),
{
    if entries.len() > 0 {
        let rest = entries.drop_last();
        let last = entries.last();
        lemma_drm_keys(render, card, rest, key);
        lemma_joined(drm_keys(render, card, rest), drm_entry_keys(render, card, last), key);
        if let Some(name) = last.name {
            lemma_key_if(name@, last.ino, key);
        }
        assert(entries[entries.len() - 1] == last);
        assert forall|i: int| 0 <= i < rest.len() implies #[trigger] rest[i] == entries[i] by {}
        if drm_keys(render, card, rest).contains(key) {
            let i = choose|i: int|
                0 <= i < rest.len() && is_drm_key(render, card, #[trigger] rest[i], key);
            assert(is_drm_key(render, card, entries[i], key));
        }
        if exists|i: int|
            0 <= i < entries.len() && is_drm_key(render, card, #[trigger] entries[i], key) {
            let i = choose|i: int|
                0 <= i < entries.len() && is_drm_key(render, card, #[trigger] entries[i], key);
            if i < rest.len() {
                assert(is_drm_key(render, card, rest[i], key));
            }
        }
    }
}

/// The key is that of a sensor: in the directory of its device, or among all sensors.
pub open spec fn is_sensor_key(entry: HwmonEntry, key: InodeKey) -> bool {
    &&& entry.name matches Some(name)
    &&& {
        ||| entry.device matches Some(ino) && key == key_of(name@, ino)
        ||| entry.class matches Some(class) && is_device_key(name@, class, key)
    }
}

proof fn lemma_hwmon_keys(entries: Seq<HwmonEntry>, key: InodeKey)
    ensures
        hwmon_keys(entries).contains(key) <==> exists|i: int|
            0 <= i < entries.len() && is_sensor_key(#[trigger] entries[i], key),
    decreases entries.len(),
{
    if entries.len() > 0 {
        let rest = entries.drop_last();
        let last = entries.last();
        lemma_hwmon_keys(rest, key);
        lemma_joined(hwmon_keys(rest), hwmon_entry_keys(last), key);
        if let Some(name) = last.name {
            lemma_key_if(name@, last.device, key);
            if let Some(class) = last.class {
                lemma_key_if(name@, class.target, key);
                lemma_key_if(name@, class.link, key);
                lemma_joined(key_if(name@, class.target), key_if(name@, class.link), key);
                lemma_joined(
                    key_if(name@, last.device),
                    key_if(name@, class.target) + key_if(name@, class.link),
                    key,
                );
            } else {
                lemma_joined(key_if(name@, last.device), Seq::empty(), key);
            }
        }
        assert(entries[entries.len() - 1] == last);
        assert forall|i: int| 0 <= i < rest.len() implies #[trigger] rest[i] == entries[i] by {}
        if hwmon_keys(rest).contains(key) {
            let i = choose|i: int| 0 <= i < rest.len() && is_sensor_key(#[trigger] rest[i], key);
            assert(is_sensor_key(entries[i], key));
        }
        if exists|i: int| 0 <= i < entries.len() && is_sensor_key(#[trigger] entries[i], key) {
            let i = choose|i: int|
                0 <= i < entries.len() && is_sensor_key(#[trigger] entries[i], key);
            if i < rest.len() {
                assert(is_sensor_key(rest[i], key));
            }
        }
    }
}

/// The key is that of an entry that belongs to a GPU: its card or render node, one of these PCI
/// devices or the link to it, an entry of `/sys/class/drm` that is named after one of its nodes, one
/// of its sensors, its NVIDIA node, or its NVIDIA backlight.
pub open spec fn belongs_to_gpu(
    render: u32,
    card: u32,
    addresses: Seq<Seq<char>>,
    nvidia_minor: Option<u32>,
    probes: InodeProbes,
    key: InodeKey,
) -> bool {
    ||| probes.card matches Ok(ino) && key == key_of("card"@ + decimal(card as nat), ino)
    ||| probes.render matches Ok(ino) && key == key_of("renderD"@ + decimal(render as nat), ino)
    ||| exists|i: int|
        0 <= i < addresses.len() && i < probes.pci@.len() && is_device_key(
            #[trigger] addresses[i],
            probes.pci@[i],
            key,
        )
    ||| probes.drm is Ok && exists|i: int|
        0 <= i < probes.drm->Ok_0@.len() && is_drm_key(
            render,
            card,
            #[trigger] probes.drm->Ok_0@[i],
            key,
        )
    ||| probes.hwmon is Ok && exists|i: int|
        0 <= i < probes.hwmon->Ok_0@.len() && is_sensor_key(
            #[trigger] probes.hwmon->Ok_0@[i],
            key,
        )
    ||| nvidia_minor is Some && probes.nvidia is Ok && key == key_of(
        "nvidia"@ + decimal(nvidia_minor->0 as nat),
        probes.nvidia->Ok_0,
    )
    ||| nvidia_minor is Some && probes.backlight is Ok && key == key_of(
        "nvidia_"@ + decimal(nvidia_minor->0 as nat),
        probes.backlight->Ok_0,
    )
}

/// The entries of a GPU, where they can be known, are all that belong to it and nothing else.
pub proof fn law_entries_of_a_gpu_are_complete(
    render: u32,
    card: u32,
    pci: &str,
    parent_pci: Option<String>,
    pci_list: PciList,
    nvidia_minor: Option<u32>,
    probes: InodeProbes,
    addresses: Vec<String>,
    keys: Result<Vec<InodeKey>, String>,
    key: InodeKey,
)
    requires
        pci_list.wf(),
        walk_is_finite(pci_list@, address_of(parent_pci)),
        call_ensures(pci_addresses, (pci, &parent_pci, &pci_list), addresses),
        call_ensures(
            get_inodes,
            (render, card, pci, &parent_pci, &pci_list, nvidia_minor, &probes),
            keys,
        ),
    ensures
        keys matches Ok(k) ==> (k@.contains(key) <==> belongs_to_gpu(
            render,
            card,
            texts(addresses@),
            nvidia_minor,
            probes,
            key,
        )),
{
    if let Ok(k) = keys {
        let names = texts(addresses@);
        let nodes = seq![
            key_of("card"@ + decimal(card as nat), probes.card->Ok_0),
            key_of("renderD"@ + decimal(render as nat), probes.render->Ok_0),
        ];
        let devices = pci_keys(names, probes.pci@);
        let drm = drm_keys(render, card, probes.drm->Ok_0@);
        let sensors = match probes.hwmon {
            Ok(entries) => hwmon_keys(entries@),
            Err(_) => Seq::empty(),
        };
        let nvidia = nvidia_keys(nvidia_minor, probes);
        assert(k@ == nodes + devices + drm + sensors + nvidia);
        lemma_joined(nodes, devices, key);
        lemma_joined(nodes + devices, drm, key);
        lemma_joined(nodes + devices + drm, sensors, key);
        lemma_joined(nodes + devices + drm + sensors, nvidia, key);
        assert(nodes.contains(key) <==> key == nodes[0] || key == nodes[1]);
        lemma_pci_keys(names, probes.pci@, key);
        lemma_drm_keys(render, card, probes.drm->Ok_0@, key);
        if let Ok(entries) = probes.hwmon {
            lemma_hwmon_keys(entries@, key);
        }
        if let Some(minor) = nvidia_minor {
            let node = key_of("nvidia"@ + decimal(minor as nat), probes.nvidia->Ok_0);
            assert(nvidia[0] == node);
            if let Ok(ino) = probes.backlight {
                assert(nvidia[1] == key_of("nvidia_"@ + decimal(minor as nat), ino));
                assert(nvidia.len() == 2);
            } else {
                assert(nvidia.len() == 1);
            }
        }
    }
}

/// The entries of a GPU are known exactly if its card and render nodes and `/sys/class/drm` can be
/// read and, for a GPU that has one, its NVIDIA node. Sensors and a backlight it need not have. The
/// error is that of the first of these, in this order.
pub proof fn law_entries_of_a_gpu_are_known(
    render: u32,
    card: u32,
    pci: &str,
    parent_pci: Option<String>,
    pci_list: PciList,
    nvidia_minor: Option<u32>,
    probes: InodeProbes,
    keys: Result<Vec<InodeKey>, String>,
)
    requires
        pci_list.wf(),
        walk_is_finite(pci_list@, address_of(parent_pci)),
        call_ensures(
            get_inodes,
            (render, card, pci, &parent_pci, &pci_list, nvidia_minor, &probes),
            keys,
        ),
    ensures
        keys is Ok <==> probes.card is Ok && probes.render is Ok && probes.drm is Ok && (
        nvidia_minor is None || probes.nvidia is Ok),
        probes.card matches Err(why) ==> keys == Err::<Vec<InodeKey>, String>(why),
        probes.card is Ok ==> (probes.render matches Err(why) ==> keys == Err::<
            Vec<InodeKey>,
            String,
        >(why)),
        probes.card is Ok && probes.render is Ok ==> (probes.drm matches Err(why) ==> keys == Err::<
            Vec<InodeKey>,
            String,
        >(why)),
        probes.card is Ok && probes.render is Ok && probes.drm is Ok && nvidia_minor is Some ==> (
        probes.nvidia matches Err(why) ==> keys == Err::<Vec<InodeKey>, String>(why)),
{
}

/// The addresses of a GPU are its own, that of its audio function and those of the devices it hangs
/// on: the first one is that of the parent if it is listed, and with a device comes the one that it
/// hangs on in turn.
pub proof fn law_addresses_of_a_gpu(
    pci: &str,
    parent_pci: Option<String>,
    pci_list: PciList,
    addresses: Vec<String>,
)
    requires
        pci_list.wf(),
        walk_is_finite(pci_list@, address_of(parent_pci)),
        call_ensures(pci_addresses, (pci, &parent_pci, &pci_list), addresses),
    ensures
        addresses@.len() >= 2,
        addresses@[0]@ == pci@,
        addresses@[1]@ == replaced(pci@, ".0"@, ".1"@),
        addresses@.len() == 2 <==> parent_pci is None || !pci_list@.contains_key(parent_pci->0@),
        parent_pci is Some && pci_list@.contains_key(parent_pci->0@) ==> addresses@[2]@
            == pci_list@[parent_pci->0@].pci_address@,
{
    assert(texts(addresses@).len() == addresses@.len());
    lemma_ancestors_unfold(pci_list@, address_of(parent_pci));
    assert(texts(addresses@)[0] == addresses@[0]@);
    assert(texts(addresses@)[1] == addresses@[1]@);
    if parent_pci is Some && pci_list@.contains_key(parent_pci->0@) {
        assert(texts(addresses@)[2] == addresses@[2]@);
    }
}

/// Two GPUs of which one hangs on a listed device, and the other, with the same address, on what
/// that device hangs on: the first one has the address of the device besides, and all others in
/// common with the second.
pub proof fn law_addresses_go_up_the_tree(
    pci: &str,
    parent_pci: Option<String>,
    above: Option<String>,
    pci_list: PciList,
    addresses: Vec<String>,
    fewer: Vec<String>,
    address: Seq<char>,
)
    requires
        pci_list.wf(),
        walk_is_finite(pci_list@, address_of(parent_pci)),
        parent_pci is Some && pci_list@.contains_key(parent_pci->0@),
        address_of(above) == parent_of(pci_list@[parent_pci->0@]),
        call_ensures(pci_addresses, (pci, &parent_pci, &pci_list), addresses),
        call_ensures(pci_addresses, (pci, &above, &pci_list), fewer),
    ensures
        texts(addresses@).contains(address) <==> texts(fewer@).contains(address) || address
            == pci_list@[parent_pci->0@].pci_address@,
        addresses@.len() == fewer@.len() + 1,
{
    let list = pci_list@;
    let device = list[parent_pci->0@];
    lemma_ancestors_unfold(list, address_of(parent_pci));
    let own = seq![pci@, replaced(pci@, ".0"@, ".1"@)];
    let rest = ancestors(list, parent_of(device));
    let one = seq![device.pci_address@];
    assert(texts(addresses@) == own + (one + rest));
    assert(texts(fewer@) == own + rest);
    lemma_joined(own, one + rest, address);
    lemma_joined(one, rest, address);
    lemma_joined(own, rest, address);
    assert(one.contains(address) <==> address == one[0]);
    assert(texts(addresses@).len() == addresses@.len());
    assert(texts(fewer@).len() == fewer@.len());
}

/// Two lists of devices agree exactly if they have the same identifiers and, under each of them,
/// the same address, the same parent and the same details: a change of any of these is noticed.
pub proof fn law_lists_agree_only_if_nothing_changed(a: PciList, b: PciList, same: bool)
    requires
        a.wf(),
        b.wf(),
        call_ensures(lists_agree, (&a, &b), same),
    ensures
        same <==> (forall|id: Seq<char>| #[trigger] a@.contains_key(id) <==> b@.contains_key(id))
            && (forall|id: Seq<char>| #[trigger]
            a@.contains_key(id) ==> a@[id].pci_address@ == b@[id].pci_address@ && a@[id].details@
                == b@[id].details@ && address_of(a@[id].parent_pci) == address_of(
                b@[id].parent_pci,
            )),
{
    if same {
        assert forall|id: Seq<char>| #[trigger]
            a@.contains_key(id) implies a@[id].pci_address@ == b@[id].pci_address@
            && a@[id].details@ == b@[id].details@ && address_of(a@[id].parent_pci) == address_of(
            b@[id].parent_pci,
        ) by {
            assert(b@.contains_key(id));
        }
    }
}

/// The nodes that tell whether a GPU is blocked are among its entries, under the same keys: its
/// card and render nodes, its PCI device and, where it has one, its NVIDIA node; and so is its
/// backlight, where there is one.
pub proof fn law_checked_nodes_are_among_the_entries(
    render: u32,
    card: u32,
    pci: &str,
    parent_pci: Option<String>,
    pci_list: PciList,
    minor: u32,
    probes: InodeProbes,
    keys: Vec<InodeKey>,
    card_key: Result<InodeKey, String>,
    render_key: Result<InodeKey, String>,
    pci_key: Result<InodeKey, String>,
    nvidia_key: Result<InodeKey, String>,
    backlight_key: Result<InodeKey, String>,
    pci_ino: u64,
)
    requires
        pci_list.wf(),
        walk_is_finite(pci_list@, address_of(parent_pci)),
        call_ensures(
            get_inodes,
            (render, card, pci, &parent_pci, &pci_list, Some(minor), &probes),
            Ok::<Vec<InodeKey>, String>(keys),
        ),
        call_ensures(card_to_inode, (card, &probes.card), card_key),
        call_ensures(render_to_inode, (render, &probes.render), render_key),
        call_ensures(single_pci_to_inode, (pci, &Ok::<u64, String>(pci_ino)), pci_key),
        call_ensures(nvidia_to_inode, (minor, &probes.nvidia), nvidia_key),
        call_ensures(backlight_to_inode, (minor, &probes.backlight), backlight_key),
        probes.pci@.len() > 0 && probes.pci@[0].target == Some(pci_ino),
    ensures
        card_key matches Ok(key) && keys@.contains(key),
        render_key matches Ok(key) && keys@.contains(key),
        pci_key matches Ok(key) && keys@.contains(key),
        nvidia_key matches Ok(key) && keys@.contains(key),
        backlight_key is Ok <==> probes.backlight is Ok,
        backlight_key matches Ok(key) ==> keys@.contains(key),
{
    let names = gpu_addresses(pci@, address_of(parent_pci), pci_list@);
    let nodes = seq![
        key_of("card"@ + decimal(card as nat), probes.card->Ok_0),
        key_of("renderD"@ + decimal(render as nat), probes.render->Ok_0),
    ];
    let devices = pci_keys(names, probes.pci@);
    let drm = drm_keys(render, card, probes.drm->Ok_0@);
    let sensors = match probes.hwmon {
        Ok(entries) => hwmon_keys(entries@),
        Err(_) => Seq::empty(),
    };
    let nvidia = nvidia_keys(Some(minor), probes);
    let n = (nodes + devices + drm + sensors).len() as int;
    assert(keys@ == nodes + devices + drm + sensors + nvidia);
    assert(keys@[0] == card_key->Ok_0);
    assert(keys@[1] == render_key->Ok_0);
    assert(keys@[n] == nvidia[0]);
    if probes.backlight is Ok {
        assert(keys@[n + 1] == nvidia[1]);
    }
    let key = pci_key->Ok_0;
    assert(names[0] == pci@);
    assert(is_device_key(names[0], probes.pci@[0], key));
    lemma_pci_keys(names, probes.pci@, key);
    lemma_joined(nodes, devices, key);
    lemma_joined(nodes + devices, drm, key);
    lemma_joined(nodes + devices + drm, sensors, key);
    lemma_joined(nodes + devices + drm + sensors, nvidia, key);
}

/// The entries of a GPU are those of the numbers, the address and the parent of its own device. What
/// keeps them from being known is told as a failure.
pub proof fn law_gpu_knows_its_own_entries(
    gpu: GpuInterface,
    pci: &str,
    pci_list: PciList,
    probes: InodeProbes,
    own: Result<Vec<InodeKey>, FdoError>,
    keys: Result<Vec<InodeKey>, String>,
)
    requires
        pci_list.wf(),
        walk_is_finite(pci_list@, address_of(gpu.hardware().pci.parent_pci)),
        pci@ == gpu.hardware().pci.pci_address@,
        call_ensures(GpuInterface::current_inodes, (&gpu, &pci_list, &probes), own),
        call_ensures(
            get_inodes,
            (
                gpu.hardware().render,
                gpu.hardware().card,
                pci,
                &gpu.hardware().pci.parent_pci,
                &pci_list,
                gpu.hardware().nvidia_minor,
                &probes,
            ),
            keys,
        ),
    ensures
        own is Ok <==> keys is Ok,
        own is Ok ==> own->Ok_0@ == keys->Ok_0@,
        keys matches Err(why) ==> own == Err::<Vec<InodeKey>, FdoError>(FdoError::Failed(why)),
{
}

/// Nodes are read under `/dev`, devices under their address, and sensors in the directory of their
/// device and under their name among all sensors.
pub proof fn law_paths_of_entries(
    number: u32,
    text: &str,
    card: String,
    render: String,
    nvidia: String,
    backlight: String,
    device: String,
    sensors: String,
    sensor: String,
)
    requires
        call_ensures(card_path, (number,), card),
        call_ensures(render_path, (number,), render),
        call_ensures(nvidia_path, (number,), nvidia),
        call_ensures(backlight_path, (number,), backlight),
        call_ensures(pci_path, (text,), device),
        call_ensures(hwmon_dir, (text,), sensors),
        call_ensures(hwmon_class_path, (text,), sensor),
    ensures
        card@ == "/dev/dri/card"@ + decimal(number as nat),
        render@ == "/dev/dri/renderD"@ + decimal(number as nat),
        nvidia@ == "/dev/nvidia"@ + decimal(number as nat),
        backlight@ == "/sys/class/backlight/nvidia_"@ + decimal(number as nat),
        device@ == "/sys/bus/pci/devices/"@ + text@,
        sensors@ == device@ + "/hwmon"@,
        sensor@ == "/sys/class/hwmon/"@ + text@,
{
}

/// Vulkan drivers are looked for in the directories of the system and of NixOS.
pub proof fn law_drivers_are_looked_for_everywhere(paths: Vec<&'static str>)
    requires
        call_ensures(vulkan_paths, (), paths),
    ensures
        exists|i: int|
            0 <= i < paths@.len() && (#[trigger] paths@[i])@ == "/etc/vulkan/icd.d/"@,
        exists|i: int|
            0 <= i < paths@.len() && (#[trigger] paths@[i])@ == "/usr/share/vulkan/icd.d/"@,
        exists|i: int|
            0 <= i < paths@.len() && (#[trigger] paths@[i])@
                == "/run/opengl-driver/share/vulkan/icd.d/"@,
        exists|i: int|
            0 <= i < paths@.len() && (#[trigger] paths@[i])@
                == "/run/opengl-driver-32/share/vulkan/icd.d/"@,
        paths@.len() == 4,
{
    assert(paths@[0]@ == "/run/opengl-driver/share/vulkan/icd.d/"@);
    assert(paths@[1]@ == "/run/opengl-driver-32/share/vulkan/icd.d/"@);
    assert(paths@[2]@ == "/etc/vulkan/icd.d/"@);
    assert(paths@[3]@ == "/usr/share/vulkan/icd.d/"@);
}

/// The walk from device to device that it hangs on ends at a device that hangs on none and at one
/// that is not listed, and otherwise exactly if it ends from the next device on.
pub proof fn law_walk_ends_where_the_next_one_does(
    parent_pci: Option<String>,
    above: Option<String>,
    pci_list: PciList,
    finite: bool,
    finite_above: bool,
)
    requires
        pci_list.wf(),
        call_ensures(ancestry_is_finite, (&parent_pci, &pci_list), finite),
        call_ensures(ancestry_is_finite, (&above, &pci_list), finite_above),
    ensures
        parent_pci is None ==> finite,
        parent_pci is Some && !pci_list@.contains_key(parent_pci->0@) ==> finite,
        parent_pci is Some && pci_list@.contains_key(parent_pci->0@) && address_of(above)
            == address_of(pci_list@[parent_pci->0@].parent_pci) ==> (finite <==> finite_above),
        parent_pci is Some && pci_list@.contains_key(parent_pci->0@) && address_of(
            pci_list@[parent_pci->0@].parent_pci,
        ) == Some(parent_pci->0@) ==> !finite,
{
    let list = pci_list@;
    let start = address_of(parent_pci);
    if parent_pci is None || !list.contains_key(parent_pci->0@) {
        assert(walk_ends(list, start, 0));
    } else {
        let next = parent_of(list[parent_pci->0@]);
        if walk_is_finite(list, start) {
            let n = choose|n: nat| #[trigger] walk_ends(list, start, n);
            assert(walk_ends(list, next, (n - 1) as nat));
        }
        if walk_is_finite(list, next) {
            let n = choose|n: nat| #[trigger] walk_ends(list, next, n);
            assert(walk_ends(list, start, n + 1));
        }
        if next == start {
            assert forall|n: nat| !#[trigger] walk_ends(list, start, n) by {
                lemma_never_ends(list, start, n);
            }
        }
    }
}

/// A device that hangs on itself has no end of devices to hang on.
proof fn lemma_never_ends(list: Map<Seq<char>, PciDevice>, start: Option<Seq<char>>, n: nat)
    requires
        start is Some,
        list.contains_key(start->0),
        parent_of(list[start->0]) == start,
    ensures
        !walk_ends(list, start, n),
    decreases n,
{
    if n > 0 {
        lemma_never_ends(list, start, (n - 1) as nat);
    }
}

} // verus!
