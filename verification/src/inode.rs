//! The entries of the file system that belong to a GPU, and their keys.
//!
//! Reading the file system is left to the caller: functions name the paths to read, and build
//! keys from what was read there.
use crate::keys::{key_of, InodeKey};
use crate::pci::{
    address_of, ancestors, gpu_addresses, lemma_ancestors_unfold, parent_of, walk_ends,
    walk_is_finite, PciList,
};
use crate::text::{contains, decimal, has_text, join, numbered, replace, replaced, same_text};
use vstd::prelude::*;
use vstd::string::StringExecFns;

verus! {

/// `/dev/dri/card0` and the like.
pub fn card_path(card: u32) -> (path: String)
    ensures
        path@ == "/dev/dri/card"@ + decimal(card as nat),
{
    numbered("/dev/dri/card", card as u64)
}

/// `/dev/dri/renderD128` and the like.
pub fn render_path(render: u32) -> (path: String)
    ensures
        path@ == "/dev/dri/renderD"@ + decimal(render as nat),
{
    numbered("/dev/dri/renderD", render as u64)
}

/// `/dev/nvidia0` and the like.
pub fn nvidia_path(nvidia_minor: u32) -> (path: String)
    ensures
        path@ == "/dev/nvidia"@ + decimal(nvidia_minor as nat),
{
    numbered("/dev/nvidia", nvidia_minor as u64)
}

/// `/sys/class/backlight/nvidia_0` and the like.
pub fn backlight_path(nvidia_minor: u32) -> (path: String)
    ensures
        path@ == "/sys/class/backlight/nvidia_"@ + decimal(nvidia_minor as nat),
{
    numbered("/sys/class/backlight/nvidia_", nvidia_minor as u64)
}

/// The directory of a PCI device.
pub fn pci_path(pci: &str) -> (path: String)
    ensures
        path@ == "/sys/bus/pci/devices/"@ + pci@,
{
    join("/sys/bus/pci/devices/", pci)
}

/// The directory of a PCI device's sensors.
pub fn hwmon_dir(pci: &str) -> (path: String)
    ensures
        path@ == "/sys/bus/pci/devices/"@ + pci@ + "/hwmon"@,
{
    join(pci_path(pci).as_str(), "/hwmon")
}

/// Where a sensor is listed among all sensors.
pub fn hwmon_class_path(name: &str) -> (path: String)
    ensures
        path@ == "/sys/class/hwmon/"@ + name@,
{
    join("/sys/class/hwmon/", name)
}

/// The key of a numbered node, where its inode number could be read.
pub open spec fn node_key(
    prefix: Seq<char>,
    number: u32,
    ino: Result<u64, String>,
) -> Result<InodeKey, String> {
    match ino {
        Ok(ino) => Ok(key_of(prefix + decimal(number as nat), ino)),
        Err(err) => Err(err),
    }
}

fn numbered_node(prefix: &str, number: u32, ino: &Result<u64, String>) -> (key: Result<
    InodeKey,
    String,
>)
    ensures
        key == node_key(prefix@, number, *ino),
{
    match ino {
        Ok(ino) => Ok(InodeKey::new(numbered(prefix, number as u64).as_str(), *ino)),
        Err(err) => Err(err.clone()),
    }
}

/// The key of a render node, from what was read at [`render_path`].
pub fn render_to_inode(render: u32, ino: &Result<u64, String>) -> (key: Result<InodeKey, String>)
    ensures
        key == node_key("renderD"@, render, *ino),
{
    numbered_node("renderD", render, ino)
}

/// The key of a card node, from what was read at [`card_path`].
pub fn card_to_inode(card: u32, ino: &Result<u64, String>) -> (key: Result<InodeKey, String>)
    ensures
        key == node_key("card"@, card, *ino),
{
    numbered_node("card", card, ino)
}

/// The key of an NVIDIA node, from what was read at [`nvidia_path`].
pub fn nvidia_to_inode(nvidia_minor: u32, ino: &Result<u64, String>) -> (key: Result<
    InodeKey,
    String,
>)
    ensures
        key == node_key("nvidia"@, nvidia_minor, *ino),
{
    numbered_node("nvidia", nvidia_minor, ino)
}

/// The key of an NVIDIA backlight, from what was read at [`backlight_path`].
///
/// NVIDIA is the only vendor whose backlight needs to be blocked.
pub fn backlight_to_inode(nvidia_minor: u32, ino: &Result<u64, String>) -> (key: Result<
    InodeKey,
    String,
>)
    ensures
        key == node_key("nvidia_"@, nvidia_minor, *ino),
{
    numbered_node("nvidia_", nvidia_minor, ino)
}

/// The key of a PCI device, from what was read at [`pci_path`].
///
/// Used to verify the block status of a single device.
pub fn single_pci_to_inode(pci: &str, ino: &Result<u64, String>) -> (key: Result<InodeKey, String>)
    ensures
        key == match *ino {
            Ok(ino) => Ok(key_of(pci@, ino)),
            Err(err) => Err(err),
        },
{
    match ino {
        Ok(ino) => Ok(InodeKey::new(pci, *ino)),
        Err(err) => Err(err.clone()),
    }
}

/// The inode numbers found at a path, with links followed and not, as far as they could be read.
#[derive(Copy, Clone, Debug)]
pub struct LinkProbe {
    pub target: Option<u64>,
    pub link: Option<u64>,
}

/// The key of an entry, where its inode number is known.
pub open spec fn key_if(name: Seq<char>, ino: Option<u64>) -> Seq<InodeKey> {
    match ino {
        Some(ino) => seq![key_of(name, ino)],
        None => Seq::empty(),
    }
}

fn push_key_if(keys: &mut Vec<InodeKey>, name: &str, ino: Option<u64>)
    ensures
        final(keys)@ == old(keys)@ + key_if(name@, ino),
{
    if let Some(ino) = ino {
        keys.push(InodeKey::new(name, ino));
    }
    assert(keys@ =~= old(keys)@ + key_if(name@, ino));
}

/// The inode numbers read for address `i`: none, where none were handed in.
pub open spec fn probe_at(probes: Seq<LinkProbe>, i: int) -> LinkProbe {
    if 0 <= i < probes.len() {
        probes[i]
    } else {
        LinkProbe { target: None, link: None }
    }
}

/// The keys of the PCI devices at these addresses: for each the device, then the link to it.
pub open spec fn pci_keys(addresses: Seq<Seq<char>>, probes: Seq<LinkProbe>) -> Seq<InodeKey>
    decreases addresses.len(),
{
    if addresses.len() == 0 {
        Seq::empty()
    } else {
        let probe = probe_at(probes, addresses.len() - 1);
        pci_keys(addresses.drop_last(), probes) + key_if(addresses.last(), probe.target) + key_if(
            addresses.last(),
            probe.link,
        )
    }
}

/// The texts of strings.
pub open spec fn texts(strings: Seq<String>) -> Seq<Seq<char>> {
    Seq::new(strings.len(), |i: int| strings[i]@)
}

/// The addresses to read for the GPU at `pci`: its own, that of its audio function, and those of
/// the devices it hangs on.
pub fn pci_addresses(pci: &str, parent_pci: &Option<String>, pci_list: &PciList) -> (addresses: Vec<
    String,
>)
    requires
        pci_list.wf(),
        walk_is_finite(pci_list@, address_of(*parent_pci)),
    ensures
        texts(addresses@) == gpu_addresses(pci@, address_of(*parent_pci), pci_list@),
{
    let ghost list = pci_list@;
    let ghost start = address_of(*parent_pci);
    let mut addresses: Vec<String> = Vec::new();
    addresses.push(String::from_str(pci));
    proof {
        reveal_strlit(".0");
    }
    addresses.push(replace(pci, ".0", ".1"));
    let mut current: Option<String> = match parent_pci {
        Some(parent) => Some(String::from_str(parent.as_str())),
        None => None,
    };
    assert(texts(addresses@) =~= seq![pci@, replaced(pci@, ".0"@, ".1"@)]);
    let ghost mut left: nat = choose|n: nat| #[trigger] walk_ends(list, start, n);
    loop
        invariant
            pci_list.wf(),
            list == pci_list@,
            walk_ends(list, address_of(current), left),
            texts(addresses@) + ancestors(list, address_of(current)) == gpu_addresses(
                pci@,
                start,
                list,
            ),
        ensures
            texts(addresses@) == gpu_addresses(pci@, start, list),
        decreases left,
    {
        proof {
            assert(walk_is_finite(list, address_of(current)));
            lemma_ancestors_unfold(list, address_of(current));
        }
        let ghost before = texts(addresses@);
        match current {
            None => {
                assert(before + Seq::<Seq<char>>::empty() =~= before);
                break;
            },
            Some(parent) => {
                match pci_list.get(parent.as_str()) {
                    Some(device) => {
                        addresses.push(String::from_str(device.pci_address.as_str()));
                        assert(texts(addresses@) =~= before.push(device.pci_address@));
                        assert(texts(addresses@) + ancestors(list, parent_of(*device)) =~= before
                            + (seq![device.pci_address@] + ancestors(list, parent_of(*device))));
                        current = match &device.parent_pci {
                            Some(p) => Some(String::from_str(p.as_str())),
                            None => None,
                        };
                        assert(address_of(current) == parent_of(*device));
                        proof {
                            left = (left - 1) as nat;
                        }
                    },
                    None => {
                        assert(before + Seq::<Seq<char>>::empty() =~= before);
                        break;
                    },
                }
            },
        }
    }
    addresses
}

/// The keys of the PCI device at `pci`, of its audio function, and of the devices it hangs on.
///
/// `probes` holds what was read for each of [`pci_addresses`], in order.
pub fn pci_to_inode(
    pci: &str,
    parent_pci: &Option<String>,
    pci_list: &PciList,
    probes: &Vec<LinkProbe>,
) -> (keys: Vec<InodeKey>)
    requires
        pci_list.wf(),
        walk_is_finite(pci_list@, address_of(*parent_pci)),
    ensures
        keys@ == pci_keys(gpu_addresses(pci@, address_of(*parent_pci), pci_list@), probes@),
{
    let addresses = pci_addresses(pci, parent_pci, pci_list);
    let ghost names = texts(addresses@);
    let mut keys: Vec<InodeKey> = Vec::new();
    let mut i: usize = 0;
    while i < addresses.len()
        invariant
            i <= addresses@.len(),
            names == texts(addresses@),
            keys@ == pci_keys(names.take(i as int), probes@),
        decreases addresses.len() - i,
    {
        let probe = if i < probes.len() {
            probes[i]
        } else {
            LinkProbe { target: None, link: None }
        };
        assert(names.take(i + 1).drop_last() =~= names.take(i as int));
        push_key_if(&mut keys, addresses[i].as_str(), probe.target);
        push_key_if(&mut keys, addresses[i].as_str(), probe.link);
        i = i + 1;
    }
    assert(names.take(i as int) =~= names);
    keys
}

/// An entry of `/sys/class/drm`.
#[derive(Clone, Debug)]
pub struct DrmEntry {
    /// Its name, where it is UTF-8.
    pub name: Option<String>,
    /// Its inode number, links not followed, where it could be read.
    pub ino: Option<u64>,
}

/// The keys of one entry of `/sys/class/drm`: it counts if its name holds that of the card or of
/// the render node.
pub open spec fn drm_entry_keys(render: u32, card: u32, entry: DrmEntry) -> Seq<InodeKey> {
    match entry.name {
        Some(name) => if has_text(name@, "card"@ + decimal(card as nat)) || has_text(
            name@,
            "renderD"@ + decimal(render as nat),
        ) {
            key_if(name@, entry.ino)
        } else {
            Seq::empty()
        },
        None => Seq::empty(),
    }
}

/// The keys of the entries of `/sys/class/drm` that belong to a GPU, in order.
pub open spec fn drm_keys(render: u32, card: u32, entries: Seq<DrmEntry>) -> Seq<InodeKey>
    decreases entries.len(),
{
    if entries.len() == 0 {
        Seq::empty()
    } else {
        drm_keys(render, card, entries.drop_last()) + drm_entry_keys(render, card, entries.last())
    }
}

/// The keys of the entries of `/sys/class/drm` that belong to a GPU.
pub fn sys_drm_inodes(
    render: u32,
    card: u32,
    listing: &Result<Vec<DrmEntry>, String>,
) -> (keys: Result<Vec<InodeKey>, String>)
    ensures
        match *listing {
            Ok(entries) => keys matches Ok(k) && k@ == drm_keys(render, card, entries@),
            Err(err) => keys == Err::<Vec<InodeKey>, String>(err),
        },
{
    let entries = match listing {
        Ok(entries) => entries,
        Err(err) => {
            return Err(err.clone());
        },
    };
    let card_name = numbered("card", card as u64);
    let render_name = numbered("renderD", render as u64);
    let mut keys: Vec<InodeKey> = Vec::new();
    let mut i: usize = 0;
    while i < entries.len()
        invariant
            i <= entries@.len(),
            card_name@ == "card"@ + decimal(card as nat),
            render_name@ == "renderD"@ + decimal(render as nat),
            keys@ == drm_keys(render, card, entries@.take(i as int)),
        decreases entries.len() - i,
    {
        let ghost before = keys@;
        let entry = &entries[i];
        if let Some(name) = &entry.name {
            if contains(name.as_str(), card_name.as_str()) || contains(
                name.as_str(),
                render_name.as_str(),
            ) {
                push_key_if(&mut keys, name.as_str(), entry.ino);
            }
        }
        assert(keys@ =~= before + drm_entry_keys(render, card, *entry));
        assert(entries@.take(i + 1).drop_last() =~= entries@.take(i as int));
        i = i + 1;
    }
    assert(entries@.take(i as int) =~= entries@);
    Ok(keys)
}

/// A sensor of a PCI device.
#[derive(Clone, Debug)]
pub struct HwmonEntry {
    /// Its name, where it is UTF-8.
    pub name: Option<String>,
    /// Its inode number in the device's directory, where it could be read.
    pub device: Option<u64>,
    /// What stands under its name among all sensors, where something does.
    pub class: Option<LinkProbe>,
}

/// The keys of one sensor: in the device's directory, then among all sensors, with the link
/// followed and not.
pub open spec fn hwmon_entry_keys(entry: HwmonEntry) -> Seq<InodeKey> {
    match entry.name {
        Some(name) => key_if(name@, entry.device) + match entry.class {
            Some(class) => key_if(name@, class.target) + key_if(name@, class.link),
            None => Seq::empty(),
        },
        None => Seq::empty(),
    }
}

/// The keys of sensors, in order.
pub open spec fn hwmon_keys(entries: Seq<HwmonEntry>) -> Seq<InodeKey>
    decreases entries.len(),
{
    if entries.len() == 0 {
        Seq::empty()
    } else {
        hwmon_keys(entries.drop_last()) + hwmon_entry_keys(entries.last())
    }
}

/// The keys of a PCI device's sensors, from what was read at [`hwmon_dir`] and
/// [`hwmon_class_path`].
pub fn sys_hwmon(listing: &Result<Vec<HwmonEntry>, String>) -> (keys: Result<Vec<InodeKey>, String>)
    ensures
        match *listing {
            Ok(entries) => keys matches Ok(k) && k@ == hwmon_keys(entries@),
            Err(err) => keys == Err::<Vec<InodeKey>, String>(err),
        },
{
    let entries = match listing {
        Ok(entries) => entries,
        Err(err) => {
            return Err(err.clone());
        },
    };
    let mut keys: Vec<InodeKey> = Vec::new();
    let mut i: usize = 0;
    while i < entries.len()
        invariant
            i <= entries@.len(),
            keys@ == hwmon_keys(entries@.take(i as int)),
        decreases entries.len() - i,
    {
        let ghost before = keys@;
        let entry = &entries[i];
        if let Some(name) = &entry.name {
            push_key_if(&mut keys, name.as_str(), entry.device);
            if let Some(class) = entry.class {
                push_key_if(&mut keys, name.as_str(), class.target);
                push_key_if(&mut keys, name.as_str(), class.link);
            }
        }
        assert(keys@ =~= before + hwmon_entry_keys(*entry));
        assert(entries@.take(i + 1).drop_last() =~= entries@.take(i as int));
        i = i + 1;
    }
    assert(entries@.take(i as int) =~= entries@);
    Ok(keys)
}

/// A file that a directory of Vulkan drivers lists.
#[derive(Clone, Debug)]
pub struct IcdEntry {
    /// Its name, where it is UTF-8.
    pub name: Option<String>,
    /// Its inode number, where it is a regular file and the number could be read.
    pub file: Option<u64>,
}

/// The directories of Vulkan drivers.
pub fn vulkan_paths() -> (paths: Vec<&'static str>)
    ensures
        paths@.len() == 4,
        paths@[0]@ == "/run/opengl-driver/share/vulkan/icd.d/"@,
        paths@[1]@ == "/run/opengl-driver-32/share/vulkan/icd.d/"@,
        paths@[2]@ == "/etc/vulkan/icd.d/"@,
        paths@[3]@ == "/usr/share/vulkan/icd.d/"@,
{
    let mut paths: Vec<&'static str> = Vec::new();
    // NixOS
    paths.push("/run/opengl-driver/share/vulkan/icd.d/");
    paths.push("/run/opengl-driver-32/share/vulkan/icd.d/");
    // Standard Linux
    paths.push("/etc/vulkan/icd.d/");
    paths.push("/usr/share/vulkan/icd.d/");
    paths
}

/// The names of NVIDIA's Vulkan drivers.
pub open spec fn is_nvidia_icd(name: Seq<char>) -> bool {
    name == "nvidia_icd.json"@ || name == "nvidia_icd.x86_64.json"@ || name
        == "nvidia_icd.i686.json"@
}

/// The key of one file in a directory of Vulkan drivers, if it is one of NVIDIA's.
pub open spec fn icd_entry_keys(entry: IcdEntry) -> Seq<InodeKey> {
    match entry.name {
        Some(name) => if is_nvidia_icd(name@) {
            key_if(name@, entry.file)
        } else {
            Seq::empty()
        },
        None => Seq::empty(),
    }
}

/// The keys of NVIDIA's drivers in one directory.
pub open spec fn icd_keys(entries: Seq<IcdEntry>) -> Seq<InodeKey>
    decreases entries.len(),
{
    if entries.len() == 0 {
        Seq::empty()
    } else {
        icd_keys(entries.drop_last()) + icd_entry_keys(entries.last())
    }
}

/// The keys of NVIDIA's drivers in several directories. One that cannot be read is passed over.
pub open spec fn icd_dirs_keys(dirs: Seq<Option<Vec<IcdEntry>>>) -> Seq<InodeKey>
    decreases dirs.len(),
{
    if dirs.len() == 0 {
        Seq::empty()
    } else {
        icd_dirs_keys(dirs.drop_last()) + match dirs.last() {
            Some(entries) => icd_keys(entries@),
            None => Seq::empty(),
        }
    }
}

fn push_icd_keys(keys: &mut Vec<InodeKey>, entries: &Vec<IcdEntry>)
    ensures
        final(keys)@ == old(keys)@ + icd_keys(entries@),
{
    let ghost start = keys@;
    let mut i: usize = 0;
    assert(keys@ =~= start + icd_keys(entries@.take(0)));
    while i < entries.len()
        invariant
            i <= entries@.len(),
            keys@ == start + icd_keys(entries@.take(i as int)),
        decreases entries.len() - i,
    {
        let ghost before = keys@;
        let entry = &entries[i];
        if let Some(name) = &entry.name {
            if same_text(name.as_str(), "nvidia_icd.json") || same_text(
                name.as_str(),
                "nvidia_icd.x86_64.json",
            ) || same_text(name.as_str(), "nvidia_icd.i686.json") {
                push_key_if(keys, name.as_str(), entry.file);
            }
        }
        assert(keys@ =~= before + icd_entry_keys(*entry));
        assert(entries@.take(i + 1).drop_last() =~= entries@.take(i as int));
        assert(keys@ =~= start + icd_keys(entries@.take(i + 1)));
        i = i + 1;
    }
    assert(entries@.take(i as int) =~= entries@);
}

/// The keys of the files that all NVIDIA devices share: the control node, and the Vulkan drivers
/// in the directories of [`vulkan_paths`].
pub fn exp_nvidia_inodes(nvidiactl: Option<u64>, dirs: &Vec<Option<Vec<IcdEntry>>>) -> (keys: Vec<
    InodeKey,
>)
    ensures
        keys@ == key_if("nvidiactl"@, nvidiactl) + icd_dirs_keys(dirs@),
{
    let mut keys: Vec<InodeKey> = Vec::new();
    push_key_if(&mut keys, "nvidiactl", nvidiactl);
    let ghost start = key_if("nvidiactl"@, nvidiactl);
    assert(keys@ =~= start + icd_dirs_keys(dirs@.take(0)));
    let mut i: usize = 0;
    while i < dirs.len()
        invariant
            i <= dirs@.len(),
            keys@ == start + icd_dirs_keys(dirs@.take(i as int)),
        decreases dirs.len() - i,
    {
        if let Some(entries) = &dirs[i] {
            push_icd_keys(&mut keys, entries);
        }
        assert(dirs@.take(i + 1).drop_last() =~= dirs@.take(i as int));
        assert(keys@ =~= start + icd_dirs_keys(dirs@.take(i + 1)));
        i = i + 1;
    }
    assert(dirs@.take(i as int) =~= dirs@);
    keys
}

/// What was read of the file system for a GPU.
#[derive(Debug)]
pub struct InodeProbes {
    /// At [`card_path`].
    pub card: Result<u64, String>,
    /// At [`render_path`].
    pub render: Result<u64, String>,
    /// For each of [`pci_addresses`].
    pub pci: Vec<LinkProbe>,
    /// In `/sys/class/drm`.
    pub drm: Result<Vec<DrmEntry>, String>,
    /// At [`hwmon_dir`].
    pub hwmon: Result<Vec<HwmonEntry>, String>,
    /// At [`nvidia_path`].
    pub nvidia: Result<u64, String>,
    /// At [`backlight_path`].
    pub backlight: Result<u64, String>,
}

/// The keys that an NVIDIA device adds: its node and, where there is one, its backlight.
pub open spec fn nvidia_keys(nvidia_minor: Option<u32>, probes: InodeProbes) -> Seq<InodeKey> {
    match nvidia_minor {
        Some(minor) => seq![node_key("nvidia"@, minor, probes.nvidia)->Ok_0]
            + match probes.backlight {
            Ok(_) => seq![node_key("nvidia_"@, minor, probes.backlight)->Ok_0],
            Err(_) => Seq::empty(),
        },
        None => Seq::empty(),
    }
}

/// The error that keeps a GPU's entries from being known: the first of those of the card node,
/// the render node, `/sys/class/drm` and the NVIDIA node. A GPU need not have sensors nor a
/// backlight.
pub open spec fn inodes_error(nvidia_minor: Option<u32>, probes: InodeProbes) -> Option<String> {
    if probes.card is Err {
        Some(probes.card->Err_0)
    } else if probes.render is Err {
        Some(probes.render->Err_0)
    } else if probes.drm is Err {
        Some(probes.drm->Err_0)
    } else if nvidia_minor is Some && probes.nvidia is Err {
        Some(probes.nvidia->Err_0)
    } else {
        None
    }
}

/// The keys of all entries of a GPU, where they can be known.
pub open spec fn gpu_keys(
    render: u32,
    card: u32,
    addresses: Seq<Seq<char>>,
    nvidia_minor: Option<u32>,
    probes: InodeProbes,
) -> Seq<InodeKey> {
    seq![
        node_key("card"@, card, probes.card)->Ok_0,
        node_key("renderD"@, render, probes.render)->Ok_0,
    ] + pci_keys(addresses, probes.pci@) + drm_keys(render, card, probes.drm->Ok_0@)
        + match probes.hwmon {
        Ok(entries) => hwmon_keys(entries@),
        Err(_) => Seq::empty(),
    } + nvidia_keys(nvidia_minor, probes)
}

/// The keys of all entries of a GPU, from what was read of the file system.
pub fn get_inodes(
    render: u32,
    card: u32,
    pci: &str,
    parent_pci: &Option<String>,
    pci_list: &PciList,
    nvidia_minor: Option<u32>,
    probes: &InodeProbes,
) -> (keys: Result<Vec<InodeKey>, String>)
    requires
        pci_list.wf(),
        walk_is_finite(pci_list@, address_of(*parent_pci)),
    ensures
        match inodes_error(nvidia_minor, *probes) {
            Some(err) => keys == Err::<Vec<InodeKey>, String>(err),
            None => keys matches Ok(k) && k@ == gpu_keys(
                render,
                card,
                gpu_addresses(pci@, address_of(*parent_pci), pci_list@),
                nvidia_minor,
                *probes,
            ),
        },
{
    let mut total: Vec<InodeKey> = Vec::new();
    match card_to_inode(card, &probes.card) {
        Ok(key) => total.push(key),
        Err(err) => {
            return Err(err);
        },
    }
    match render_to_inode(render, &probes.render) {
        Ok(key) => total.push(key),
        Err(err) => {
            return Err(err);
        },
    }
    let mut devices = pci_to_inode(pci, parent_pci, pci_list, &probes.pci);
    total.append(&mut devices);
    match sys_drm_inodes(render, card, &probes.drm) {
        Ok(mut keys) => {
            total.append(&mut keys);
        },
        Err(err) => {
            return Err(err);
        },
    }
    // Not an error: the GPU of a virtual machine has no sensors.
    if let Ok(mut keys) = sys_hwmon(&probes.hwmon) {
        total.append(&mut keys);
    }
    let ghost common = total@;
    if let Some(minor) = nvidia_minor {
        match nvidia_to_inode(minor, &probes.nvidia) {
            Ok(key) => total.push(key),
            Err(err) => {
                return Err(err);
            },
        }
        // Not an error either.
        if let Ok(key) = backlight_to_inode(minor, &probes.backlight) {
            total.push(key);
        }
    }
    assert(total@ =~= common + nvidia_keys(nvidia_minor, *probes));
    assert(total@ =~= gpu_keys(
        render,
        card,
        gpu_addresses(pci@, address_of(*parent_pci), pci_list@),
        nvidia_minor,
        *probes,
    ));
    Ok(total)
}

} // verus!
