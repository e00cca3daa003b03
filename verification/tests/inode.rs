use cardwire::inode::{
    backlight_path, card_path, exp_nvidia_inodes, get_inodes, hwmon_class_path, hwmon_dir,
    nvidia_path, pci_addresses, pci_path, pci_to_inode, render_path, single_pci_to_inode,
    sys_drm_inodes, sys_hwmon, vulkan_paths, DrmEntry, HwmonEntry, IcdEntry, InodeProbes,
    LinkProbe,
};
use cardwire::keys::InodeKey;
use cardwire::pci::{ancestry_is_finite, lists_agree, PciList};
use cardwire::types::PciDevice;

fn bus() -> PciList {
    let mut list = PciList::new();
    for (address, parent) in [
        ("0000:00:01.0", None),
        ("0000:01:00.0", Some("0000:00:01.0")),
        ("0000:02:00.0", Some("0000:01:00.0")),
    ] {
        list.insert(
            address.to_string(),
            PciDevice {
                pci_address: address.to_string(),
                parent_pci: parent.map(|parent| parent.to_string()),
                details: String::new(),
            },
        );
    }
    list
}

fn found(target: u64, link: u64) -> LinkProbe {
    LinkProbe { target: Some(target), link: Some(link) }
}

fn drm(name: &str, ino: u64) -> DrmEntry {
    DrmEntry { name: Some(name.to_string()), ino: Some(ino) }
}

fn read_probes() -> InodeProbes {
    InodeProbes {
        card: Ok(10),
        render: Ok(11),
        pci: vec![found(20, 21), found(22, 23), found(24, 25), LinkProbe { target: None, link: Some(26) }],
        drm: Ok(vec![drm("card1", 30), drm("card0", 31), drm("renderD129", 32)]),
        hwmon: Ok(vec![HwmonEntry {
            name: Some("hwmon4".to_string()),
            device: Some(40),
            class: Some(found(41, 42)),
        }]),
        nvidia: Ok(50),
        backlight: Ok(51),
    }
}

fn read_keys(minor: Option<u32>, probes: &InodeProbes) -> Result<Vec<InodeKey>, String> {
    get_inodes(129, 1, "0000:02:00.0", &Some("0000:01:00.0".to_string()), &bus(), minor, probes)
}

#[test]
fn paths_are_those_of_the_kernel() {
    assert_eq!(card_path(1), "/dev/dri/card1");
    assert_eq!(render_path(128), "/dev/dri/renderD128");
    assert_eq!(nvidia_path(0), "/dev/nvidia0");
    assert_eq!(backlight_path(0), "/sys/class/backlight/nvidia_0");
    assert_eq!(pci_path("0000:01:00.0"), "/sys/bus/pci/devices/0000:01:00.0");
    assert_eq!(hwmon_dir("0000:01:00.0"), "/sys/bus/pci/devices/0000:01:00.0/hwmon");
    assert_eq!(hwmon_class_path("hwmon4"), "/sys/class/hwmon/hwmon4");
    assert_eq!(
        vulkan_paths(),
        [
            "/run/opengl-driver/share/vulkan/icd.d/",
            "/run/opengl-driver-32/share/vulkan/icd.d/",
            "/etc/vulkan/icd.d/",
            "/usr/share/vulkan/icd.d/",
        ]
    );
}

#[test]
fn devices_are_walked_up_to_the_root() {
    assert_eq!(
        pci_addresses("0000:02:00.0", &Some("0000:01:00.0".to_string()), &bus()),
        ["0000:02:00.0", "0000:02:00.1", "0000:01:00.0", "0000:00:01.0"]
    );
    assert_eq!(
        pci_addresses("0000:09:00.0", &Some("0000:08:00.0".to_string()), &bus()),
        ["0000:09:00.0", "0000:09:00.1"]
    );
    assert_eq!(pci_addresses("0000:09:00.0", &None, &bus()), ["0000:09:00.0", "0000:09:00.1"]);
}

#[test]
fn walks_that_do_not_end_are_recognised() {
    let mut list = bus();
    assert!(ancestry_is_finite(&Some("0000:02:00.0".to_string()), &list));
    assert!(ancestry_is_finite(&None, &list));
    list.insert(
        "0000:00:01.0".to_string(),
        PciDevice {
            pci_address: "0000:00:01.0".to_string(),
            parent_pci: Some("0000:02:00.0".to_string()),
            details: String::new(),
        },
    );
    assert!(!ancestry_is_finite(&Some("0000:02:00.0".to_string()), &list));
}

#[test]
fn pci_keys_hold_device_and_link() {
    let keys = pci_to_inode(
        "0000:02:00.0",
        &Some("0000:00:01.0".to_string()),
        &bus(),
        &vec![found(1, 2), LinkProbe { target: None, link: None }, found(3, 4)],
    );
    assert_eq!(
        keys,
        [
            InodeKey::new("0000:02:00.0", 1),
            InodeKey::new("0000:02:00.0", 2),
            InodeKey::new("0000:00:01.0", 3),
            InodeKey::new("0000:00:01.0", 4),
        ]
    );
}

#[test]
fn all_entries_of_a_gpu_are_collected_in_order() {
    let keys = read_keys(Some(0), &read_probes()).unwrap();
    assert_eq!(
        keys,
        [
            InodeKey::new("card1", 10),
            InodeKey::new("renderD129", 11),
            InodeKey::new("0000:02:00.0", 20),
            InodeKey::new("0000:02:00.0", 21),
            InodeKey::new("0000:02:00.1", 22),
            InodeKey::new("0000:02:00.1", 23),
            InodeKey::new("0000:01:00.0", 24),
            InodeKey::new("0000:01:00.0", 25),
            InodeKey::new("0000:00:01.0", 26),
            InodeKey::new("card1", 30),
            InodeKey::new("renderD129", 32),
            InodeKey::new("hwmon4", 40),
            InodeKey::new("hwmon4", 41),
            InodeKey::new("hwmon4", 42),
            InodeKey::new("nvidia0", 50),
            InodeKey::new("nvidia_0", 51),
        ]
    );
    assert_eq!(read_keys(None, &read_probes()).unwrap().len(), 14);
}

#[test]
fn sensors_and_backlight_may_be_missing() {
    let mut probes = read_probes();
    probes.hwmon = Err("no sensors".to_string());
    probes.backlight = Err("no backlight".to_string());
    let keys = read_keys(Some(0), &probes).unwrap();
    assert_eq!(keys.len(), 12);
    assert_eq!(keys[11], InodeKey::new("nvidia0", 50));
}

#[test]
fn first_error_of_a_needed_entry_counts() {
    let mut probes = read_probes();
    probes.nvidia = Err("nvidia".to_string());
    assert_eq!(read_keys(Some(0), &probes).unwrap_err(), "nvidia");
    assert!(read_keys(None, &probes).is_ok());
    probes.drm = Err("drm".to_string());
    assert_eq!(read_keys(Some(0), &probes).unwrap_err(), "drm");
    probes.render = Err("render".to_string());
    assert_eq!(read_keys(Some(0), &probes).unwrap_err(), "render");
    probes.card = Err("card".to_string());
    assert_eq!(read_keys(Some(0), &probes).unwrap_err(), "card");
}

#[test]
fn drm_entries_belong_by_name() {
    let entries = Ok(vec![
        drm("card1-DP-1", 1),
        drm("card0-eDP-1", 2),
        drm("renderD128", 3),
        DrmEntry { name: None, ino: Some(4) },
        DrmEntry { name: Some("card1".to_string()), ino: None },
        drm("card10", 5),
    ]);
    assert_eq!(
        sys_drm_inodes(128, 1, &entries).unwrap(),
        [InodeKey::new("card1-DP-1", 1), InodeKey::new("renderD128", 3), InodeKey::new("card10", 5)]
    );
    assert_eq!(sys_drm_inodes(128, 1, &Err("gone".to_string())).unwrap_err(), "gone");
}

#[test]
fn sensors_without_a_class_entry_keep_their_own() {
    let entries = Ok(vec![
        HwmonEntry { name: Some("hwmon1".to_string()), device: Some(1), class: None },
        HwmonEntry { name: None, device: Some(2), class: Some(found(3, 4)) },
    ]);
    assert_eq!(sys_hwmon(&entries).unwrap(), [InodeKey::new("hwmon1", 1)]);
    assert!(sys_hwmon(&Err("gone".to_string())).is_err());
}

#[test]
fn shared_nvidia_files_are_collected() {
    let icd = |name: &str, file| IcdEntry { name: Some(name.to_string()), file };
    let dirs = vec![
        None,
        Some(vec![icd("nvidia_icd.json", Some(2)), icd("radeon_icd.x86_64.json", Some(3))]),
        Some(vec![icd("nvidia_icd.i686.json", Some(4)), icd("nvidia_icd.x86_64.json", None)]),
    ];
    assert_eq!(
        exp_nvidia_inodes(Some(1), &dirs),
        [
            InodeKey::new("nvidiactl", 1),
            InodeKey::new("nvidia_icd.json", 2),
            InodeKey::new("nvidia_icd.i686.json", 4),
        ]
    );
    assert!(exp_nvidia_inodes(None, &vec![]).is_empty());
}

#[test]
fn single_device_has_a_single_key() {
    assert_eq!(single_pci_to_inode("0000:01:00.0", &Ok(5)), Ok(InodeKey::new("0000:01:00.0", 5)));
    assert_eq!(single_pci_to_inode("x", &Err("gone".to_string())), Err("gone".to_string()));
}

#[test]
fn device_lists_are_compared_by_contents() {
    assert!(lists_agree(&bus(), &bus()));
    let mut other = bus();
    other.insert(
        "0000:05:00.0".to_string(),
        PciDevice { pci_address: "0000:05:00.0".to_string(), parent_pci: None, details: String::new() },
    );
    assert!(!lists_agree(&bus(), &other));
    assert!(!lists_agree(&other, &bus()));
    let mut moved = bus();
    moved.insert(
        "0000:02:00.0".to_string(),
        PciDevice { pci_address: "0000:02:00.0".to_string(), parent_pci: None, details: String::new() },
    );
    assert!(!lists_agree(&bus(), &moved));
    assert_eq!(moved.len(), 3);
}
