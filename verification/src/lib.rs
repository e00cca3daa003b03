//! Cardwire keeps processes away from GPUs that they should not wake.
//!
//! A kernel side, in eBPF, refuses entries of the file system that belong to a GPU, and hides them
//! from directory listings. A daemon tells it which entries those are, and for whom. This crate
//! holds what both decide:
//!
//! - [`keys`], [`maps`]: what the two sides share.
//! - [`helpers`], [`dirent`]: the decisions of the kernel side.
//! - [`loader`], [`blocker`]: bringing up the kernel side, and writing to it.
//! - [`pci`], [`inode`]: the entries that belong to a GPU.
//! - [`gpu`], [`mode`], [`debug`], [`manager`], [`roster`]: the daemon.
//! - [`powerd`]: the power daemon of the NVIDIA driver.
//!
//! Nothing here reads a file or talks to the kernel. Functions that need something from outside
//! say what they need next, and are called again with it; functions that change something outside
//! return the writes that change it. The modules whose names end in `laws` prove what every answer
//! of these functions keeps to and, on a model of the kernel's maps, [`maps::KernelMaps`], what the
//! writes amount to.
pub mod blocker;
pub mod blocker_laws;
pub mod debug;
pub mod dirent;
pub mod dirent_laws;
pub mod errors;
pub mod gpu;
pub mod gpu_laws;
pub mod helpers;
pub mod inode;
pub mod inode_laws;
pub mod keys;
pub mod listing;
pub mod loader;
pub mod manager;
pub mod maps;
pub mod mode;
pub mod mode_laws;
pub mod order;
pub mod pci;
pub mod powerd;
pub mod powerd_laws;
pub mod refresh_laws;
pub mod roster;
pub mod roster_laws;
pub mod startup_laws;
pub mod state;
pub mod text;
pub mod types;
