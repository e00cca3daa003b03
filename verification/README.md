# cardwire

A GPU blocker: a daemon decides which GPUs a system uses, and an eBPF program keeps processes away
from the others, so that they can stay powered down.

`src/` is a library, verified with Verus, that holds every decision of the two:

| Module | What it decides |
| --- | --- |
| `keys`, `maps` | keys and values of the shared maps, and a model of what the maps hold |
| `helpers` | how the kernel side names an entry, and whom it refuses it |
| `dirent` | how entries are hidden from a directory listing |
| `loader` | in which order the kernel side is brought up, and what may fail |
| `blocker` | what is written to the kernel side, and what is remembered of it |
| `pci`, `inode` | which entries of the file system belong to a GPU |
| `gpu` | blocking a GPU, and whether it is blocked |
| `mode` | what each mode does to each GPU |
| `debug`, `roster` | keeping up with GPUs that come and go |
| `manager` | starting the daemon |
| `powerd` | the power daemon of the NVIDIA driver |
| `types`, `state`, `listing`, `order`, `text`, `errors` | what the others are made of |

The modules `dirent_laws`, `blocker_laws`, `gpu_laws`, `mode_laws` and `refresh_laws` state what
holds across functions, such as that integrated mode refuses the discrete GPU to every process, that
a scan hides nothing but refused entries, and all of those that come after a visible one, and that
every entry that was ever written can be removed again.

`app/` carries the decisions out: it loads the eBPF object, reads the file system, runs `systemctl`
and serves the D-Bus interfaces. `tests/` runs the library on concrete values.
