# hepos

The logic of HepOS, a small x86_64 kernel with a desktop: a shell, a text editor, a file
navigator, a window manager, drivers and memory managers. It is written in Rust with
contracts that Verus proves.

The library in `src/` touches no hardware. Its functions take what was read (a scancode, a
status register, a page table entry, an answer of the file system) and give back what is to
be done next: the bytes for a port, the words for a ring, the rectangles and texts of a
frame, the next request to the file system. What each of them returns is stated over
mathematical models and proved; what holds over many calls stands beside them as public
proof functions named `law_*`.

| Part | Modules |
|------|---------|
| Text and drawing | `text`, `bytes`, `display`, `labels`, `rtc` |
| Shell | `shell`, `complete`, `protocol`, `screen`, `terminal`, `terminal_laws`, `terminal_run` |
| Editor | `editor`, `editor_laws` |
| Desktop | `desktop`, `desktop_laws`, `nav`, `panels`, `session`, `frame`, `session_laws` |
| Input | `ps2`, `mouse`, `xhci`, `xhci_laws` |
| Network cards | `pci`, `nic`, `e1000`, `rtl8139`, `virtio_net` |
| Memory | `vmm`, `paging`, `paging_laws`, `heap`, `heap_laws`, `process` |
| Machine | `boot`, `gdt`, `apic`, `acpi`, `serial` |

`app/` is the kernel around the library: ports, registers, physical memory, inline assembly,
the boot loader's answers, and the loops that carry out what the library decides. `tests/`
runs the library on concrete values.
