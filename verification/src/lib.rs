//! The logic of the HepOS kernel: the shell, the editor, the window manager,
//! the drivers' protocols and the memory managers, as verified functions.
//! What touches the machine stays outside: the functions here take what was
//! read and say what is to be written.
pub mod text;
pub mod display;
pub mod ps2;
pub mod editor;
pub mod editor_laws;
pub mod complete;
pub mod desktop;
pub mod desktop_laws;
pub mod rtc;
pub mod screen;
pub mod shell;
pub mod pci;
pub mod nic;
pub mod protocol;
pub mod terminal;
pub mod terminal_laws;
pub mod terminal_run;
pub mod command_laws;
pub mod labels;
pub mod nav;
pub mod panels;
pub mod session;
pub mod frame;
pub mod session_laws;
pub mod apic;
pub mod boot;
pub mod acpi;
pub mod gdt;
pub mod mouse;
pub mod serial;
pub mod vmm;
pub mod heap;
pub mod heap_laws;
pub mod paging;
pub mod paging_laws;
pub mod process;
pub mod bytes;
pub mod e1000;
pub mod rtl8139;
pub mod virtio_net;
pub mod xhci;
pub mod xhci_laws;
