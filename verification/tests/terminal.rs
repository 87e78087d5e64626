use hepos::display::{Display, DrawOp};
use hepos::protocol::{
    DirEntry, NameEntry, NicRegs, PciConfig, PciLine, Reply, Request, RxState,
};
use hepos::ps2::{KEY_DOWN, KEY_UP};
use hepos::rtc::DateTime;
use hepos::terminal::{find_entry, Terminal};

/// The rows of text that the terminal shows in a window with room for `rows`.
fn rows(t: &Terminal, rows: usize) -> Vec<String> {
    let mut d = Display::new();
    t.render(&mut d, 0, 0, 4 + 30 * 19, 6 + rows * 18);
    let mut out = vec![String::new(); rows];
    for op in &d.ops {
        if let DrawOp::Text { x, y, text, .. } = op {
            let r = (y - 4) / 18;
            let c = (x - 4) / 19;
            while out[r].len() < c {
                out[r].push(' ');
            }
            out[r].push_str(text);
        }
    }
    out
}

fn fresh() -> Terminal {
    Terminal::new(7)
}

fn type_line(t: &mut Terminal, s: &str) -> Request {
    for c in s.chars() {
        assert!(matches!(t.on_key(c), Request::Done));
    }
    assert!(t.can_enter());
    t.on_key('\n')
}

fn last(t: &Terminal, n: usize) -> Vec<String> {
    let r = rows(t, 60);
    let used = r.iter().rposition(|l| !l.is_empty()).unwrap() + 1;
    r[used - n..used].to_vec()
}

#[test]
fn greeting_and_prompt() {
    let t = fresh();
    let r = rows(&t, 5);
    assert_eq!(r[0], "HepOS Terminal v0.1");
    assert_eq!(r[1], "Type 'help' for commands");
    assert_eq!(r[3], "/ $");
    assert!(t.is_idle());
    assert!(t.is_dirty());
}

#[test]
fn unknown_command() {
    let mut t = fresh();
    assert!(matches!(type_line(&mut t, "frob x"), Request::Done));
    assert_eq!(last(&t, 3), vec!["frob: command not found  (try", "'help')", "/ $"]);
}

#[test]
fn echo_prints_its_line() {
    let mut t = fresh();
    type_line(&mut t, "echo hi  there");
    assert_eq!(last(&t, 2), vec!["hi  there", "/ $"]);
}

#[test]
fn echo_without_words() {
    let mut t = fresh();
    type_line(&mut t, "echo");
    assert_eq!(last(&t, 4), vec!["/ $ echo", "", "", "/ $"]);
}

#[test]
fn echo_prefix_takes_from_the_sixth_byte() {
    let mut t = fresh();
    type_line(&mut t, "echoes of it");
    assert_eq!(last(&t, 2), vec!["s of it", "/ $"]);
}

#[test]
fn echo_that_would_cut_a_character() {
    let mut t = fresh();
    for c in ['e', 'c', 'h', 'o', '\u{e9}', ' ', 'x'] {
        t.on_key(c);
    }
    assert!(!t.can_enter());
}

#[test]
fn pwd_and_uname() {
    let mut t = fresh();
    type_line(&mut t, "pwd");
    assert_eq!(last(&t, 2), vec!["/", "/ $"]);
    type_line(&mut t, "uname");
    assert_eq!(last(&t, 3), vec!["HepOS v0.1  x86_64 exokernel", "HepFS", "/ $"]);
}

#[test]
fn help_lists_all_commands() {
    let mut t = fresh();
    type_line(&mut t, "help");
    let r = rows(&t, 60);
    assert!(r.iter().any(|l| l == "Commands:"));
    assert!(r.iter().any(|l| l == "  clear - clear screen"));
    assert!(r.iter().any(|l| l == "  mem - memory usage"));
    assert!(r.iter().any(|l| l == "  echo <text> - print text"));
    assert!(r.iter().any(|l| l == "  cp <src> <dst> - copy file"));
    assert!(r.iter().any(|l| l == "  ping <ip> - ICMP echo"));
    assert_eq!(r.iter().filter(|l| l.starts_with("  ")).count(), 27);
}

#[test]
fn clear_empties_the_screen() {
    let mut t = fresh();
    type_line(&mut t, "clear");
    let r = rows(&t, 60);
    assert_eq!(r[0], "/ $");
    assert!(r[1..].iter().all(|l| l.is_empty()));
}

#[test]
fn ls_of_the_working_directory() {
    let mut t = fresh();
    assert!(matches!(type_line(&mut t, "ls"), Request::Listing { ino: 7 }));
    assert!(!t.is_idle());
    let r = t.on_reply(Reply::Listing(vec![
        DirEntry { name: "docs".to_string(), is_dir: true, size: 0 },
        DirEntry { name: "a.txt".to_string(), is_dir: false, size: 42 },
    ]));
    assert!(matches!(r, Request::Done));
    assert_eq!(last(&t, 3), vec!["docs/", "a.txt  (42 B)", "/ $"]);
}

#[test]
fn ls_of_an_empty_directory() {
    let mut t = fresh();
    type_line(&mut t, "ls");
    t.on_reply(Reply::Listing(vec![]));
    assert_eq!(last(&t, 2), vec!["(empty)", "/ $"]);
}

#[test]
fn ls_by_path_and_by_name() {
    let mut t = fresh();
    let r = type_line(&mut t, "ls /home");
    assert!(matches!(&r, Request::Lookup { path } if path == "/home"));
    assert!(matches!(t.on_reply(Reply::Found(Some(3))), Request::Listing { ino: 3 }));
    t.on_reply(Reply::Listing(vec![]));
    assert!(matches!(type_line(&mut t, "ls home"), Request::Names { ino: 7 }));
    let names = vec![
        NameEntry { ino: 4, name: "etc".to_string() },
        NameEntry { ino: 5, name: "home".to_string() },
    ];
    assert!(matches!(t.on_reply(Reply::Names(names)), Request::Listing { ino: 5 }));
    t.on_reply(Reply::Listing(vec![]));
    type_line(&mut t, "ls nope");
    assert!(matches!(t.on_reply(Reply::Names(vec![])), Request::Done));
    assert_eq!(last(&t, 2), vec!["ls: not found", "/ $"]);
}

#[test]
fn cd_down_and_up() {
    let mut t = fresh();
    type_line(&mut t, "cd home");
    let names = vec![NameEntry { ino: 5, name: "home".to_string() }];
    assert!(matches!(t.on_reply(Reply::Names(names)), Request::Kind { ino: 5 }));
    t.on_reply(Reply::Kind(true));
    assert_eq!(last(&t, 1), vec!["/home $"]);
    type_line(&mut t, "cd sub");
    t.on_reply(Reply::Names(vec![NameEntry { ino: 9, name: "sub".to_string() }]));
    t.on_reply(Reply::Kind(true));
    assert_eq!(last(&t, 1), vec!["/home/sub $"]);
    assert!(matches!(type_line(&mut t, "ls"), Request::Listing { ino: 9 }));
    t.on_reply(Reply::Listing(vec![]));
    let r = type_line(&mut t, "cd ..");
    assert!(matches!(&r, Request::Lookup { path } if path == "/home"));
    t.on_reply(Reply::Found(Some(5)));
    assert_eq!(last(&t, 1), vec!["/home $"]);
    type_line(&mut t, "cd /");
    assert_eq!(last(&t, 1), vec!["/ $"]);
    assert!(matches!(type_line(&mut t, "ls"), Request::Listing { ino: 7 }));
}

#[test]
fn cd_up_without_a_parent_goes_to_the_root() {
    let mut t = fresh();
    type_line(&mut t, "cd ..");
    t.on_reply(Reply::Found(None));
    assert!(matches!(type_line(&mut t, "ls"), Request::Listing { ino: 7 }));
}

#[test]
fn cd_to_a_path_from_the_root() {
    let mut t = fresh();
    type_line(&mut t, "cd etc");
    t.on_reply(Reply::Names(vec![NameEntry { ino: 5, name: "etc".to_string() }]));
    t.on_reply(Reply::Kind(true));
    let r = type_line(&mut t, "cd /home");
    assert!(matches!(&r, Request::Lookup { path } if path == "/home"));
    assert!(matches!(t.on_reply(Reply::Found(Some(6))), Request::Kind { ino: 6 }));
    t.on_reply(Reply::Kind(true));
    assert_eq!(last(&t, 1), vec!["/home $"]);
    type_line(&mut t, "pwd");
    assert_eq!(last(&t, 2), vec!["/home", "/home $"]);
    assert!(matches!(type_line(&mut t, "ls"), Request::Listing { ino: 6 }));
    t.on_reply(Reply::Listing(vec![]));
    type_line(&mut t, "cd /home/user");
    t.on_reply(Reply::Found(Some(8)));
    t.on_reply(Reply::Kind(true));
    assert_eq!(last(&t, 1), vec!["/home/user $"]);
    let r = type_line(&mut t, "cd ..");
    assert!(matches!(&r, Request::Lookup { path } if path == "/home"));
}

#[test]
fn cd_there_and_back() {
    let mut t = fresh();
    type_line(&mut t, "cd home");
    t.on_reply(Reply::Names(vec![entry(5, "home")]));
    t.on_reply(Reply::Kind(true));
    type_line(&mut t, "cd sub");
    t.on_reply(Reply::Names(vec![entry(9, "sub")]));
    t.on_reply(Reply::Kind(true));
    for (path, ino, prompt) in [("/home", 5, "/home $"), ("/", 7, "/ $")] {
        let r = type_line(&mut t, "cd ..");
        assert!(matches!(&r, Request::Lookup { path: p } if p == path));
        assert!(matches!(t.on_reply(Reply::Found(Some(ino))), Request::Done));
        assert_eq!(last(&t, 1), vec![prompt]);
        assert!(matches!(type_line(&mut t, "ls"), Request::Listing { ino: i } if i == ino));
        t.on_reply(Reply::Listing(vec![]));
    }
}

#[test]
fn only_the_awaited_reply_is_accepted() {
    let mut t = fresh();
    assert!(!t.accepts(&Reply::Done));
    type_line(&mut t, "touch a");
    assert!(t.accepts(&Reply::Created(3)));
    assert!(!t.accepts(&Reply::Done));
    assert!(!t.accepts(&Reply::Found(None)));
    t.on_reply(Reply::Created(3));
    assert!(t.is_idle());
    assert!(!t.accepts(&Reply::Created(3)));
    type_line(&mut t, "cd home");
    assert!(t.accepts(&Reply::Names(vec![])));
    assert!(!t.accepts(&Reply::Kind(true)));
    t.on_reply(Reply::Names(vec![entry(5, "home")]));
    assert!(t.accepts(&Reply::Kind(true)));
    assert!(!t.accepts(&Reply::Names(vec![])));
}

#[test]
fn any_run_of_keys_leaves_a_shell_that_works() {
    let mut t = fresh();
    let mut seed: u32 = 12345;
    for _ in 0..5000 {
        seed = seed.wrapping_mul(1103515245).wrapping_add(12345);
        let c = match (seed >> 16) % 40 {
            0 => '\t',
            1 => '\u{8}',
            2 => '\u{1}',
            3 => '\u{5}',
            4 => KEY_UP as char,
            5 => KEY_DOWN as char,
            6 => '\u{c}',
            7 => '\u{3}',
            8 if t.can_enter() => '\n',
            k => char::from(b'a' + (k % 26) as u8),
        };
        match t.on_key(c) {
            Request::Names { .. } => t.on_reply(Reply::Names(vec![])),
            Request::Listing { .. } => t.on_reply(Reply::Listing(vec![])),
            r => r,
        };
        assert!(t.is_idle());
        assert!(rows(&t, 30).iter().all(|r| r.chars().count() <= 30));
    }
    t.on_key('\u{3}');
    assert!(matches!(type_line(&mut t, "pwd"), Request::Done));
    assert_eq!(last(&t, 2), vec!["/", "/ $"]);
}

#[test]
fn cd_refused() {
    let mut t = fresh();
    type_line(&mut t, "cd f");
    t.on_reply(Reply::Names(vec![NameEntry { ino: 5, name: "f".to_string() }]));
    t.on_reply(Reply::Kind(false));
    assert_eq!(last(&t, 2), vec!["cd: not a directory", "/ $"]);
    type_line(&mut t, "cd g");
    t.on_reply(Reply::Names(vec![]));
    assert_eq!(last(&t, 2), vec!["cd: not found", "/ $"]);
}

#[test]
fn cat_of_text() {
    let mut t = fresh();
    type_line(&mut t, "cat f");
    let r = t.on_reply(Reply::Names(vec![NameEntry { ino: 5, name: "f".to_string() }]));
    assert!(matches!(r, Request::Read { ino: 5 }));
    t.on_reply(Reply::Data(b"one\ntwo\n".to_vec()));
    assert_eq!(last(&t, 3), vec!["one", "two", "/ $"]);
}

#[test]
fn cat_adds_a_newline() {
    let mut t = fresh();
    type_line(&mut t, "cat /f");
    t.on_reply(Reply::Found(Some(2)));
    t.on_reply(Reply::Data(b"end".to_vec()));
    assert_eq!(last(&t, 2), vec!["end", "/ $"]);
}

#[test]
fn cat_of_bytes_that_are_no_text() {
    // 0xFF is replaced by U+FFFD, whose low byte 0xFD shows as a question mark
    let mut t = fresh();
    type_line(&mut t, "cat /f");
    t.on_reply(Reply::Found(Some(2)));
    t.on_reply(Reply::Data(vec![b'a', 0xFF, b'b']));
    assert_eq!(last(&t, 2), vec!["a?b", "/ $"]);
}

#[test]
fn cat_and_others_without_a_name() {
    let mut t = fresh();
    for (cmd, usage) in [
        ("cat", "usage: cat <file>"),
        ("mkdir", "usage: mkdir <name>"),
        ("touch", "usage: touch <name>"),
        ("rm", "usage: rm <name>"),
        ("write", "usage: write <file> <content>"),
        ("write f", "usage: write <file> <content>"),
        ("ping", "usage: ping <ip>"),
        ("edit", "usage: edit <file>"),
    ] {
        assert!(matches!(type_line(&mut t, cmd), Request::Done));
        assert_eq!(last(&t, 2), vec![usage, "/ $"]);
    }
    type_line(&mut t, "cat x");
    t.on_reply(Reply::Names(vec![]));
    assert_eq!(last(&t, 2), vec!["cat: not found", "/ $"]);
}

#[test]
fn making_and_removing() {
    let mut t = fresh();
    let r = type_line(&mut t, "mkdir d");
    assert!(matches!(&r, Request::CreateDir { parent: 7, name } if name == "d"));
    t.on_reply(Reply::Done);
    assert_eq!(last(&t, 2), vec!["created", "/ $"]);
    let r = type_line(&mut t, "touch f");
    assert!(matches!(&r, Request::CreateFile { parent: 7, name } if name == "f"));
    assert!(!t.accepts(&Reply::Done) && t.accepts(&Reply::Created(4)));
    t.on_reply(Reply::Created(4));
    assert_eq!(last(&t, 2), vec!["created", "/ $"]);
    let r = type_line(&mut t, "rm f");
    assert!(matches!(&r, Request::Remove { parent: 7, name } if name == "f"));
    t.on_reply(Reply::Removed(true));
    assert_eq!(last(&t, 2), vec!["removed", "/ $"]);
    type_line(&mut t, "rm f");
    t.on_reply(Reply::Removed(false));
    assert_eq!(last(&t, 3), vec!["rm: failed (not found or dir n", "ot empty)", "/ $"]);
}

#[test]
fn write_to_a_new_file() {
    let mut t = fresh();
    type_line(&mut t, "write f two words");
    let r = t.on_reply(Reply::Names(vec![]));
    assert!(matches!(&r, Request::CreateFile { parent: 7, name } if name == "f"));
    let r = t.on_reply(Reply::Created(11));
    assert!(matches!(&r, Request::Write { ino: 11, data } if data == b"two words"));
    t.on_reply(Reply::Done);
    assert_eq!(last(&t, 2), vec!["written", "/ $"]);
}

#[test]
fn write_to_an_existing_file() {
    let mut t = fresh();
    type_line(&mut t, "write f x");
    let r = t.on_reply(Reply::Names(vec![NameEntry { ino: 6, name: "f".to_string() }]));
    assert!(matches!(&r, Request::Write { ino: 6, data } if data == b"x"));
}

#[test]
fn what_was_written_is_what_cat_shows() {
    let mut t = fresh();
    type_line(&mut t, "write f some text");
    let data = match t.on_reply(Reply::Names(vec![NameEntry { ino: 6, name: "f".to_string() }])) {
        Request::Write { data, .. } => data,
        _ => unreachable!(),
    };
    t.on_reply(Reply::Done);
    type_line(&mut t, "cat f");
    t.on_reply(Reply::Names(vec![NameEntry { ino: 6, name: "f".to_string() }]));
    t.on_reply(Reply::Data(data));
    assert_eq!(last(&t, 2), vec!["some text", "/ $"]);
}

#[test]
fn date_and_memory() {
    let mut t = fresh();
    assert!(matches!(type_line(&mut t, "date"), Request::Clock));
    t.on_reply(Reply::Clock(DateTime { hour: 9, min: 5, sec: 0, day: 3, month: 11, year: 2026 }));
    assert_eq!(last(&t, 2), vec!["2026-11-03  09:05", "/ $"]);
    assert!(matches!(type_line(&mut t, "mem"), Request::Memory));
    t.on_reply(Reply::Pages { free: 100, total: 250 });
    assert_eq!(last(&t, 3), vec!["RAM: 400 KB free / 1000 KB tot", "al", "/ $"]);
}

#[test]
fn sysinfo_shows_megabytes() {
    let mut t = fresh();
    assert!(matches!(type_line(&mut t, "sysinfo"), Request::Memory));
    t.on_reply(Reply::Pages { free: 25600, total: 65536 });
    let r = rows(&t, 60);
    assert!(r.iter().any(|l| l == "=== HepOS Kernel Info ==="));
    assert!(r.iter().any(|l| l == "Kernel:    HepOS v0.1"));
    assert!(r.iter().any(|l| l == "RAM:       100 MB free / 256 M"));
}

#[test]
fn history_goes_up_and_down() {
    let mut t = fresh();
    type_line(&mut t, "pwd");
    type_line(&mut t, "uname");
    t.on_key(KEY_UP as char);
    assert_eq!(last(&t, 1), vec!["/ $ uname"]);
    t.on_key(KEY_UP as char);
    assert_eq!(last(&t, 1), vec!["/ $ pwd"]);
    t.on_key(KEY_UP as char);
    assert_eq!(last(&t, 1), vec!["/ $ pwd"]);
    t.on_key(KEY_DOWN as char);
    assert_eq!(last(&t, 1), vec!["/ $ uname"]);
    t.on_key(KEY_DOWN as char);
    assert_eq!(last(&t, 1), vec!["/ $"]);
    t.on_key('\u{10}');
    assert!(matches!(t.on_key('\n'), Request::Done));
    assert_eq!(last(&t, 3), vec!["HepOS v0.1  x86_64 exokernel", "HepFS", "/ $"]);
}

#[test]
fn history_lists_its_commands() {
    let mut t = fresh();
    type_line(&mut t, "pwd");
    type_line(&mut t, "   ");
    type_line(&mut t, "history");
    assert_eq!(last(&t, 3), vec!["  1  pwd", "  2  history", "/ $"]);
}

#[test]
fn history_keeps_fifty() {
    let mut t = fresh();
    type_line(&mut t, "pwd");
    for _ in 0..50 {
        type_line(&mut t, "x");
    }
    for _ in 0..60 {
        t.on_key(KEY_UP as char);
    }
    assert_eq!(last(&t, 1), vec!["/ $ x"]);
}

#[test]
fn backspace_and_cancel() {
    let mut t = fresh();
    t.on_key('p');
    t.on_key('x');
    t.on_key('\u{8}');
    t.on_key('w');
    t.on_key('d');
    assert_eq!(last(&t, 1), vec!["/ $ pwd"]);
    t.on_key('\u{3}');
    assert_eq!(last(&t, 2), vec!["/ $ pwd^C", "/ $"]);
    assert!(matches!(t.on_key('\n'), Request::Done));
    t.on_key('\u{c}');
    assert_eq!(rows(&t, 3)[0], "/ $");
}

#[test]
fn a_line_is_at_most_28_bytes() {
    let mut t = fresh();
    for _ in 0..40 {
        t.on_key('a');
    }
    t.on_key('\n');
    let said = format!("{}:", "a".repeat(28));
    assert_eq!(
        last(&t, 4),
        vec![said.as_str(), "command not found  (try 'help'", ")", "/ $"]
    );
}

#[test]
fn ping_checks_the_address() {
    let mut t = fresh();
    assert!(matches!(type_line(&mut t, "ping 10.0.2"), Request::Done));
    assert_eq!(last(&t, 2), vec!["ping: invalid IP address", "/ $"]);
    assert!(matches!(type_line(&mut t, "ping 10.0.2.2"), Request::Ping { ip: [10, 0, 2, 2] }));
    t.on_reply(Reply::Text("pong".to_string()));
    assert_eq!(last(&t, 3), vec!["PING 10.0.2.2", "pong", "/ $"]);
    assert!(matches!(type_line(&mut t, "ping 1.x.300.4"), Request::Ping { ip: [1, 0, 0, 4] }));
}

#[test]
fn edit_gives_the_whole_path() {
    let mut t = fresh();
    let r = type_line(&mut t, "edit notes");
    assert!(matches!(&r, Request::Edit { path, name } if path == "/notes" && name == "notes"));
    t.on_reply(Reply::Done);
    assert_eq!(last(&t, 3), vec!["Editor opened  Ctrl+S=save  Ct", "rl+Q=close", "/ $"]);
}

#[test]
fn network_commands() {
    let mut t = fresh();
    assert!(matches!(type_line(&mut t, "netpoll"), Request::RxRing));
    t.on_reply(Reply::Ring(Some(vec![RxState { status: 1, len: 60 }])));
    assert_eq!(last(&t, 2), vec!["  desc[0]: status=01 len=60", "/ $"]);
    type_line(&mut t, "netpoll");
    t.on_reply(Reply::Ring(None));
    assert_eq!(last(&t, 3), vec!["NIC is None - run netstart fir", "st", "/ $"]);
    assert!(matches!(type_line(&mut t, "netstart"), Request::StartNic { bar: 0xFEBC_0000 }));
    assert!(matches!(t.on_reply(Reply::NicUp(true)), Request::Announce));
    assert!(matches!(t.on_reply(Reply::Done), Request::Done));
    type_line(&mut t, "netstart");
    assert!(matches!(t.on_reply(Reply::NicUp(false)), Request::Done));
    assert_eq!(last(&t, 2), vec!["NIC still None - check serial", "/ $"]);
}

#[test]
fn netdiag_reads_the_registers() {
    let mut t = fresh();
    assert!(matches!(
        type_line(&mut t, "netdiag"),
        Request::PciConfig { bus: 0, dev: 3, func: 0 }
    ));
    let c = PciConfig { vendor: 0x8086, device: 0x100E, command: 7, bar0: 0xFEBC_0000, bar1: 0 };
    assert!(matches!(t.on_reply(Reply::Config(c)), Request::NicRegs { phys: 0xFEBC_0000 }));
    let r = NicRegs {
        ctrl: 0x60,
        status: 2,
        ral: 0x1200_5452,
        rah: 0x8000_5634,
        up: true,
        tctl: 0x3F0FA,
        tdbal: 0,
        tdlen: 128,
        tdh: 1,
        tdt: 2,
    };
    t.on_reply(Reply::Regs(r));
    let r = rows(&t, 60);
    assert!(r.iter().any(|l| l == "00:03.0  VID:8086 DID:100E"));
    assert!(r.iter().any(|l| l == "BAR phys: 00000000FEBC0000"));
    assert!(r.iter().any(|l| l == "MAC: 52:54:00:12:34:56"));
    assert!(r.iter().any(|l| l == "e1000::NIC is SOME"));
    type_line(&mut t, "netdiag");
    let c = PciConfig { vendor: 0xFFFF, device: 0xFFFF, command: 0, bar0: 0, bar1: 0 };
    assert!(matches!(t.on_reply(Reply::Config(c)), Request::Done));
}

#[test]
fn lspci_and_ifconfig() {
    let mut t = fresh();
    type_line(&mut t, "lspci");
    t.on_reply(Reply::Devices(vec![PciLine {
        bus: 0,
        dev: 31,
        func: 2,
        vendor_id: 0x8086,
        device_id: 0x2922,
        class_name: "SATA".to_string(),
    }]));
    assert_eq!(last(&t, 2), vec!["00:1F.2 8086:2922 SATA", "/ $"]);
    type_line(&mut t, "ifconfig");
    t.on_reply(Reply::Mac(Some([0x52, 0x54, 0, 0x12, 0x34, 0x56])));
    assert_eq!(
        last(&t, 6),
        vec![
            "eth0",
            "  MAC: 52:54:00:12:34:56",
            "  IP:  10.0.2.15",
            "  GW:  10.0.2.2",
            "  Net: 255.255.255.0",
            "/ $"
        ]
    );
    type_line(&mut t, "ifconfig");
    t.on_reply(Reply::Mac(None));
    let r = rows(&t, 60);
    assert!(r.iter().any(|l| l == "eth0: NIC not initialized"));
    assert!(r.iter().any(|l| l == "  MAC: 00:00:00:00:00:00"));
}

#[test]
fn shutdown_and_reboot_stop_the_shell() {
    let mut t = fresh();
    assert!(matches!(type_line(&mut t, "shutdown"), Request::Shutdown));
    assert!(!t.is_idle());
    let mut t = fresh();
    assert!(matches!(type_line(&mut t, "reboot"), Request::Reboot));
}

#[test]
fn first_entry_of_a_name_counts() {
    let es = vec![
        NameEntry { ino: 1, name: "a".to_string() },
        NameEntry { ino: 2, name: "b".to_string() },
        NameEntry { ino: 3, name: "b".to_string() },
    ];
    assert_eq!(find_entry(&es, "b"), Some(2));
    assert_eq!(find_entry(&es, "c"), None);
}

#[test]
fn show_file_ends_with_a_newline() {
    let mut t = fresh();
    t.show_file("x");
    t.show_file("y\n");
    assert_eq!(last(&t, 2), vec!["/ $ x", "y"]);
}

fn keys(t: &mut Terminal, s: &str) -> Request {
    let mut r = Request::Done;
    for c in s.chars() {
        r = t.on_key(c);
    }
    r
}

fn entry(ino: u32, name: &str) -> NameEntry {
    NameEntry { ino, name: name.to_string() }
}

#[test]
fn tab_completes_a_command() {
    let mut t = fresh();
    assert!(matches!(keys(&mut t, "cat\t"), Request::Done));
    // the space is there: what follows is the command's argument
    assert!(matches!(type_line(&mut t, "a"), Request::Names { ino: 7 }));
    t.on_reply(Reply::Names(vec![]));
    assert_eq!(last(&t, 3), vec!["/ $ cat a", "cat: not found", "/ $"]);
    keys(&mut t, "sysi\t");
    assert_eq!(last(&t, 1), vec!["/ $ sysinfo"]);
}

#[test]
fn tab_completes_a_file_name() {
    let mut t = fresh();
    assert!(matches!(keys(&mut t, "cat he\t"), Request::Names { ino: 7 }));
    let r = t.on_reply(Reply::Names(vec![entry(3, "a.txt"), entry(4, "hello.txt")]));
    assert!(matches!(r, Request::Done));
    assert!(t.is_idle());
    assert_eq!(last(&t, 1), vec!["/ $ cat hello.txt"]);
    assert!(matches!(type_line(&mut t, ""), Request::Names { ino: 7 }));
    let es = vec![entry(3, "a.txt"), entry(4, "hello.txt")];
    assert!(matches!(t.on_reply(Reply::Names(es)), Request::Read { ino: 4 }));
}

#[test]
fn tab_with_several_options() {
    let mut t = fresh();
    keys(&mut t, "m\t");
    assert_eq!(last(&t, 3), vec!["/ $ m", "mkdir  mem  mv", "/ $ m"]);
    keys(&mut t, "k\t");
    assert_eq!(last(&t, 1), vec!["/ $ mkdir"]);
    let mut t = fresh();
    keys(&mut t, "cat h\t");
    t.on_reply(Reply::Names(vec![entry(3, "hi"), entry(5, "x"), entry(4, "home")]));
    assert_eq!(last(&t, 3), vec!["/ $ cat h", "hi  home", "/ $ cat h"]);
}

#[test]
fn tab_on_a_name_that_the_line_cannot_hold() {
    let mut t = fresh();
    keys(&mut t, "cat h\t");
    t.on_reply(Reply::Names(vec![entry(3, "h\u{151}s")]));
    assert!(t.is_idle());
    assert_eq!(last(&t, 1), vec!["/ $ cat h"]);
    // what was typed is still the whole line
    type_line(&mut t, "i");
    t.on_reply(Reply::Names(vec![]));
    assert_eq!(last(&t, 3), vec!["/ $ cat hi", "cat: not found", "/ $"]);
    keys(&mut t, "cat h\t");
    t.on_reply(Reply::Names(vec![entry(3, "h2345678901234567890123456")]));
    assert_eq!(last(&t, 1), vec!["/ $ cat h"]);
    // one of just the right length is typed, without a space
    keys(&mut t, "\t");
    t.on_reply(Reply::Names(vec![entry(3, "h23456789012345678901234")]));
    let full = last(&t, 2);
    assert_eq!(full, vec!["/ $ cat h234567890123456789012", "34"]);
    t.on_key('x');
    assert_eq!(last(&t, 2), full);
    // a control character is not typed
    let mut t = fresh();
    keys(&mut t, "cat h\t");
    t.on_reply(Reply::Names(vec![entry(3, "h\u{8}")]));
    assert_eq!(last(&t, 1), vec!["/ $ cat h"]);
}

#[test]
fn tab_without_an_option() {
    let mut t = fresh();
    keys(&mut t, "zz\t");
    assert_eq!(last(&t, 1), vec!["/ $ zz"]);
    keys(&mut t, " a\t");
    t.on_reply(Reply::Names(vec![entry(3, "b")]));
    assert_eq!(last(&t, 1), vec!["/ $ zz a"]);
}

/// The file `a` with inode 3 is found and read.
fn read_source(t: &mut Terminal, data: &[u8]) -> Request {
    assert!(matches!(t.on_reply(Reply::Names(vec![entry(3, "a")])), Request::Kind { ino: 3 }));
    assert!(matches!(t.on_reply(Reply::Kind(false)), Request::Read { ino: 3 }));
    t.on_reply(Reply::Data(data.to_vec()))
}

#[test]
fn cp_copies_bytes() {
    let mut t = fresh();
    assert!(matches!(type_line(&mut t, "cp a b"), Request::Names { ino: 7 }));
    assert!(matches!(read_source(&mut t, &[1, 2, 255]), Request::Names { ino: 7 }));
    let r = t.on_reply(Reply::Names(vec![entry(3, "a")]));
    assert!(matches!(&r, Request::CreateFile { parent: 7, name } if name == "b"));
    let r = t.on_reply(Reply::Created(9));
    assert!(matches!(&r, Request::Write { ino: 9, data } if data == &vec![1, 2, 255]));
    assert!(matches!(t.on_reply(Reply::Done), Request::Done));
    assert_eq!(last(&t, 2), vec!["copied", "/ $"]);
}

#[test]
fn cp_to_a_new_path() {
    let mut t = fresh();
    type_line(&mut t, "cp a /home/b");
    let r = read_source(&mut t, &[4]);
    assert!(matches!(&r, Request::Lookup { path } if path == "/home/b"));
    let r = t.on_reply(Reply::Found(None));
    assert!(matches!(&r, Request::Lookup { path } if path == "/home"));
    let r = t.on_reply(Reply::Found(Some(5)));
    assert!(matches!(&r, Request::CreateFile { parent: 5, name } if name == "b"));
    let r = t.on_reply(Reply::Created(9));
    assert!(matches!(&r, Request::Write { ino: 9, data } if data == &vec![4]));
    t.on_reply(Reply::Done);
    assert_eq!(last(&t, 2), vec!["copied", "/ $"]);
    // in the root nothing is looked up
    type_line(&mut t, "cp a /b");
    read_source(&mut t, &[4]);
    let r = t.on_reply(Reply::Found(None));
    assert!(matches!(&r, Request::CreateFile { parent: 7, name } if name == "b"));
    t.on_reply(Reply::Created(9));
    t.on_reply(Reply::Done);
    // without the directory nothing is made
    type_line(&mut t, "mv a /nope/b");
    read_source(&mut t, &[4]);
    t.on_reply(Reply::Found(None));
    assert!(matches!(t.on_reply(Reply::Found(None)), Request::Done));
    assert_eq!(last(&t, 2), vec!["mv: no such directory", "/ $"]);
    type_line(&mut t, "cp a //");
    read_source(&mut t, &[4]);
    assert!(matches!(t.on_reply(Reply::Found(None)), Request::Done));
    assert_eq!(last(&t, 2), vec!["cp: no such directory", "/ $"]);
}

#[test]
fn cp_and_mv_refuse() {
    let mut t = fresh();
    type_line(&mut t, "cp a");
    assert_eq!(last(&t, 2), vec!["usage: cp <src> <dst>", "/ $"]);
    type_line(&mut t, "mv");
    assert_eq!(last(&t, 2), vec!["usage: mv <src> <dst>", "/ $"]);
    type_line(&mut t, "cp /a b");
    t.on_reply(Reply::Found(None));
    assert_eq!(last(&t, 2), vec!["cp: not found", "/ $"]);
    type_line(&mut t, "mv /a b");
    t.on_reply(Reply::Found(None));
    assert_eq!(last(&t, 2), vec!["mv: not found", "/ $"]);
    // a file is not moved onto itself
    type_line(&mut t, "mv a a");
    read_source(&mut t, &[5]);
    assert!(matches!(t.on_reply(Reply::Names(vec![entry(3, "a")])), Request::Done));
    assert_eq!(last(&t, 2), vec!["mv: same file", "/ $"]);
    // directories are neither copied nor written over
    type_line(&mut t, "cp a b");
    t.on_reply(Reply::Names(vec![entry(3, "a")]));
    assert!(matches!(t.on_reply(Reply::Kind(true)), Request::Done));
    assert_eq!(last(&t, 2), vec!["cp: is a directory", "/ $"]);
    type_line(&mut t, "mv a b");
    read_source(&mut t, &[5]);
    let r = t.on_reply(Reply::Names(vec![entry(3, "a"), entry(4, "b")]));
    assert!(matches!(r, Request::Kind { ino: 4 }));
    assert!(matches!(t.on_reply(Reply::Kind(true)), Request::Done));
    assert_eq!(last(&t, 2), vec!["mv: is a directory", "/ $"]);
}

#[test]
fn mv_removes_the_old_name_last() {
    let mut t = fresh();
    type_line(&mut t, "mv a b");
    read_source(&mut t, &[5]);
    t.on_reply(Reply::Names(vec![entry(3, "a"), entry(4, "b")]));
    let r = t.on_reply(Reply::Kind(false));
    assert!(matches!(&r, Request::Write { ino: 4, data } if data == &vec![5]));
    let r = t.on_reply(Reply::Done);
    assert!(matches!(&r, Request::Remove { parent: 7, name } if name == "a"));
    t.on_reply(Reply::Removed(true));
    assert_eq!(last(&t, 2), vec!["moved", "/ $"]);
    // a path: the directory above it is looked up
    for (answer, said) in [(Some(2), true), (None, false)] {
        type_line(&mut t, "mv /home/x b");
        t.on_reply(Reply::Found(Some(8)));
        t.on_reply(Reply::Kind(false));
        t.on_reply(Reply::Data(vec![5]));
        t.on_reply(Reply::Names(vec![entry(4, "b")]));
        t.on_reply(Reply::Kind(false));
        let r = t.on_reply(Reply::Done);
        assert!(matches!(&r, Request::Lookup { path } if path == "/home"));
        let r = t.on_reply(Reply::Found(answer));
        if said {
            assert!(matches!(&r, Request::Remove { parent: 2, name } if name == "x"));
            t.on_reply(Reply::Removed(false));
        }
        assert_eq!(last(&t, 2), vec!["mv: source not removed", "/ $"]);
    }
    // from the root
    type_line(&mut t, "mv /x b");
    t.on_reply(Reply::Found(Some(8)));
    t.on_reply(Reply::Kind(false));
    t.on_reply(Reply::Data(vec![5]));
    t.on_reply(Reply::Names(vec![]));
    t.on_reply(Reply::Created(4));
    let r = t.on_reply(Reply::Done);
    assert!(matches!(&r, Request::Remove { parent: 7, name } if name == "x"));
}

#[test]
fn backspace_takes_back_what_was_typed() {
    let mut t = fresh();
    keys(&mut t, "echo");
    let before = rows(&t, 10);
    for c in ['!', 'a', ' ', '~'] {
        t.on_key(c);
        t.on_key('\u{8}');
        assert_eq!(rows(&t, 10), before);
    }
    // inside the line what comes after moves back
    keys(&mut t, "\u{1}ab");
    let inside = rows(&t, 10);
    assert_eq!(last(&t, 1), vec!["/ $ abecho"]);
    for c in ['!', 'a', '~'] {
        t.on_key(c);
        t.on_key('\u{8}');
        assert_eq!(rows(&t, 10), inside);
    }
    // an empty line stays empty
    let mut t = fresh();
    t.on_key('\u{8}');
    assert_eq!(last(&t, 1), vec!["/ $"]);
    // a full line takes no more
    keys(&mut t, "0123456789012345678901234567");
    let full = rows(&t, 10);
    t.on_key('x');
    assert_eq!(rows(&t, 10), full);
}

#[test]
fn the_start_and_the_end_of_the_line() {
    let mut t = fresh();
    keys(&mut t, "cho\u{1}e");
    assert_eq!(last(&t, 1), vec!["/ $ echo"]);
    keys(&mut t, "\u{5} hi");
    assert_eq!(last(&t, 1), vec!["/ $ echo hi"]);
    // a backspace at the start does nothing, one further on takes what is before it
    keys(&mut t, "\u{1}\u{8}x\u{8}");
    assert_eq!(last(&t, 1), vec!["/ $ echo hi"]);
    // Enter takes the whole line
    assert!(matches!(type_line(&mut t, ""), Request::Done));
    assert_eq!(last(&t, 3), vec!["/ $ echo hi", "hi", "/ $"]);
}

#[test]
fn editing_a_line_that_wraps() {
    let mut t = fresh();
    keys(&mut t, "bcdefghijklmnopqrstuvwxyz01\u{1}a");
    assert_eq!(last(&t, 2), vec!["/ $ abcdefghijklmnopqrstuvwxyz", "01"]);
    // twenty-eight bytes are there: no more is taken
    keys(&mut t, "\u{5}!");
    let r = rows(&t, 60);
    assert_eq!(r[4], "01");
}
