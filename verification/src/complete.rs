//! The commands that `help` lists, and how a word that was begun is completed.
use vstd::prelude::*;
use crate::shell::Command;
use crate::{shell, terminal, text};

verus! {

/// A command as `help` lists it.
pub struct Topic {
    pub name: String,
    /// What is written behind the name.
    pub args: String,
    pub desc: String,
}

/// A command as `help` lists it, as contracts speak of it.
pub struct TopicText {
    pub name: Seq<char>,
    pub args: Seq<char>,
    pub desc: Seq<char>,
}

impl View for Topic {
    type V = TopicText;

    open spec fn view(&self) -> TopicText {
        TopicText { name: self.name@, args: self.args@, desc: self.desc@ }
    }
}

/// A command without arguments.
pub open spec fn plain(name: Seq<char>, desc: Seq<char>) -> TopicText {
    TopicText { name, args: ""@, desc }
}

/// A command with arguments.
pub open spec fn with_args(name: Seq<char>, args: Seq<char>, desc: Seq<char>) -> TopicText {
    TopicText { name, args, desc }
}

/// All commands.
pub open spec fn topics() -> Seq<TopicText> {
    seq![
        plain("help"@, "this message"@),
        plain("clear"@, "clear screen"@),
        plain("pwd"@, "print working directory"@),
        with_args("ls"@, " [path]"@, "list directory"@),
        with_args("cd"@, " <dir>"@, "change directory"@),
        with_args("cat"@, " <file>"@, "print file contents"@),
        with_args("mkdir"@, " <name>"@, "create directory"@),
        with_args("touch"@, " <name>"@, "create empty file"@),
        with_args("rm"@, " <name>"@, "remove file or empty dir"@),
        with_args("write"@, " <f> <txt>"@, "write text to file"@),
        plain("uname"@, "system info"@),
        plain("mem"@, "memory usage"@),
        plain("shutdown"@, "power off (ACPI)"@),
        plain("reboot"@, "reboot"@),
        with_args("echo"@, " <text>"@, "print text"@),
        with_args("cp"@, " <src> <dst>"@, "copy file"@),
        with_args("mv"@, " <src> <dst>"@, "move / rename file"@),
        with_args("edit"@, " <file>"@, "open text editor"@),
        plain("history"@, "show command history"@),
        plain("date"@, "current date+time (RTC)"@),
        plain("sysinfo"@, "full kernel info"@),
        plain("lspci"@, "list all PCI devices"@),
        plain("netdiag"@, "e1000 register dump"@),
        plain("netstart"@, "force-init e1000 NIC"@),
        plain("netpoll"@, "scan RX descriptors"@),
        plain("ifconfig"@, "show IP/MAC/GW"@),
        with_args("ping"@, " <ip>"@, "ICMP echo"@),
    ]
}

/// The names of some commands.
pub open spec fn names_of(ts: Seq<TopicText>) -> Seq<Seq<char>> {
    ts.map_values(|t: TopicText| t.name)
}

/// The names of all commands.
pub open spec fn command_names() -> Seq<Seq<char>> {
    names_of(topics())
}

fn topic(name: &str, args: &str, desc: &str) -> (t: Topic)
    ensures
        t@ == with_args(name@, args@, desc@),
{
    Topic {
        name: String::from_str(name),
        args: String::from_str(args),
        desc: String::from_str(desc),
    }
}

/// All commands.
pub fn all_topics() -> (v: Vec<Topic>)
    ensures
        v@.map_values(|t: Topic| t@) == topics(),
{
    let v: Vec<Topic> = vec![
        topic("help", "", "this message"),
        topic("clear", "", "clear screen"),
        topic("pwd", "", "print working directory"),
        topic("ls", " [path]", "list directory"),
        topic("cd", " <dir>", "change directory"),
        topic("cat", " <file>", "print file contents"),
        topic("mkdir", " <name>", "create directory"),
        topic("touch", " <name>", "create empty file"),
        topic("rm", " <name>", "remove file or empty dir"),
        topic("write", " <f> <txt>", "write text to file"),
        topic("uname", "", "system info"),
        topic("mem", "", "memory usage"),
        topic("shutdown", "", "power off (ACPI)"),
        topic("reboot", "", "reboot"),
        topic("echo", " <text>", "print text"),
        topic("cp", " <src> <dst>", "copy file"),
        topic("mv", " <src> <dst>", "move / rename file"),
        topic("edit", " <file>", "open text editor"),
        topic("history", "", "show command history"),
        topic("date", "", "current date+time (RTC)"),
        topic("sysinfo", "", "full kernel info"),
        topic("lspci", "", "list all PCI devices"),
        topic("netdiag", "", "e1000 register dump"),
        topic("netstart", "", "force-init e1000 NIC"),
        topic("netpoll", "", "scan RX descriptors"),
        topic("ifconfig", "", "show IP/MAC/GW"),
        topic("ping", " <ip>", "ICMP echo"),
    ];
    assert(v@.map_values(|t: Topic| t@) =~= topics());
    v
}

// ── Words ───────────────────────────────────────────────────────────────────

/// What stands behind the last `c` of `s`.
pub open spec fn behind_last(s: Seq<char>, c: char) -> Seq<char>
    decreases s.len(),
{
    if s.len() == 0 || s.last() == c {
        Seq::empty()
    } else {
        behind_last(s.drop_last(), c).push(s.last())
    }
}

/// What stands behind the last `c` of `s`.
pub fn tail_behind(s: &str, c: char) -> (r: String)
    ensures
        r@ == behind_last(s@, c),
{
    let v: Vec<char> = text::chars_of(s);
    let n: usize = v.len();
    let mut k: usize = n;
    assert(s@.take(n as int) =~= s@);
    assert(behind_last(s@.take(n as int), c) + s@.skip(n as int) =~= behind_last(s@, c));
    while k > 0 && v[k - 1] != c
        invariant
            v@ == s@,
            n == s@.len(),
            k <= n,
            behind_last(s@, c) == behind_last(s@.take(k as int), c) + s@.skip(k as int),
        decreases k,
    {
        proof {
            let t = s@.take(k as int);
            assert(t.drop_last() =~= s@.take(k - 1));
            assert(behind_last(t, c) + s@.skip(k as int) =~= behind_last(s@.take(k - 1), c)
                + s@.skip(k - 1));
        }
        k = k - 1;
    }
    assert(behind_last(s@.take(k as int), c) =~= Seq::<char>::empty());
    assert(behind_last(s@, c) =~= s@.subrange(k as int, n as int));
    text::string_of(&v, k, n)
}

/// Whether a character stands in a text.
pub fn has_char(s: &str, c: char) -> (r: bool)
    ensures
        r == s@.contains(c),
{
    let v: Vec<char> = text::chars_of(s);
    let mut i: usize = 0;
    while i < v.len()
        invariant
            v@ == s@,
            i <= v@.len(),
            forall|j: int| 0 <= j < i ==> s@[j] != c,
        decreases v@.len() - i,
    {
        if v[i] == c {
            assert(s@[i as int] == c);
            return true;
        }
        i = i + 1;
    }
    false
}

// ── Options ─────────────────────────────────────────────────────────────────

/// `s` begins with `p`.
pub open spec fn begins(s: Seq<char>, p: Seq<char>) -> bool {
    p.len() <= s.len() && s.take(p.len() as int) == p
}

/// Those names that begin with `p`, in their order.
pub open spec fn options(names: Seq<Seq<char>>, p: Seq<char>) -> Seq<Seq<char>>
    decreases names.len(),
{
    if names.len() == 0 {
        Seq::empty()
    } else {
        let head = options(names.drop_last(), p);
        if begins(names.last(), p) {
            head.push(names.last())
        } else {
            head
        }
    }
}

proof fn lemma_options_begin(names: Seq<Seq<char>>, p: Seq<char>)
    ensures
        forall|i: int|
            0 <= i < options(names, p).len() ==> begins(#[trigger] options(names, p)[i], p),
    decreases names.len(),
{
    if names.len() > 0 {
        let head = options(names.drop_last(), p);
        lemma_options_begin(names.drop_last(), p);
        assert forall|i: int| 0 <= i < options(names, p).len() implies begins(
            #[trigger] options(names, p)[i],
            p,
        ) by {
            if i < head.len() {
                assert(options(names, p)[i] == head[i]);
            }
        }
    }
}

/// Whether `s` begins with `p`.
pub fn begins_with(s: &str, p: &str) -> (r: bool)
    ensures
        r == begins(s@, p@),
{
    let v: Vec<char> = text::chars_of(s);
    let w: Vec<char> = text::chars_of(p);
    if w.len() > v.len() {
        return false;
    }
    let mut i: usize = 0;
    while i < w.len()
        invariant
            v@ == s@,
            w@ == p@,
            i <= w@.len() <= v@.len(),
            forall|j: int| 0 <= j < i ==> s@[j] == p@[j],
        decreases w@.len() - i,
    {
        if v[i] != w[i] {
            assert(s@.take(p@.len() as int)[i as int] != p@[i as int]);
            return false;
        }
        i = i + 1;
    }
    assert(s@.take(p@.len() as int) =~= p@);
    true
}

/// Those names that begin with `p`, in their order.
pub fn options_of(names: &Vec<String>, p: &str) -> (r: Vec<String>)
    ensures
        text::texts(r@) == options(text::texts(names@), p@),
        forall|i: int| 0 <= i < r@.len() ==> begins(#[trigger] text::texts(r@)[i], p@),
{
    let ghost all = text::texts(names@);
    let mut r: Vec<String> = Vec::new();
    let mut i: usize = 0;
    assert(all.take(0) =~= Seq::<Seq<char>>::empty());
    assert(text::texts(r@) =~= options(all.take(0), p@));
    while i < names.len()
        invariant
            all == text::texts(names@),
            i <= names@.len(),
            text::texts(r@) == options(all.take(i as int), p@),
        decreases names@.len() - i,
    {
        let ghost before = text::texts(r@);
        assert(all.take(i + 1).drop_last() =~= all.take(i as int));
        assert(all.take(i + 1).last() == names@[i as int]@);
        if begins_with(names[i].as_str(), p) {
            r.push(String::from_str(names[i].as_str()));
            assert(text::texts(r@) =~= before.push(names@[i as int]@));
        }
        i = i + 1;
    }
    assert(all.take(all.len() as int) =~= all);
    proof {
        lemma_options_begin(all, p@);
    }
    r
}

/// The names of all commands that begin with `p`.
pub fn command_options(p: &str) -> (r: Vec<String>)
    ensures
        text::texts(r@) == options(command_names(), p@),
        forall|i: int| 0 <= i < r@.len() ==> begins(#[trigger] text::texts(r@)[i], p@),
{
    let ts: Vec<Topic> = all_topics();
    let ghost all = ts@.map_values(|t: Topic| t@);
    let mut names: Vec<String> = Vec::new();
    let mut i: usize = 0;
    assert(text::texts(names@) =~= names_of(all).take(0));
    while i < ts.len()
        invariant
            all == ts@.map_values(|t: Topic| t@),
            i <= ts@.len(),
            text::texts(names@) == names_of(all).take(i as int),
        decreases ts@.len() - i,
    {
        let ghost before = text::texts(names@);
        names.push(String::from_str(ts[i].name.as_str()));
        assert(all[i as int] == ts@[i as int]@);
        assert(text::texts(names@) =~= before.push(names_of(all)[i as int]));
        assert(text::texts(names@) =~= names_of(all).take(i + 1));
        i = i + 1;
    }
    assert(names_of(all).take(all.len() as int) =~= command_names());
    options_of(&names, p)
}

/// The first `n` names with two spaces between them.
pub open spec fn joined(names: Seq<Seq<char>>, n: int) -> Seq<char>
    decreases n,
{
    if n <= 0 {
        Seq::empty()
    } else if n == 1 {
        names[0]
    } else {
        joined(names, n - 1) + "  "@ + names[n - 1]
    }
}

/// The names with two spaces between them.
pub fn join(names: &Vec<String>) -> (s: String)
    ensures
        s@ == joined(text::texts(names@), names@.len() as int),
{
    let ghost all = text::texts(names@);
    let mut s: String = String::new();
    let mut i: usize = 0;
    assert(s@ =~= joined(all, 0));
    while i < names.len()
        invariant
            all == text::texts(names@),
            i <= names@.len(),
            s@ == joined(all, i as int),
        decreases names@.len() - i,
    {
        if i > 0 {
            s.append("  ");
        }
        s.append(names[i].as_str());
        assert(all[i as int] == names@[i as int]@);
        assert(s@ =~= joined(all, i + 1));
        i = i + 1;
    }
    s
}

// ── Laws ────────────────────────────────────────────────────────────────────

/// The options are exactly the names that begin with what was typed.
pub proof fn law_options(names: Seq<Seq<char>>, p: Seq<char>, s: Seq<char>)
    ensures
        options(names, p).contains(s) <==> names.contains(s) && begins(s, p),
    decreases names.len(),
{
    if names.len() > 0 {
        let rest = names.drop_last();
        let head = options(rest, p);
        law_options(rest, p, s);
        assert(names =~= rest.push(names.last()));
        lemma_push_contains(rest, names.last(), s);
        lemma_push_contains(head, names.last(), s);
    }
}

/// `help` lists every command, and nothing that is none.
pub proof fn law_help_is_complete(verb: Seq<char>, i: int)
    ensures
        match shell::command_of(verb) {
            Command::Empty => true,
            Command::Unknown => true,
            Command::Echo => begins(verb, "echo"@) && command_names().contains("echo"@),
            _ => command_names().contains(verb),
        },
        0 <= i < command_names().len() ==> shell::command_of(command_names()[i])
            != Command::Unknown,
{
    let n = command_names();
    assert(n[0] == "help"@ && n[1] == "clear"@ && n[2] == "pwd"@ && n[3] == "ls"@);
    assert(n[4] == "cd"@ && n[5] == "cat"@ && n[6] == "mkdir"@ && n[7] == "touch"@);
    assert(n[8] == "rm"@ && n[9] == "write"@ && n[10] == "uname"@ && n[11] == "mem"@);
    assert(n[12] == "shutdown"@ && n[13] == "reboot"@ && n[14] == "echo"@ && n[15] == "cp"@);
    assert(n[16] == "mv"@ && n[17] == "edit"@ && n[18] == "history"@ && n[19] == "date"@);
    assert(n[20] == "sysinfo"@ && n[21] == "lspci"@ && n[22] == "netdiag"@);
    assert(n[23] == "netstart"@ && n[24] == "netpoll"@ && n[25] == "ifconfig"@);
    assert(n[26] == "ping"@);
    reveal_strlit("echo");
    assert("echo"@.take(4) =~= "echo"@);
}

proof fn lemma_push_contains(v: Seq<Seq<char>>, last: Seq<char>, s: Seq<char>)
    ensures
        v.push(last).contains(s) <==> v.contains(s) || s == last,
{
    assert(v.push(last)[v.len() as int] == last);
    if v.contains(s) {
        let i = choose|i: int| 0 <= i < v.len() && v[i] == s;
        assert(v.push(last)[i] == s);
    }
    if v.push(last).contains(s) && s != last {
        let i = choose|i: int| 0 <= i < v.push(last).len() && v.push(last)[i] == s;
        assert(v[i] == s);
    }
}

/// The names of the commands are in ASCII, without control characters.
pub proof fn law_names_printable(i: int)
    requires
        0 <= i < command_names().len(),
    ensures
        terminal::printable(command_names()[i]),
{
    reveal_strlit("help");
    reveal_strlit("clear");
    reveal_strlit("pwd");
    reveal_strlit("ls");
    reveal_strlit("cd");
    reveal_strlit("cat");
    reveal_strlit("mkdir");
    reveal_strlit("touch");
    reveal_strlit("rm");
    reveal_strlit("write");
    reveal_strlit("uname");
    reveal_strlit("mem");
    reveal_strlit("shutdown");
    reveal_strlit("reboot");
    reveal_strlit("echo");
    reveal_strlit("cp");
    reveal_strlit("mv");
    reveal_strlit("edit");
    reveal_strlit("history");
    reveal_strlit("date");
    reveal_strlit("sysinfo");
    reveal_strlit("lspci");
    reveal_strlit("netdiag");
    reveal_strlit("netstart");
    reveal_strlit("netpoll");
    reveal_strlit("ifconfig");
    reveal_strlit("ping");
}

/// One of the commands has this name, takes these arguments and is described so.
pub open spec fn explained(name: Seq<char>, args: Seq<char>, desc: Seq<char>) -> bool {
    exists|i: int|
        0 <= i < topics().len() && (#[trigger] topics()[i]).name == name && topics()[i].args == args
            && topics()[i].desc == desc
}

/// Every command is explained by what it takes and what it does.
pub proof fn law_commands_explained()
    ensures
        explained("help"@, ""@, "this message"@),
        explained("clear"@, ""@, "clear screen"@),
        explained("pwd"@, ""@, "print working directory"@),
        explained("ls"@, " [path]"@, "list directory"@),
        explained("cd"@, " <dir>"@, "change directory"@),
        explained("cat"@, " <file>"@, "print file contents"@),
        explained("mkdir"@, " <name>"@, "create directory"@),
        explained("touch"@, " <name>"@, "create empty file"@),
        explained("rm"@, " <name>"@, "remove file or empty dir"@),
        explained("write"@, " <f> <txt>"@, "write text to file"@),
        explained("uname"@, ""@, "system info"@),
        explained("mem"@, ""@, "memory usage"@),
        explained("shutdown"@, ""@, "power off (ACPI)"@),
        explained("reboot"@, ""@, "reboot"@),
        explained("echo"@, " <text>"@, "print text"@),
        explained("cp"@, " <src> <dst>"@, "copy file"@),
        explained("mv"@, " <src> <dst>"@, "move / rename file"@),
        explained("edit"@, " <file>"@, "open text editor"@),
        explained("history"@, ""@, "show command history"@),
        explained("date"@, ""@, "current date+time (RTC)"@),
        explained("sysinfo"@, ""@, "full kernel info"@),
        explained("lspci"@, ""@, "list all PCI devices"@),
        explained("netdiag"@, ""@, "e1000 register dump"@),
        explained("netstart"@, ""@, "force-init e1000 NIC"@),
        explained("netpoll"@, ""@, "scan RX descriptors"@),
        explained("ifconfig"@, ""@, "show IP/MAC/GW"@),
        explained("ping"@, " <ip>"@, "ICMP echo"@),
{
    let t = topics();
    assert(forall|i: int| 0 <= i < t.len() ==> explained(t[i].name, t[i].args, t[i].desc));
    assert(explained(t[0].name, t[0].args, t[0].desc));
    assert(explained(t[1].name, t[1].args, t[1].desc));
    assert(explained(t[2].name, t[2].args, t[2].desc));
    assert(explained(t[3].name, t[3].args, t[3].desc));
    assert(explained(t[4].name, t[4].args, t[4].desc));
    assert(explained(t[5].name, t[5].args, t[5].desc));
    assert(explained(t[6].name, t[6].args, t[6].desc));
    assert(explained(t[7].name, t[7].args, t[7].desc));
    assert(explained(t[8].name, t[8].args, t[8].desc));
    assert(explained(t[9].name, t[9].args, t[9].desc));
    assert(explained(t[10].name, t[10].args, t[10].desc));
    assert(explained(t[11].name, t[11].args, t[11].desc));
    assert(explained(t[12].name, t[12].args, t[12].desc));
    assert(explained(t[13].name, t[13].args, t[13].desc));
    assert(explained(t[14].name, t[14].args, t[14].desc));
    assert(explained(t[15].name, t[15].args, t[15].desc));
    assert(explained(t[16].name, t[16].args, t[16].desc));
    assert(explained(t[17].name, t[17].args, t[17].desc));
    assert(explained(t[18].name, t[18].args, t[18].desc));
    assert(explained(t[19].name, t[19].args, t[19].desc));
    assert(explained(t[20].name, t[20].args, t[20].desc));
    assert(explained(t[21].name, t[21].args, t[21].desc));
    assert(explained(t[22].name, t[22].args, t[22].desc));
    assert(explained(t[23].name, t[23].args, t[23].desc));
    assert(explained(t[24].name, t[24].args, t[24].desc));
    assert(explained(t[25].name, t[25].args, t[25].desc));
    assert(explained(t[26].name, t[26].args, t[26].desc));
}

} // verus!
