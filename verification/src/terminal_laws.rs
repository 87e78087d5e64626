//! What holds of the terminal over several keys and answers.
use vstd::prelude::*;
use crate::ps2::{KEY_DOWN, KEY_UP};
use crate::shell::Command;
use crate::{complete, protocol, shell, terminal, text};

verus! {

/// Everything but what is on the screen and what is waited for.
pub open spec fn same_session(a: terminal::TerminalState, b: terminal::TerminalState) -> bool {
    &&& a.cmd == b.cmd
    &&& a.behind == b.behind
    &&& a.root == b.root
    &&& a.cwd == b.cwd
    &&& a.cwd_ino == b.cwd_ino
    &&& a.history == b.history
    &&& a.history_idx == b.history_idx
}

proof fn lemma_list_history(t: terminal::TerminalState, n: int)
    ensures
        same_session(t, t.list_history(n)),
        t.list_history(n).wait == t.wait,
    decreases n,
{
    if n > 0 {
        lemma_list_history(t, n - 1);
    }
}

proof fn lemma_list_entries(t: terminal::TerminalState, es: Seq<protocol::Entry>, n: int)
    ensures
        same_session(t, t.list_entries(es, n)),
    decreases n,
{
    if n > 0 {
        lemma_list_entries(t, es, n - 1);
    }
}

proof fn lemma_list_ring(t: terminal::TerminalState, ring: Seq<protocol::RxState>, n: int)
    ensures
        same_session(t, t.list_ring(ring, n)),
    decreases n,
{
    if n > 0 {
        lemma_list_ring(t, ring, n - 1);
    }
}

proof fn lemma_list_devices(t: terminal::TerminalState, ds: Seq<protocol::Device>, n: int)
    ensures
        same_session(t, t.list_devices(ds, n)),
    decreases n,
{
    if n > 0 {
        lemma_list_devices(t, ds, n - 1);
    }
}

proof fn lemma_help_lines(t: terminal::TerminalState, ts: Seq<complete::TopicText>, n: int)
    ensures
        same_session(t, t.help_lines(ts, n)),
        t.help_lines(ts, n).wait == t.wait,
    decreases n,
{
    if n > 0 {
        lemma_help_lines(t, ts, n - 1);
    }
}

proof fn lemma_typed_all(t: terminal::TerminalState, s: Seq<char>)
    ensures
        t.typed_all(s).root == t.root,
        t.typed_all(s).cwd == t.cwd,
        t.typed_all(s).cwd_ino == t.cwd_ino,
        t.typed_all(s).history == t.history,
        t.typed_all(s).history_idx == t.history_idx,
        t.typed_all(s).wait == t.wait,
        t.typed_all(s).behind == t.behind,
    decreases s.len(),
{
    if s.len() > 0 {
        lemma_typed_all(t, s.drop_last());
    }
}

/// What a command may change of the session: nothing but, with `cd`, the working
/// directory.
pub open spec fn keeps_but_dir(
    t: terminal::TerminalState,
    u: terminal::TerminalState,
    cmd: Seq<char>,
) -> bool {
    &&& u.cmd == t.cmd
    &&& u.behind == t.behind
    &&& u.root == t.root
    &&& u.history == t.history
    &&& u.history_idx == t.history_idx
    &&& shell::command_of(shell::verb_of(cmd)) != Command::Cd ==> same_session(t, u)
}

proof fn lemma_help_keeps(t: terminal::TerminalState, cmd: Seq<char>)
    requires
        shell::command_of(shell::verb_of(cmd)) == Command::Help,
    ensures
        keeps_but_dir(t, t.execute(cmd).t, cmd),
{
    lemma_help_lines(
        t.say("Commands:\n"@, crate::screen::OK),
        complete::topics(),
        complete::topics().len() as int,
    );
}

proof fn lemma_sysinfo_keeps(t: terminal::TerminalState, cmd: Seq<char>)
    requires
        shell::command_of(shell::verb_of(cmd)) == Command::Sysinfo,
    ensures
        keeps_but_dir(t, t.execute(cmd).t, cmd),
{
}

proof fn lemma_others_keep(t: terminal::TerminalState, cmd: Seq<char>)
    requires
        shell::command_of(shell::verb_of(cmd)) != Command::Help,
        shell::command_of(shell::verb_of(cmd)) != Command::Sysinfo,
    ensures
        keeps_but_dir(t, t.execute(cmd).t, cmd),
{
    lemma_list_history(t, t.history.len() as int);
}

/// No command changes the history, the line being typed or the root, and only
/// `cd` changes the working directory.
pub proof fn law_command_keeps_session(t: terminal::TerminalState, cmd: Seq<char>)
    ensures
        keeps_but_dir(t, t.execute(cmd).t, cmd),
{
    let c = shell::command_of(shell::verb_of(cmd));
    if c == Command::Help {
        lemma_help_keeps(t, cmd);
    } else if c == Command::Sysinfo {
        lemma_sysinfo_keeps(t, cmd);
    } else {
        lemma_others_keep(t, cmd);
    }
}

/// What an answer may change of the session: the working directory only where a `cd`
/// waits for it, the line being typed only where a word of it is completed.
pub open spec fn keeps(t: terminal::TerminalState, u: terminal::TerminalState) -> bool {
    &&& !(t.wait is Complete) ==> u.cmd == t.cmd
    &&& u.behind == t.behind
    &&& u.root == t.root
    &&& u.history == t.history
    &&& u.history_idx == t.history_idx
    &&& !(t.wait is CdUp || t.wait is CdKind) ==> u.cwd == t.cwd && u.cwd_ino == t.cwd_ino
}

proof fn lemma_keeps_lookup(t: terminal::TerminalState, a: protocol::Answer)
    requires
        t.accepts(a),
        t.wait is Resolve || t.wait is Search,
    ensures
        keeps(t, t.answered(a).t),
{
}

proof fn lemma_keeps_copy(t: terminal::TerminalState, a: protocol::Answer)
    requires
        t.accepts(a),
        t.wait is Copy,
    ensures
        keeps(t, t.answered(a).t),
{
}

proof fn lemma_keeps_complete(t: terminal::TerminalState, a: protocol::Answer)
    requires
        t.accepts(a),
        t.wait is Complete,
    ensures
        keeps(t, t.answered(a).t),
{
    let u = terminal::TerminalState { wait: terminal::Wait::Idle, ..t };
    let word = complete::behind_last(t.cmd, ' ');
    let options = complete::options(terminal::names_in(a->Names_0), word);
    lemma_typed_all(u, options[0].skip(word.len() as int) + " "@);
}

proof fn lemma_keeps_files(t: terminal::TerminalState, a: protocol::Answer)
    requires
        t.accepts(a),
        !(t.wait is Resolve || t.wait is Search || t.wait is Copy || t.wait is Complete),
        !terminal::about_machine(t.wait),
    ensures
        keeps(t, t.answered(a).t),
{
    let u = terminal::TerminalState { wait: terminal::Wait::Idle, ..t };
    if let protocol::Answer::Listing(es) = a {
        lemma_list_entries(u, es, es.len() as int);
    }
}

proof fn lemma_keeps_shown(t: terminal::TerminalState, a: protocol::Answer)
    requires
        t.accepts(a),
        t.wait is Config || t.wait is Regs || t.wait is Address,
    ensures
        keeps(t, t.answered(a).t),
{
}

proof fn lemma_keeps_machine(t: terminal::TerminalState, a: protocol::Answer)
    requires
        t.accepts(a),
        terminal::about_machine(t.wait),
        !(t.wait is Config || t.wait is Regs || t.wait is Address),
    ensures
        keeps(t, t.answered(a).t),
{
    let u = terminal::TerminalState { wait: terminal::Wait::Idle, ..t };
    match a {
        protocol::Answer::Ring(Some(r)) => lemma_list_ring(u, r, r.len() as int),
        protocol::Answer::Devices(ds) => lemma_list_devices(u, ds, ds.len() as int),
        _ => {},
    }
}

/// An answer changes the working directory only where a `cd` waits for it, and the
/// line being typed only where a word of it is completed.
pub proof fn law_answer_keeps_session(t: terminal::TerminalState, a: protocol::Answer)
    requires
        t.accepts(a),
    ensures
        keeps(t, t.answered(a).t),
{
    if t.wait is Resolve || t.wait is Search {
        lemma_keeps_lookup(t, a);
    } else if t.wait is Copy {
        lemma_keeps_copy(t, a);
    } else if t.wait is Complete {
        lemma_keeps_complete(t, a);
    } else if t.wait is Config || t.wait is Regs || t.wait is Address {
        lemma_keeps_shown(t, a);
    } else if terminal::about_machine(t.wait) {
        lemma_keeps_machine(t, a);
    } else {
        lemma_keeps_files(t, a);
    }
}

/// A `cd` to what does not exist, or is no directory, stays where it is.
pub proof fn law_refused_cd_stays(t: terminal::TerminalState, name: Seq<char>, ino: u32)
    ensures
        same_session(t, t.resolved(terminal::Aim::Cd { name }, None).t),
        t.wait == (terminal::Wait::CdKind { ino, name }) ==> same_session(
            t,
            t.answered(protocol::Answer::Kind(false)).t,
        ),
{
}

/// The terminal waits for keys exactly when it asks for nothing, and when a command
/// is over its prompt stands where the cursor is.
pub proof fn law_prompt_returns(t: terminal::TerminalState, cmd: Seq<char>, a: protocol::Answer)
    ensures
        t.execute(cmd).ask is Done <==> t.execute(cmd).t.wait is Idle,
        t.execute(cmd).ask is Done ==> t.execute(cmd).t.prompt_row == t.execute(cmd).t.screen.row,
        t.accepts(a) ==> (t.answered(a).ask is Done <==> t.answered(a).t.wait is Idle),
        t.accepts(a) && t.answered(a).ask is Done && !(t.wait is Complete) ==> t.answered(
            a,
        ).t.prompt_row == t.answered(a).t.screen.row,
{
    if t.wait is Complete && t.accepts(a) {
        let u = terminal::TerminalState { wait: terminal::Wait::Idle, ..t };
        let word = complete::behind_last(t.cmd, ' ');
        let options = complete::options(terminal::names_in(a->Names_0), word);
        lemma_typed_all(u, options[0].skip(word.len() as int) + " "@);
    }
}

/// The way down into a directory and up again ends where it began, for a name
/// without slashes.
pub proof fn law_cd_up_returns(
    t: terminal::TerminalState,
    name: Seq<char>,
    ino: u32,
    t1: terminal::TerminalState,
    s: terminal::Step,
    t2: terminal::TerminalState,
)
    requires
        name.len() > 0,
        forall|i: int| 0 <= i < name.len() ==> name[i] != '/',
        t.cwd.len() > 0,
        t.wait == (terminal::Wait::CdKind { ino, name }),
        t1 == t.answered(protocol::Answer::Kind(true)).t,
        s == t1.change_dir(".."@),
        t2 == s.t.answered(protocol::Answer::Found(Some(t.cwd_ino))).t,
    ensures
        t1.cwd_ino == ino,
        t1.cwd == text::join_path(t.cwd, name),
        s.ask == (protocol::Ask::Lookup { path: t.cwd }),
        t2.cwd == t.cwd,
        t2.cwd_ino == t.cwd_ino,
{
    shell::law_parent_of_child(t.cwd, name);
    reveal_strlit("/");
    reveal_strlit("..");
    assert(".."@[0] != "/"@[0]);
    assert(name[0] != '/');
}

/// The command line that changes to a directory.
pub open spec fn cd_to(dir: Seq<char>) -> Seq<char> {
    "cd"@ + seq![' '] + dir
}

proof fn lemma_cd_words(dir: Seq<char>)
    requires
        !dir.contains(' '),
    ensures
        shell::command_of(shell::verb_of(cd_to(dir))) == Command::Cd,
        shell::arg1_of(cd_to(dir)) == dir,
{
    reveal_strlit("cd");
    shell::law_two_words("cd"@, dir);
    lemma_cd_is_cd();
}

proof fn lemma_cd_is_cd()
    ensures
        shell::command_of("cd"@) == Command::Cd,
{
    reveal_strlit("cd");
    reveal_strlit("help");
    reveal_strlit("ls");
    lemma_lengths();
    assert("ls"@[0] != "cd"@[0]);
}

/// The command line `cd` with the name of a directory asks for the names in the working
/// directory; where the name is among them, it asks whether that is a directory.
pub proof fn law_cd_asks(
    t: terminal::TerminalState,
    name: Seq<char>,
    es: Seq<(u32, Seq<char>)>,
    ino: u32,
)
    requires
        name.len() > 0,
        !name.contains(' '),
        !name.contains('/'),
        name != ".."@,
        terminal::find_ino(es, name) == Some(ino),
    ensures
        ({
            let s = t.execute(cd_to(name));
            let k = s.t.answered(protocol::Answer::Names(es));
            &&& s.ask == (protocol::Ask::Names { ino: t.cwd_ino })
            &&& k.ask == (protocol::Ask::Kind { ino })
            &&& k.t == (terminal::TerminalState {
                wait: terminal::Wait::CdKind { ino, name },
                ..t
            })
        }),
{
    lemma_cd_words(name);
    reveal_strlit("/");
    assert(name.contains(name[0]));
    assert("/"@[0] == '/');
    assert(t.execute(cd_to(name)) == t.change_dir(name));
}

/// `cd` to a directory and `cd ..` after it, with all their questions and answers: the
/// working directory is the one before. From the root, `cd ..` stays there.
pub proof fn law_cd_there_and_back(
    t: terminal::TerminalState,
    name: Seq<char>,
    es: Seq<(u32, Seq<char>)>,
    ino: u32,
    found: Option<u32>,
)
    requires
        name.len() > 0,
        !name.contains(' '),
        !name.contains('/'),
        name != ".."@,
        t.cwd.len() > 0,
        terminal::find_ino(es, name) == Some(ino),
    ensures
        ({
            let down = t.execute(cd_to(name)).t.answered(protocol::Answer::Names(es)).t.answered(
                protocol::Answer::Kind(true),
            );
            let up = down.t.execute(cd_to(".."@));
            let back = up.t.answered(protocol::Answer::Found(Some(t.cwd_ino)));
            &&& down.t.cwd == text::join_path(t.cwd, name)
            &&& down.t.cwd_ino == ino
            &&& up.ask == (protocol::Ask::Lookup { path: t.cwd })
            &&& back.t.cwd == t.cwd
            &&& back.t.cwd_ino == t.cwd_ino
        }),
        t.cwd == seq!['/'] ==> t.execute(cd_to(".."@)).t.answered(
            protocol::Answer::Found(found),
        ).t.cwd == seq!['/'],
{
    law_cd_asks(t, name, es, ino);
    let k = t.execute(cd_to(name)).t.answered(protocol::Answer::Names(es)).t;
    let down = k.answered(protocol::Answer::Kind(true));
    lemma_cd_up(down.t);
    lemma_cd_up(t);
    assert forall|i: int| 0 <= i < name.len() implies name[i] != '/' by {
        assert(name.contains(name[i]));
    }
    let s = down.t.change_dir(".."@);
    law_cd_up_returns(
        k,
        name,
        ino,
        down.t,
        s,
        s.t.answered(protocol::Answer::Found(Some(k.cwd_ino))).t,
    );
    if t.cwd == seq!['/'] {
        lemma_root_parent();
        lemma_cd_up_from(t, found);
    }
}

proof fn lemma_cd_up(t: terminal::TerminalState)
    ensures
        t.execute(cd_to(".."@)) == t.change_dir(".."@),
{
    reveal_strlit("..");
    lemma_cd_words(".."@);
}

proof fn lemma_root_parent()
    ensures
        shell::parent(seq!['/']) == seq!['/'],
{
    let r = seq!['/'];
    assert(r.drop_last() =~= Seq::<char>::empty());
    reveal_with_fuel(shell::trim_end_slashes, 3);
    reveal_with_fuel(shell::before_last_slash, 2);
}

proof fn lemma_cd_up_from(t: terminal::TerminalState, found: Option<u32>)
    ensures
        t.change_dir(".."@).t.answered(protocol::Answer::Found(found)).t.cwd == shell::parent(
            t.cwd,
        ),
{
    reveal_strlit("/");
    reveal_strlit("..");
    assert(".."@[0] != "/"@[0]);
}

/// `echo` prints what stands behind it as it stands, blanks and all.
pub proof fn law_echo_prints(t: terminal::TerminalState, s: Seq<char>)
    requires
        s.len() > 0,
        s[0] != ' ',
    ensures
        t.execute("echo"@ + seq![' '] + s) == t.say(s, crate::screen::TEXT).say(
            "\n"@,
            crate::screen::TEXT,
        ).done(),
{
    let cmd = "echo"@ + seq![' '] + s;
    reveal_strlit("echo");
    lemma_echo_words(s);
    let head = "echo"@ + seq![' '];
    assert(vstd::utf8::is_ascii_chars(head));
    vstd::utf8::is_ascii_chars_encode_utf8(head);
    text::lemma_encode_concat(head, s);
    let e = vstd::utf8::encode_utf8(cmd);
    assert(e.subrange(5, e.len() as int) =~= vstd::utf8::encode_utf8(s));
    vstd::utf8::encode_utf8_decode_utf8(s);
    assert(text::byte_suffix(cmd, 5) == s);
}

proof fn lemma_echo_words(s: Seq<char>)
    requires
        s.len() > 0,
        s[0] != ' ',
    ensures
        ({
            let cmd = "echo"@ + seq![' '] + s;
            shell::command_of(shell::verb_of(cmd)) == Command::Echo && shell::arg1_of(cmd).len()
                > 0
        }),
{
    reveal_strlit("echo");
    shell::law_first_word("echo"@, s);
    shell::lemma_find_at(s.drop_first(), ' ');
    lemma_echo_is_echo();
}

proof fn lemma_lengths()
    ensures
        ""@.len() == 0,
        "clear"@.len() == 5,
        "pwd"@.len() == 3,
        "ls"@.len() == 2,
        "cd"@.len() == 2,
        "cat"@.len() == 3,
        "mkdir"@.len() == 5,
        "touch"@.len() == 5,
        "rm"@.len() == 2,
        "write"@.len() == 5,
        "cp"@.len() == 2,
        "mv"@.len() == 2,
        "history"@.len() == 7,
        "sysinfo"@.len() == 7,
        "uname"@.len() == 5,
        "mem"@.len() == 3,
        "netpoll"@.len() == 7,
        "netstart"@.len() == 8,
        "netdiag"@.len() == 7,
        "lspci"@.len() == 5,
        "ifconfig"@.len() == 8,
        "shutdown"@.len() == 8,
        "reboot"@.len() == 6,
{
    reveal_strlit("");
    reveal_strlit("clear");
    reveal_strlit("pwd");
    reveal_strlit("ls");
    reveal_strlit("cd");
    reveal_strlit("cat");
    reveal_strlit("mkdir");
    reveal_strlit("touch");
    reveal_strlit("rm");
    reveal_strlit("write");
    reveal_strlit("cp");
    reveal_strlit("mv");
    reveal_strlit("history");
    reveal_strlit("sysinfo");
    reveal_strlit("uname");
    reveal_strlit("mem");
    reveal_strlit("netpoll");
    reveal_strlit("netstart");
    reveal_strlit("netdiag");
    reveal_strlit("lspci");
    reveal_strlit("ifconfig");
    reveal_strlit("shutdown");
    reveal_strlit("reboot");
}

proof fn lemma_echo_is_echo()
    ensures
        shell::command_of("echo"@) == Command::Echo,
{
    let e = "echo"@;
    reveal_strlit("echo");
    lemma_lengths();
    reveal_strlit("help");
    reveal_strlit("date");
    reveal_strlit("ping");
    reveal_strlit("edit");
    assert("help"@[0] != e[0] && "date"@[0] != e[0] && "ping"@[0] != e[0] && "edit"@[1] != e[1]);
    assert(e.take(4) =~= e);
}

/// Whatever the lookup finds, `write` writes the text's UTF-8 form: to the file
/// found, or to a new one of that name in the working directory.
pub proof fn law_write_stores(
    t: terminal::TerminalState,
    cmd: Seq<char>,
    a: protocol::Answer,
    ino: u32,
)
    requires
        shell::command_of(shell::verb_of(cmd)) == Command::Write,
        shell::arg1_of(cmd).len() > 0,
        shell::arg2_of(cmd).len() > 0,
        t.execute(cmd).t.accepts(a),
    ensures
        ({
            let data = vstd::utf8::encode_utf8(shell::arg2_of(cmd));
            let s = t.execute(cmd).t.answered(a);
            ||| s.ask matches protocol::Ask::Write { ino: i, data: d } && d == data
            ||| {
                &&& s.ask == (protocol::Ask::CreateFile {
                    parent: t.cwd_ino,
                    name: shell::arg1_of(cmd),
                })
                &&& s.t.answered(protocol::Answer::Created(ino)).ask == (protocol::Ask::Write {
                    ino,
                    data,
                })
            }
        }),
{
}

/// A `cd` that is granted lands in the directory named: a path from the root is the
/// new working directory as it stands, and `pwd` prints it.
pub proof fn law_cd_lands(
    t: terminal::TerminalState,
    name: Seq<char>,
    ino: u32,
    cmd: Seq<char>,
    t1: terminal::TerminalState,
)
    requires
        t.wait == (terminal::Wait::CdKind { ino, name }),
        t1 == t.answered(protocol::Answer::Kind(true)).t,
        shell::command_of(shell::verb_of(cmd)) == Command::Pwd,
    ensures
        t1.cwd_ino == ino,
        name.len() > 0 && name[0] == '/' ==> t1.cwd == name,
        name.len() > 0 && name[0] != '/' ==> t1.cwd == text::join_path(t.cwd, name),
        t1.execute(cmd).t == t1.say(t1.cwd, crate::screen::OK).say(
            "\n"@,
            crate::screen::TEXT,
        ).done().t,
{
}

/// What `cp` or `mv` has read and not yet written.
pub open spec fn carried(w: terminal::Wait) -> Option<Seq<u8>> {
    match w {
        terminal::Wait::Copy { job, at } => match at {
            terminal::At::Target { ino, data } => Some(data),
            terminal::At::Place { data } => Some(data),
            terminal::At::Create { data } => Some(data),
            _ => None,
        },
        terminal::Wait::Resolve { goal } => match goal {
            terminal::Aim::Paste { job, from, data } => Some(data),
            _ => None,
        },
        terminal::Wait::Search { goal, name } => match goal {
            terminal::Aim::Paste { job, from, data } => Some(data),
            _ => None,
        },
        _ => None,
    }
}

/// What `cp` and `mv` read is what they write, byte for byte: it is carried along
/// until it is written, unless the command gives up.
pub proof fn law_copy_keeps_bytes(t: terminal::TerminalState, a: protocol::Answer)
    requires
        t.accepts(a),
    ensures
        t.wait matches terminal::Wait::Copy { job, at } && at is Read ==> carried(
            t.answered(a).t.wait,
        ) == Some(a->Data_0),
        carried(t.wait) matches Some(d) ==> {
            ||| carried(t.answered(a).t.wait) == Some(d)
            ||| t.answered(a).ask matches protocol::Ask::Write { ino, data } && data == d
            ||| t.answered(a).ask is Done
        },
{
}

/// `cp` and `mv` to a path from the root that is new: the path's directory is looked
/// up, and the file is made there under the name at the path's end; without such a
/// directory nothing is made.
pub proof fn law_copy_place(
    t: terminal::TerminalState,
    job: terminal::JobText,
    data: Seq<u8>,
    parent: u32,
)
    requires
        job.dst.len() > 1,
        job.dst[0] == '/',
        job.dst[1] != '/',
    ensures
        ({
            let s = t.places(job, data);
            let name = shell::base(job.dst);
            let dir = shell::parent(job.dst);
            &&& text::join_path(dir, name) == shell::trim_end_slashes(job.dst)
            &&& dir == seq!['/'] ==> s.ask == (protocol::Ask::CreateFile { parent: t.root, name })
            &&& dir != seq!['/'] ==> s.ask == (protocol::Ask::Lookup { path: dir })
            &&& dir != seq!['/'] ==> s.t.answered(protocol::Answer::Found(Some(parent))).ask == (
            protocol::Ask::CreateFile { parent, name })
            &&& dir != seq!['/'] ==> s.t.answered(protocol::Answer::Found(None)).ask is Done
        }),
{
    lemma_base_there(job.dst);
    shell::law_path_rejoins(job.dst);
}

proof fn lemma_base_there(path: Seq<char>)
    requires
        path.len() > 1,
        path[0] == '/',
        path[1] != '/',
    ensures
        shell::base(path).len() > 0,
    decreases path.len(),
{
    if path.last() == '/' {
        assert(path.drop_last()[1] == path[1]);
        lemma_base_there(path.drop_last());
    }
}

/// Neither `cp` nor `mv` writes to a directory, or reads one: the command ends there.
pub proof fn law_copy_spares_directories(t: terminal::TerminalState)
    requires
        t.wait matches terminal::Wait::Copy { job, at } && (at is Source || at is Target),
    ensures
        t.answered(protocol::Answer::Kind(true)).ask is Done,
{
}

/// A file is removed only by `rm`, or by `mv` once its copy was written: no answer
/// before leads to a removal, and `cp` never does.
pub proof fn law_removed_last(t: terminal::TerminalState, cmd: Seq<char>, a: protocol::Answer)
    ensures
        t.execute(cmd).ask is Remove ==> shell::command_of(shell::verb_of(cmd)) == Command::Rm,
        t.accepts(a) && t.answered(a).ask is Remove ==> (t.wait matches terminal::Wait::Copy {
            job,
            at,
        } && (at is Leave || at is Write && job.moving)),
        t.accepts(a) && (t.answered(a).t.wait matches terminal::Wait::Copy { job, at } && at is Leave)
            ==> (t.wait matches terminal::Wait::Copy { job, at } && at is Write && job.moving),
{
    if t.accepts(a) {
        law_prompt_returns(t, cmd, a);
    }
}

/// Text that the line can hold is typed whole.
proof fn lemma_typed_text(t: terminal::TerminalState, s: Seq<char>)
    requires
        t.behind == 0,
        terminal::can_hold(t.cmd, s),
    ensures
        t.typed_all(s).cmd == t.cmd + s,
        t.typed_all(s).behind == 0,
    decreases s.len(),
{
    if s.len() == 0 {
        assert(t.cmd + s =~= t.cmd);
    } else {
        let r = s.drop_last();
        let c = s.last();
        assert(s[s.len() - 1] == c);
        assert(t.cmd + s =~= (t.cmd + r) + seq![c]);
        text::lemma_encode_concat(t.cmd + r, seq![c]);
        lemma_one_char(c);
        assert forall|i: int| 0 <= i < r.len() implies ' ' <= #[trigger] r[i] <= '\u{ff}' by {
            assert(r[i] == s[i]);
        }
        lemma_typed_text(t, r);
        assert(c as u8 as char == c);
        assert((t.cmd + r).push(c) =~= t.cmd + s);
    }
}

proof fn lemma_one_char(c: char)
    ensures
        vstd::utf8::encode_utf8(seq![c]).len() >= 1,
{
    let s = seq![c];
    assert(vstd::utf8::encode_utf8(s) == vstd::utf8::encode_scalar(c as u32)
        + vstd::utf8::encode_utf8(s.drop_first()));
}

/// The tab key completes a word with a single option in place, and puts a space
/// behind it where there is room for one; an option that the line cannot hold leaves
/// the line and the screen as they are.
pub proof fn law_tab_completes(
    t: terminal::TerminalState,
    word: Seq<char>,
    options: Seq<Seq<char>>,
    rest: Seq<char>,
)
    requires
        t.behind == 0,
        options.len() == 1,
        options[0] == word + rest,
    ensures
        terminal::can_hold(t.cmd, rest) ==> t.completed(word, options).cmd == t.cmd + rest + (
        if vstd::utf8::encode_utf8(t.cmd + rest).len() < 28 {
            seq![' ']
        } else {
            Seq::<char>::empty()
        }),
        !terminal::can_hold(t.cmd, rest) ==> t.completed(word, options) == (
        terminal::TerminalState { dirty: true, ..t }),
{
    reveal_strlit(" ");
    assert(options[0].skip(word.len() as int) =~= rest);
    if terminal::can_hold(t.cmd, rest) {
        lemma_typed_text(t, rest);
        let s = rest + " "@;
        assert(s.drop_last() =~= rest);
        assert(s.last() == ' ');
        assert(t.typed_all(s) == t.typed_all(rest).typed(32));
        assert((t.cmd + rest).push(' ') =~= t.cmd + rest + seq![' ']);
        assert(t.cmd + rest + Seq::<char>::empty() =~= t.cmd + rest);
    }
}

/// Without an option, or with several, the tab key leaves the line as it is.
pub proof fn law_tab_keeps_line(
    t: terminal::TerminalState,
    word: Seq<char>,
    options: Seq<Seq<char>>,
)
    requires
        options.len() != 1,
    ensures
        same_session(t, t.completed(word, options)),
        options.len() == 0 ==> t.completed(word, options).screen == t.screen,
{
}

/// The history never holds more than fifty commands, and the last is the one
/// entered last.
pub proof fn law_history(t: terminal::TerminalState)
    requires
        t.history.len() <= terminal::HISTORY,
    ensures
        t.entered().t.history.len() <= terminal::HISTORY,
        shell::trim(t.cmd).len() > 0 ==> t.entered().t.history.last() == shell::trim(t.cmd),
        shell::trim(t.cmd).len() == 0 ==> t.entered().t.history == t.history,
{
    let cmd = shell::trim(t.cmd);
    let u = terminal::TerminalState {
        screen: t.screen.put(10, crate::display::rgb(crate::screen::TEXT as int)),
        cmd: ""@,
        behind: 0,
        history_idx: None,
        history: terminal::remember(t.history, cmd),
        ..t
    };
    law_command_keeps_session(u, cmd);
}

/// The up arrow brings back the command entered last, for a command in ASCII.
pub proof fn law_up_recalls(t: terminal::TerminalState)
    requires
        t.history.len() <= terminal::HISTORY,
        shell::trim(t.cmd).len() > 0,
        vstd::utf8::is_ascii_chars(shell::trim(t.cmd)),
        t.at_end().entered().ask is Done,
    ensures
        t.key(10).t.key(KEY_UP).t.cmd == shell::trim(t.cmd),
{
    let cmd = shell::trim(t.cmd);
    let e = t.at_end();
    law_history(e);
    let u = terminal::TerminalState {
        screen: e.screen.put(10, crate::display::rgb(crate::screen::TEXT as int)),
        cmd: ""@,
        behind: 0,
        history_idx: None,
        history: terminal::remember(e.history, cmd),
        ..e
    };
    law_command_keeps_session(u, cmd);
    let v = t.key(10).t;
    assert(v.history.last() == cmd && v.history.len() > 0 && v.history_idx is None);
    lemma_up(v);
    lemma_ascii_bytes(cmd);
}

proof fn lemma_up(t: terminal::TerminalState)
    requires
        t.history.len() > 0,
        t.history.len() <= terminal::HISTORY,
        t.history_idx is None,
    ensures
        t.key(KEY_UP).t.cmd == vstd::utf8::encode_utf8(t.history.last()).map_values(
            |b: u8| b as char,
        ),
{
}

/// The keys for the start and the end of the line leave a line that is all on the screen
/// as it was.
pub proof fn law_home_end(t: terminal::TerminalState)
    requires
        t.wf(),
        t.behind == 0,
        t.cmd.len() <= t.screen.place(),
    ensures
        t.key(1).t.key(5).t == (terminal::TerminalState { dirty: true, ..t }),
        t.key(1).t.rest() == t.cmd,
{
    lemma_home_key(t);
    lemma_end_key(t.key(1).t);
    lemma_there_and_back(t.screen, t.cmd.len() as int);
    assert(t.cmd.skip(0) =~= t.cmd);
}

proof fn lemma_home_key(t: terminal::TerminalState)
    ensures
        t.key(1).t == (terminal::TerminalState { dirty: true, ..t.at_start() }),
{
}

proof fn lemma_end_key(t: terminal::TerminalState)
    ensures
        t.key(5).t == (terminal::TerminalState { dirty: true, ..t.at_end() }),
{
}

/// Going back on the screen and on again ends where it began.
proof fn lemma_there_and_back(s: crate::screen::Screen, n: int)
    requires
        s.wf(),
        0 <= n <= s.place(),
    ensures
        s.at(s.place() - n).place() == s.place() - n,
        s.at(s.place() - n).at(s.place()) == s,
{
}

/// What is typed at the start of the line stands before the rest of it, and the cursor
/// behind what was typed.
pub proof fn law_typing_at_start(t: terminal::TerminalState, b: u8)
    requires
        t.wf(),
        b >= 32,
        b != KEY_UP,
        b != KEY_DOWN,
        vstd::utf8::encode_utf8(t.cmd).len() < 28,
    ensures
        t.key(1).t.key(b).t.cmd == seq![b as char] + t.cmd,
        t.key(1).t.key(b).t.rest() == t.cmd,
{
    let h = t.key(1).t;
    assert(t.cmd.skip(0) =~= t.cmd);
    assert(t.cmd.take(0).push(b as char) + t.cmd =~= seq![b as char] + t.cmd);
    if t.cmd.len() == 0 {
        assert(t.cmd.push(b as char) =~= seq![b as char] + t.cmd);
        assert((seq![b as char] + t.cmd).skip(1) =~= t.cmd);
    } else {
        assert((seq![b as char] + t.cmd).skip(1) =~= t.cmd);
    }
}

proof fn lemma_ascii_bytes(s: Seq<char>)
    requires
        vstd::utf8::is_ascii_chars(s),
    ensures
        vstd::utf8::encode_utf8(s).map_values(|b: u8| b as char) == s,
{
    vstd::utf8::is_ascii_chars_encode_utf8(s);
    vstd::utf8::is_ascii_chars_nat_bound(s);
    let e = vstd::utf8::encode_utf8(s).map_values(|b: u8| b as char);
    assert forall|i: int| 0 <= i < s.len() implies e[i] == s[i] by {
        assert(s[i] as nat <= 127);
    }
    assert(e =~= s);
}

/// The up arrow and then the down arrow leave an empty line.
pub proof fn law_up_down(t: terminal::TerminalState)
    requires
        t.history_idx is None,
        0 < t.history.len() <= terminal::HISTORY,
    ensures
        t.key(KEY_UP).t.key(KEY_DOWN).t.cmd == Seq::<char>::empty(),
        t.key(KEY_UP).t.key(KEY_DOWN).t.history_idx is None,
        t.key(KEY_UP).t.key(KEY_DOWN).t.history == t.history,
{
    reveal_strlit("");
    assert(""@ =~= Seq::<char>::empty());
    assert(vstd::utf8::encode_utf8(""@) =~= Seq::<u8>::empty());
}

// ── The line and the history stay within bounds ─────────────────────────────

proof fn lemma_trim_plain(s: Seq<char>)
    requires
        terminal::is_plain(s),
    ensures
        terminal::is_plain(shell::trim(s)),
{
    lemma_trim_start_plain(s);
    lemma_trim_end_plain(shell::trim_start(s));
}

proof fn lemma_trim_start_plain(s: Seq<char>)
    requires
        terminal::is_plain(s),
    ensures
        terminal::is_plain(shell::trim_start(s)),
    decreases s.len(),
{
    if s.len() > 0 && shell::is_white(s[0]) {
        assert forall|i: int| 0 <= i < s.drop_first().len() implies ' ' <= #[trigger] s.drop_first()[i]
            <= '\u{7f}' by {
            assert(s.drop_first()[i] == s[i + 1]);
        }
        lemma_trim_start_plain(s.drop_first());
    }
}

proof fn lemma_trim_end_plain(s: Seq<char>)
    requires
        terminal::is_plain(s),
    ensures
        terminal::is_plain(shell::trim_end(s)),
    decreases s.len(),
{
    if s.len() > 0 && shell::is_white(s.last()) {
        lemma_trim_end_plain(s.drop_last());
    }
}

proof fn lemma_typed_plain(t: terminal::TerminalState, b: u8)
    requires
        t.plain(),
        0 <= t.behind <= t.cmd.len(),
        b < 128,
    ensures
        t.typed(b).plain(),
        0 <= t.typed(b).behind <= t.typed(b).cmd.len(),
{
    assert(vstd::utf8::is_ascii_chars(t.cmd));
    vstd::utf8::is_ascii_chars_encode_utf8(t.cmd);
}

proof fn lemma_typed_all_plain(t: terminal::TerminalState, s: Seq<char>)
    requires
        t.plain(),
        0 <= t.behind <= t.cmd.len(),
        terminal::printable(s),
    ensures
        t.typed_all(s).plain(),
        0 <= t.typed_all(s).behind <= t.typed_all(s).cmd.len(),
    decreases s.len(),
{
    if s.len() > 0 {
        lemma_typed_all_plain(t, s.drop_last());
        let c = s.last();
        assert(s[s.len() - 1] == c);
        lemma_typed_plain(t.typed_all(s.drop_last()), c as u8);
    }
}

proof fn lemma_completed_plain(
    t: terminal::TerminalState,
    word: Seq<char>,
    names: Seq<Seq<char>>,
)
    requires
        t.plain(),
        0 <= t.behind <= t.cmd.len(),
        forall|i: int| 0 <= i < names.len() ==> terminal::printable(#[trigger] names[i]),
    ensures
        t.completed(word, complete::options(names, word)).plain(),
{
    let options = complete::options(names, word);
    if options.len() == 1 {
        let o = options[0];
        assert(options.contains(o));
        complete::law_options(names, word, o);
        let k = choose|k: int| 0 <= k < names.len() && names[k] == o;
        assert(terminal::printable(names[k]));
        reveal_strlit(" ");
        let s = o.skip(word.len() as int) + " "@;
        assert(terminal::printable(s)) by {
            assert forall|i: int| 0 <= i < s.len() implies ' ' <= #[trigger] s[i] <= '\u{7f}' by {
                if i < o.len() - word.len() {
                    assert(s[i] == o[i + word.len()]);
                }
            }
        }
        lemma_typed_all_plain(t, s);
    }
}

proof fn lemma_replaced_plain(t: terminal::TerminalState, new: Seq<char>)
    requires
        t.plain(),
        terminal::is_plain(new),
    ensures
        t.replaced(new).plain(),
{
    assert(vstd::utf8::is_ascii_chars(new));
    lemma_ascii_bytes(new);
}

proof fn lemma_entered_plain(t: terminal::TerminalState)
    requires
        t.plain(),
    ensures
        t.entered().t.plain(),
{
    let cmd = shell::trim(t.cmd);
    lemma_trim_plain(t.cmd);
    let u = terminal::TerminalState {
        screen: t.screen.put(10, crate::display::rgb(crate::screen::TEXT as int)),
        cmd: ""@,
        behind: 0,
        history_idx: None,
        history: terminal::remember(t.history, cmd),
        ..t
    };
    reveal_strlit("");
    assert(u.plain()) by {
        assert forall|i: int| 0 <= i < u.history.len() implies terminal::is_plain(
            #[trigger] u.history[i],
        ) by {
            let h = t.history.push(cmd);
            if cmd.len() > 0 {
                let k = if t.history.len() + 1 > terminal::HISTORY {
                    i + 1
                } else {
                    i
                };
                assert(u.history[i] == h[k]);
                if k < t.history.len() {
                    assert(h[k] == t.history[k]);
                }
            }
        }
    }
    law_command_keeps_session(u, cmd);
}

/// The keys of ASCII and the arrows keep the line at no more than twenty-eight
/// characters, all of them printable, and the commands of the history too. After any
/// key the terminal is to be drawn.
pub proof fn law_keys_stay_plain(t: terminal::TerminalState, b: u8)
    requires
        t.wf(),
        t.plain(),
        terminal::plain_key(b),
    ensures
        t.key(b).t.plain(),
        t.key(b).t.dirty,
{
    let e = t.at_end();
    assert(e.plain());
    reveal_strlit("");
    if b == 10 {
        lemma_entered_plain(e);
    } else if b == 9 {
        assert forall|i: int| 0 <= i < complete::command_names().len() implies terminal::printable(
            #[trigger] complete::command_names()[i],
        ) by {
            complete::law_names_printable(i);
        }
        lemma_completed_plain(e, e.cmd, complete::command_names());
    } else if b == KEY_UP || b == 0x10 {
        if e.history.len() > 0 {
            let i: usize = match e.history_idx {
                None => (e.history.len() - 1) as usize,
                Some(i) => if i == 0 {
                    0usize
                } else {
                    (i - 1) as usize
                },
            };
            let u = terminal::TerminalState { history_idx: Some(i), ..e };
            assert(u.plain());
            lemma_replaced_plain(u, e.history[i as int]);
        }
    } else if b == KEY_DOWN || b == 0x0E {
        if let Some(i) = e.history_idx {
            if i + 1 >= e.history.len() {
                let u = terminal::TerminalState { history_idx: None, ..e };
                assert(u.plain());
                lemma_replaced_plain(u, ""@);
            } else {
                let u = terminal::TerminalState { history_idx: Some((i + 1) as usize), ..e };
                assert(u.plain());
                lemma_replaced_plain(u, e.history[i + 1]);
            }
        }
    } else if b >= 32 {
        lemma_typed_plain(t, b);
    }
}

/// Answers keep the line and the history as plain as they were.
pub proof fn law_answers_stay_plain(t: terminal::TerminalState, a: protocol::Answer)
    requires
        t.wf(),
        t.plain(),
        t.accepts(a),
        terminal::plain_answer(t.wait, a),
    ensures
        t.answered(a).t.plain(),
{
    law_answer_keeps_session(t, a);
    if t.wait is Complete {
        let u = terminal::TerminalState { wait: terminal::Wait::Idle, ..t };
        let es = a->Names_0;
        let names = terminal::names_in(es);
        assert forall|i: int| 0 <= i < names.len() implies terminal::printable(
            #[trigger] names[i],
        ) by {
            assert(terminal::printable(es[i].1));
        }
        assert(u.plain());
        lemma_completed_plain(u, complete::behind_last(t.cmd, ' '), names);
    }
}

/// What stands behind the cursor is on the screen: on the cursor's row, from the cursor
/// on, with an empty cell behind it.
pub open spec fn shows_rest(t: terminal::TerminalState) -> bool {
    let row = t.screen.lines[t.screen.row];
    let col = t.screen.col;
    &&& col + t.behind < 29
    &&& forall|i: int|
        0 <= i < t.behind ==> 32 <= #[trigger] t.rest()[i] as u8 && row[col + i] == (
        crate::screen::Cell {
            ch: t.rest()[i] as u8,
            color: crate::display::rgb(crate::screen::TEXT as int),
        })
    &&& row[col + t.behind] == crate::screen::blank_cell()
}

/// Backspace takes back a character typed, at the end of the line or inside it: the
/// line, the cursor and the screen are as they were, where the line had room and is on
/// the screen.
pub proof fn law_backspace_undoes_typing(t: terminal::TerminalState, k: u8)
    requires
        t.wf(),
        32 <= k <= 126,
        vstd::utf8::encode_utf8(t.cmd).len() < 28,
        shows_rest(t),
    ensures
        t.key(k).t.cmd == t.cmd.take(t.cmd.len() - t.behind).push(k as char) + t.rest(),
        t.key(k).t.key(8).t == (terminal::TerminalState { dirty: true, ..t }),
{
    lemma_typed_key(t, k);
    lemma_rub_key(t.key(k).t);
    if t.behind == 0 {
        lemma_undone_at_end(t, k);
    } else {
        lemma_undone_line(t, k);
        lemma_undone_screen(t, k);
    }
}

/// Whatever is on the screen, backspace takes a typed character from the line again,
/// and leaves the cursor where it was in it.
pub proof fn law_backspace_undoes_in_line(t: terminal::TerminalState, k: u8)
    requires
        t.wf(),
        32 <= k <= 126,
        vstd::utf8::encode_utf8(t.cmd).len() < 28,
    ensures
        t.key(k).t.key(8).t.cmd == t.cmd,
        t.key(k).t.key(8).t.behind == t.behind,
        t.key(k).t.key(8).t.history == t.history,
{
    lemma_typed_key(t, k);
    lemma_rub_key(t.key(k).t);
    if t.behind == 0 {
        assert(t.cmd.push(k as char).drop_last() =~= t.cmd);
    } else {
        lemma_undone_line(t, k);
    }
}

proof fn lemma_undone_at_end(t: terminal::TerminalState, k: u8)
    requires
        t.wf(),
        t.behind == 0,
        32 <= k <= 126,
        vstd::utf8::encode_utf8(t.cmd).len() < 28,
        shows_rest(t),
    ensures
        t.typed(k).cmd == t.cmd.take(t.cmd.len() - t.behind).push(k as char) + t.rest(),
        t.typed(k).rubbed() == t,
        (terminal::TerminalState { dirty: true, ..t.typed(k) }).rubbed() == (
        terminal::TerminalState { dirty: true, ..t }),
{
    let u = t.typed(k);
    assert(t.cmd.take(t.cmd.len() - t.behind).push(k as char) + t.rest() =~= u.cmd);
    assert(u.cmd.drop_last() =~= t.cmd);
    let s = t.screen;
    let row = s.lines[s.row];
    let b = crate::screen::blank_cell();
    let c = crate::screen::Cell {
        ch: k,
        color: crate::display::rgb(crate::screen::TEXT as int),
    };
    assert(row.update(s.col, c).update(s.col, b) =~= row);
    assert(s.lines.update(s.row, row.update(s.col, c)).update(s.row, row) =~= s.lines);
    assert(u.screen.rub_out() =~= s);
}

/// Inside the line: the line with a character typed and taken back.
proof fn lemma_undone_line(t: terminal::TerminalState, k: u8)
    requires
        t.wf(),
        t.behind > 0,
        32 <= k <= 126,
        vstd::utf8::encode_utf8(t.cmd).len() < 28,
    ensures
        t.typed(k).cmd == t.cmd.take(t.cmd.len() - t.behind).push(k as char) + t.rest(),
        t.typed(k).rest() == t.rest(),
        t.typed(k).rubbed().cmd == t.cmd,
        (terminal::TerminalState { dirty: true, ..t.typed(k) }).rubbed().cmd == t.cmd,
        t.typed(k).behind == t.behind,
{
    let u = t.typed(k);
    let n = t.cmd.len() - t.behind;
    assert(u.cmd.skip(u.cmd.len() - u.behind) =~= t.rest());
    assert(u.cmd.take(n) =~= t.cmd.take(n));
    assert(t.cmd.take(n) + t.rest() =~= t.cmd);
}

/// A place on the screen, by its row and column.
proof fn lemma_at_place(s: crate::screen::Screen, row: int, col: int)
    requires
        0 <= row < 200,
        0 <= col < 30,
    ensures
        s.at(row * 30 + col) == (crate::screen::Screen { row, col, ..s }),
{
}

/// Inside the line: the screen with a character typed and taken back.
proof fn lemma_undone_screen(t: terminal::TerminalState, k: u8)
    requires
        t.wf(),
        t.behind > 0,
        32 <= k <= 126,
        vstd::utf8::encode_utf8(t.cmd).len() < 28,
        shows_rest(t),
    ensures
        t.typed(k).rubbed().screen == t.screen,
        (terminal::TerminalState { dirty: true, ..t.typed(k) }).rubbed().screen == t.screen,
{
    let s = t.screen;
    let r = t.rest();
    let b = t.behind;
    let hex = crate::screen::TEXT;
    let color = crate::display::rgb(hex as int);
    let u = t.typed(k);
    lemma_undone_line(t, k);
    let s1 = s.put(k, color);
    crate::screen::lemma_put_wf(s, k, color);
    assert(r.len() == b);
    crate::screen::law_text_appears(s1, r, hex);
    let s2 = s1.print(r, hex);
    lemma_at_place(s2, s.row, s.col + 1);
    assert(u.screen == (crate::screen::Screen { col: s.col + 1, ..s2 }));
    lemma_at_place(u.screen, s.row, s.col);
    let s3 = crate::screen::Screen { col: s.col, ..s2 };
    assert(u.screen.at(u.screen.place() - 1) == s3);
    reveal_strlit(" ");
    let w = r + " "@;
    assert forall|i: int| 0 <= i < w.len() implies 32 <= #[trigger] w[i] as u8 by {
        if i < b {
            assert(w[i] == r[i]);
        } else {
            assert(w[i] == ' ');
        }
    }
    crate::screen::law_text_appears(s3, w, hex);
    let s4 = s3.print(w, hex);
    lemma_at_place(s4, s.row, s.col);
    let s5 = crate::screen::Screen { col: s.col, ..s4 };
    assert(u.rubbed().screen == s5);
    assert forall|i: int| 0 <= i < 200 implies #[trigger] s5.lines[i] == s.lines[i] by {
        assert(s5.lines[i].len() == 30 && s.lines[i].len() == 30);
        assert forall|j: int| 0 <= j < 30 implies s5.lines[i][j] == s.lines[i][j] by {
            if i == s.row && s.col <= j <= s.col + b {
                assert(w[j - s.col] == (if j < s.col + b {
                    r[j - s.col]
                } else {
                    ' '
                }));
            } else {
                assert(s4.lines[i][j] == s3.lines[i][j]);
                assert(s2.lines[i][j] == s1.lines[i][j]);
                assert(s1.lines[i][j] == s.lines[i][j]);
            }
        }
        assert(s5.lines[i] =~= s.lines[i]);
    }
    assert(s5.lines =~= s.lines);
}

proof fn lemma_typed_key(t: terminal::TerminalState, k: u8)
    requires
        32 <= k <= 126,
    ensures
        t.key(k).t == (terminal::TerminalState { dirty: true, ..t.typed(k) }),
{
}

proof fn lemma_rub_key(t: terminal::TerminalState)
    ensures
        t.key(8).t == (terminal::TerminalState { dirty: true, ..t.rubbed() }),
{
}

/// A full line takes no more characters, and backspace on an empty one does nothing.
pub proof fn law_line_ends(t: terminal::TerminalState, k: u8)
    requires
        t.wf(),
        32 <= k <= 126,
    ensures
        vstd::utf8::encode_utf8(t.cmd).len() >= 28 ==> t.key(k).t == (terminal::TerminalState {
            dirty: true,
            ..t
        }),
        t.cmd.len() == 0 ==> t.key(8).t == (terminal::TerminalState { dirty: true, ..t }),
{
    lemma_typed_key(t, k);
    lemma_rub_key(t);
}

} // verus!
