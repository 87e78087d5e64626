//! What the commands of the shell do, by the line that is entered.
use vstd::prelude::*;
use crate::protocol::{Answer, Ask};
use crate::screen::{CURSOR, DIM, ERR, OK, TEXT};
use crate::shell::Command;
use crate::terminal::TerminalState;
use crate::{protocol, rtc, screen, shell, terminal, text};

verus! {

/// A command with one word behind it.
pub open spec fn line(word: Seq<char>, arg: Seq<char>) -> Seq<char> {
    word + seq![' '] + arg
}

/// A command with a word and some text behind it.
pub open spec fn line2(word: Seq<char>, arg: Seq<char>, rest: Seq<char>) -> Seq<char> {
    word + seq![' '] + (arg + seq![' '] + rest)
}

/// A word of a command line.
pub open spec fn is_word(s: Seq<char>) -> bool {
    s.len() > 0 && !s.contains(' ')
}

/// A word that is looked up in the working directory, not from the root.
pub open spec fn is_name(s: Seq<char>) -> bool {
    is_word(s) && s[0] != '/'
}

/// A word that is looked up from the root.
pub open spec fn is_path(s: Seq<char>) -> bool {
    is_word(s) && s[0] == '/'
}

// ── The words ───────────────────────────────────────────────────────────────

proof fn lemma_short_words()
    ensures
        shell::command_of("ls"@) == Command::Ls,
        shell::command_of("cd"@) == Command::Cd,
        shell::command_of("rm"@) == Command::Rm,
        shell::command_of("cp"@) == Command::Cp,
        shell::command_of("mv"@) == Command::Mv,
        shell::command_of("pwd"@) == Command::Pwd,
        shell::command_of("cat"@) == Command::Cat,
        shell::command_of("mem"@) == Command::Mem,
        shell::command_of("help"@) == Command::Help,
        shell::command_of("date"@) == Command::Date,
        shell::command_of("ping"@) == Command::Ping,
        shell::command_of("edit"@) == Command::Edit,
        shell::command_of("echo"@) == Command::Echo,
        shell::command_of(""@) == Command::Empty,
{
    lemma_all_letters();
    assert("echo"@.take(4) =~= "echo"@);
}

proof fn lemma_long_words()
    ensures
        shell::command_of("clear"@) == Command::Clear,
        shell::command_of("mkdir"@) == Command::Mkdir,
        shell::command_of("touch"@) == Command::Touch,
        shell::command_of("write"@) == Command::Write,
        shell::command_of("uname"@) == Command::Uname,
        shell::command_of("lspci"@) == Command::Lspci,
        shell::command_of("reboot"@) == Command::Reboot,
        shell::command_of("history"@) == Command::History,
        shell::command_of("sysinfo"@) == Command::Sysinfo,
        shell::command_of("netpoll"@) == Command::Netpoll,
        shell::command_of("netdiag"@) == Command::Netdiag,
        shell::command_of("netstart"@) == Command::Netstart,
        shell::command_of("ifconfig"@) == Command::Ifconfig,
        shell::command_of("shutdown"@) == Command::Shutdown,
{
    lemma_all_letters();
}

/// The first letters of each word, and its length.
proof fn lemma_all_letters()
    ensures
        ""@.len() == 0,
        "ls"@.len() == 2 && "ls"@[0] == 'l' && "ls"@[1] == 's',
        "cd"@.len() == 2 && "cd"@[0] == 'c' && "cd"@[1] == 'd',
        "rm"@.len() == 2 && "rm"@[0] == 'r' && "rm"@[1] == 'm',
        "cp"@.len() == 2 && "cp"@[0] == 'c' && "cp"@[1] == 'p',
        "mv"@.len() == 2 && "mv"@[0] == 'm' && "mv"@[1] == 'v',
        "pwd"@.len() == 3 && "pwd"@[0] == 'p',
        "cat"@.len() == 3 && "cat"@[0] == 'c',
        "mem"@.len() == 3 && "mem"@[0] == 'm',
        "help"@.len() == 4 && "help"@[0] == 'h' && "help"@[1] == 'e',
        "date"@.len() == 4 && "date"@[0] == 'd' && "date"@[1] == 'a',
        "ping"@.len() == 4 && "ping"@[0] == 'p' && "ping"@[1] == 'i',
        "edit"@.len() == 4 && "edit"@[0] == 'e' && "edit"@[1] == 'd',
        "echo"@.len() == 4 && "echo"@[0] == 'e' && "echo"@[1] == 'c',
        "clear"@.len() == 5 && "clear"@[0] == 'c',
        "mkdir"@.len() == 5 && "mkdir"@[0] == 'm',
        "touch"@.len() == 5 && "touch"@[0] == 't',
        "write"@.len() == 5 && "write"@[0] == 'w',
        "uname"@.len() == 5 && "uname"@[0] == 'u',
        "lspci"@.len() == 5 && "lspci"@[0] == 'l',
        "reboot"@.len() == 6,
        "history"@.len() == 7 && "history"@[0] == 'h' && "history"@[3] == 't',
        "sysinfo"@.len() == 7 && "sysinfo"@[0] == 's' && "sysinfo"@[3] == 'i',
        "netpoll"@.len() == 7 && "netpoll"@[0] == 'n' && "netpoll"@[3] == 'p',
        "netdiag"@.len() == 7 && "netdiag"@[0] == 'n' && "netdiag"@[3] == 'd',
        "netstart"@.len() == 8 && "netstart"@[0] == 'n',
        "ifconfig"@.len() == 8 && "ifconfig"@[0] == 'i',
        "shutdown"@.len() == 8 && "shutdown"@[0] == 's',
{
    reveal_strlit("");
    reveal_strlit("ls");
    reveal_strlit("cd");
    reveal_strlit("rm");
    reveal_strlit("cp");
    reveal_strlit("mv");
    reveal_strlit("pwd");
    reveal_strlit("cat");
    reveal_strlit("mem");
    reveal_strlit("help");
    reveal_strlit("date");
    reveal_strlit("ping");
    reveal_strlit("edit");
    reveal_strlit("echo");
    reveal_strlit("clear");
    reveal_strlit("mkdir");
    reveal_strlit("touch");
    reveal_strlit("write");
    reveal_strlit("uname");
    reveal_strlit("lspci");
    reveal_strlit("reboot");
    reveal_strlit("history");
    reveal_strlit("sysinfo");
    reveal_strlit("netpoll");
    reveal_strlit("netdiag");
    reveal_strlit("netstart");
    reveal_strlit("ifconfig");
    reveal_strlit("shutdown");
}

/// None of the words holds a space.
proof fn lemma_no_spaces()
    ensures
        !"ls"@.contains(' '),
        !"cd"@.contains(' '),
        !"rm"@.contains(' '),
        !"cp"@.contains(' '),
        !"mv"@.contains(' '),
        !"cat"@.contains(' '),
        !"ping"@.contains(' '),
        !"edit"@.contains(' '),
        !"mkdir"@.contains(' '),
        !"touch"@.contains(' '),
        !"write"@.contains(' '),
{
    reveal_strlit("ls");
    reveal_strlit("cd");
    reveal_strlit("rm");
    reveal_strlit("cp");
    reveal_strlit("mv");
    reveal_strlit("cat");
    reveal_strlit("ping");
    reveal_strlit("edit");
    reveal_strlit("mkdir");
    reveal_strlit("touch");
    reveal_strlit("write");
}

/// A word alone on its line.
proof fn lemma_alone(word: Seq<char>)
    requires
        !word.contains(' '),
    ensures
        shell::verb_of(word) == word,
        shell::arg1_of(word).len() == 0,
        shell::arg2_of(word).len() == 0,
{
    shell::lemma_find_at(word, ' ');
    let i = shell::find(word, ' ');
    if i < word.len() {
        assert(word.contains(word[i]));
    }
    assert(word.take(word.len() as int) =~= word);
    let e = Seq::<char>::empty();
    shell::lemma_find_at(e, ' ');
}

// ── Files ───────────────────────────────────────────────────────────────────

/// `rm` of a name removes that name from the working directory, wherever that is, and says
/// whether it did. Without a name it removes nothing.
pub proof fn law_rm(t: TerminalState, name: Seq<char>)
    requires
        is_word(name),
    ensures
        ({
            let s = t.execute(line("rm"@, name));
            &&& s.ask == (Ask::Remove { parent: t.cwd_ino, name })
            &&& s.t.accepts(Answer::Removed(true)) && s.t.accepts(Answer::Removed(false))
            &&& s.t.answered(Answer::Removed(true)) == t.say("removed\n"@, OK).done()
            &&& s.t.answered(Answer::Removed(false)) == t.say(
                "rm: failed (not found or dir not empty)\n"@,
                ERR,
            ).done()
        }),
        t.execute("rm"@) == t.say("usage: rm <name>\n"@, ERR).done(),
{
    lemma_short_words();
    lemma_no_spaces();
    shell::law_two_words("rm"@, name);
    lemma_alone("rm"@);
}

/// `mkdir` of a name makes a directory of that name in the working directory.
pub proof fn law_mkdir(t: TerminalState, name: Seq<char>)
    requires
        is_word(name),
    ensures
        ({
            let s = t.execute(line("mkdir"@, name));
            &&& s.ask == (Ask::CreateDir { parent: t.cwd_ino, name })
            &&& s.t.accepts(Answer::Done)
            &&& s.t.answered(Answer::Done) == t.say("created\n"@, OK).done()
        }),
        t.execute("mkdir"@) == t.say("usage: mkdir <name>\n"@, ERR).done(),
{
    lemma_long_words();
    lemma_no_spaces();
    shell::law_two_words("mkdir"@, name);
    lemma_alone("mkdir"@);
}

/// `touch` of a name makes an empty file of that name in the working directory: nothing
/// is written to it.
pub proof fn law_touch(t: TerminalState, name: Seq<char>, ino: u32)
    requires
        is_word(name),
    ensures
        ({
            let s = t.execute(line("touch"@, name));
            &&& s.ask == (Ask::CreateFile { parent: t.cwd_ino, name })
            &&& s.t.accepts(Answer::Created(ino))
            &&& s.t.answered(Answer::Created(ino)) == t.say("created\n"@, OK).done()
        }),
        t.execute("touch"@) == t.say("usage: touch <name>\n"@, ERR).done(),
{
    lemma_long_words();
    lemma_no_spaces();
    shell::law_two_words("touch"@, name);
    lemma_alone("touch"@);
}

/// The inode found under a name is that of the first entry with just this name.
pub proof fn law_found(es: Seq<(u32, Seq<char>)>, name: Seq<char>)
    ensures
        terminal::find_ino(es, name) is None <==> forall|i: int|
            0 <= i < es.len() ==> (#[trigger] es[i]).1 != name,
        terminal::find_ino(es, name) matches Some(ino) ==> exists|i: int|
            0 <= i < es.len() && #[trigger] es[i] == (ino, name) && forall|j: int|
                0 <= j < i ==> (#[trigger] es[j]).1 != name,
    decreases es.len(),
{
    if es.len() > 0 {
        let r = es.drop_first();
        law_found(r, name);
        if es[0].1 == name {
            assert(es[0] == (es[0].0, name));
        } else {
            if terminal::find_ino(es, name) is None {
                assert forall|i: int| 0 <= i < es.len() implies (#[trigger] es[i]).1 != name by {
                    if i > 0 {
                        assert(r[i - 1] == es[i]);
                    }
                }
            } else {
                let ino = terminal::find_ino(es, name)->0;
                let i = choose|i: int|
                    0 <= i < r.len() && #[trigger] r[i] == (ino, name) && forall|j: int|
                        0 <= j < i ==> (#[trigger] r[j]).1 != name;
                assert(es[i + 1] == (ino, name));
                assert forall|j: int| 0 <= j < i + 1 implies (#[trigger] es[j]).1 != name by {
                    if j > 0 {
                        assert(r[j - 1] == es[j]);
                    }
                }
            }
        }
    }
}

/// `ls` alone lists the working directory; with a name, the directory of that name in it;
/// with a path, the directory at the path. What is not there is not listed.
pub proof fn law_ls(
    t: TerminalState,
    name: Seq<char>,
    path: Seq<char>,
    es: Seq<(u32, Seq<char>)>,
    ino: u32,
)
    requires
        is_name(name),
        is_path(path),
    ensures
        t.execute("ls"@).ask == (Ask::Listing { ino: t.cwd_ino }),
        ({
            let s = t.execute(line("ls"@, name));
            let a = s.t.answered(Answer::Names(es));
            &&& s.ask == (Ask::Names { ino: t.cwd_ino })
            &&& terminal::find_ino(es, name) matches Some(i) ==> a.ask == (Ask::Listing { ino: i })
            &&& terminal::find_ino(es, name) is None ==> a == t.say("ls: not found\n"@, ERR).done()
        }),
        ({
            let s = t.execute(line("ls"@, path));
            &&& s.ask == (Ask::Lookup { path })
            &&& s.t.answered(Answer::Found(Some(ino))).ask == (Ask::Listing { ino })
            &&& s.t.answered(Answer::Found(None)) == t.say("ls: not found\n"@, ERR).done()
        }),
{
    lemma_short_words();
    lemma_no_spaces();
    shell::law_two_words("ls"@, name);
    shell::law_two_words("ls"@, path);
    lemma_alone("ls"@);
}

/// A listing shows every entry on a line of its own, in order: a directory with a slash
/// behind its name, a file with its size in bytes. A directory without entries is said to
/// be empty. Then the prompt comes.
pub proof fn law_ls_shows(t: TerminalState, es: Seq<protocol::Entry>, n: int)
    requires
        t.wait is List,
        0 < n <= es.len(),
    ensures
        t.answered(Answer::Listing(es)).ask is Done,
        ({
            let u = TerminalState { wait: terminal::Wait::Idle, ..t };
            let e = es[n - 1];
            &&& t.answered(Answer::Listing(es)) == u.list_entries(es, es.len() as int).done()
            &&& u.list_entries(es, 0) == u
            &&& e.is_dir ==> u.list_entries(es, n) == u.list_entries(es, n - 1).say(
                e.name + "/\n"@,
                CURSOR,
            )
            &&& !e.is_dir ==> u.list_entries(es, n) == u.list_entries(es, n - 1).say(
                e.name,
                TEXT,
            ).say("  ("@ + text::dec(e.size as nat) + " B)\n"@, DIM)
            &&& t.answered(Answer::Listing(Seq::empty())) == u.say("(empty)\n"@, DIM).done()
        }),
{
}

/// `cat` reads the file of the name in the working directory, or at the path, and prints
/// what is in it, with a line end behind it if it has none.
pub proof fn law_cat(
    t: TerminalState,
    name: Seq<char>,
    path: Seq<char>,
    es: Seq<(u32, Seq<char>)>,
    ino: u32,
    data: Seq<u8>,
)
    requires
        is_name(name),
        is_path(path),
        terminal::find_ino(es, name) == Some(ino),
    ensures
        ({
            let s = t.execute(line("cat"@, name));
            let a = s.t.answered(Answer::Names(es));
            let b = a.t.answered(Answer::Data(data));
            let shown = text::utf8_lossy(data);
            &&& s.ask == (Ask::Names { ino: t.cwd_ino })
            &&& a.ask == (Ask::Read { ino })
            &&& shown.len() > 0 && shown.last() == '\n' ==> b == t.say(shown, TEXT).done()
            &&& shown.len() == 0 || shown.last() != '\n' ==> b == t.say(shown, TEXT).say(
                "\n"@,
                TEXT,
            ).done()
        }),
        ({
            let s = t.execute(line("cat"@, path));
            &&& s.ask == (Ask::Lookup { path })
            &&& s.t.answered(Answer::Found(Some(ino))).ask == (Ask::Read { ino })
            &&& s.t.answered(Answer::Found(None)) == t.say("cat: not found\n"@, ERR).done()
        }),
        t.execute("cat"@) == t.say("usage: cat <file>\n"@, ERR).done(),
{
    lemma_short_words();
    lemma_no_spaces();
    shell::law_two_words("cat"@, name);
    shell::law_two_words("cat"@, path);
    lemma_alone("cat"@);
}

/// `cd` to a path from the root: the path is looked up, and where it is a directory it is
/// the new working directory; else nothing changes but what is said.
pub proof fn law_cd_path(t: TerminalState, path: Seq<char>, ino: u32)
    requires
        is_path(path),
        path != seq!['/'],
    ensures
        ({
            let s = t.execute(line("cd"@, path));
            let k = s.t.answered(Answer::Found(Some(ino)));
            let d = k.t.answered(Answer::Kind(true));
            &&& s.ask == (Ask::Lookup { path })
            &&& k.ask == (Ask::Kind { ino })
            &&& d == (TerminalState { cwd: path, cwd_ino: ino, ..t }).done()
            &&& k.t.answered(Answer::Kind(false)) == t.say("cd: not a directory\n"@, ERR).done()
            &&& s.t.answered(Answer::Found(None)) == t.say("cd: not found\n"@, ERR).done()
        }),
{
    lemma_short_words();
    lemma_no_spaces();
    reveal_strlit("/");
    reveal_strlit("..");
    assert("/"@ =~= seq!['/']);
    assert(".."@[0] != '/');
    shell::law_two_words("cd"@, path);
}

/// `cd /` goes to the root at once.
pub proof fn law_cd_root(t: TerminalState)
    ensures
        t.execute(line("cd"@, seq!['/'])) == (TerminalState {
            cwd: seq!['/'],
            cwd_ino: t.root,
            ..t
        }).done(),
{
    lemma_short_words();
    lemma_no_spaces();
    reveal_strlit("/");
    assert("/"@ =~= seq!['/']);
    shell::law_two_words("cd"@, seq!['/']);
}

/// `cd` to a name in the working directory goes there where it is a directory, and the
/// path grows by the name.
pub proof fn law_cd_name(t: TerminalState, name: Seq<char>, es: Seq<(u32, Seq<char>)>, ino: u32)
    requires
        is_name(name),
        name != seq!['.', '.'],
        terminal::find_ino(es, name) == Some(ino),
    ensures
        ({
            let s = t.execute(line("cd"@, name));
            let k = s.t.answered(Answer::Names(es));
            let path = if t.cwd == seq!['/'] {
                seq!['/'] + name
            } else {
                t.cwd + seq!['/'] + name
            };
            &&& s.ask == (Ask::Names { ino: t.cwd_ino })
            &&& k.ask == (Ask::Kind { ino })
            &&& k.t.answered(Answer::Kind(true)) == (TerminalState {
                cwd: path,
                cwd_ino: ino,
                ..t
            }).done()
            &&& k.t.answered(Answer::Kind(false)) == t.say("cd: not a directory\n"@, ERR).done()
        }),
{
    lemma_short_words();
    lemma_no_spaces();
    reveal_strlit("/");
    reveal_strlit("..");
    assert(".."@ =~= seq!['.', '.']);
    assert("/"@[0] == '/');
    shell::law_two_words("cd"@, name);
}

/// `write` puts the text behind the name, and nothing else, into the file of that name in
/// the working directory: into the one that is there, or into a new one.
pub proof fn law_write(
    t: TerminalState,
    name: Seq<char>,
    content: Seq<char>,
    es: Seq<(u32, Seq<char>)>,
    new: u32,
)
    requires
        is_name(name),
        content.len() > 0,
    ensures
        ({
            let s = t.execute(line2("write"@, name, content));
            let a = s.t.answered(Answer::Names(es));
            let data = vstd::utf8::encode_utf8(content);
            &&& s.ask == (Ask::Names { ino: t.cwd_ino })
            &&& terminal::find_ino(es, name) matches Some(ino) ==> {
                &&& a.ask == (Ask::Write { ino, data })
                &&& a.t.answered(Answer::Done) == t.say("written\n"@, OK).done()
            }
            &&& terminal::find_ino(es, name) is None ==> {
                let c = a.t.answered(Answer::Created(new));
                &&& a.ask == (Ask::CreateFile { parent: t.cwd_ino, name })
                &&& c.ask == (Ask::Write { ino: new, data })
                &&& c.t.answered(Answer::Done) == t.say("written\n"@, OK).done()
            }
        }),
        t.execute(line("write"@, name)) == t.say("usage: write <file> <content>\n"@, ERR).done(),
        t.execute("write"@) == t.say("usage: write <file> <content>\n"@, ERR).done(),
{
    lemma_long_words();
    lemma_no_spaces();
    shell::law_three_words("write"@, name, content);
    shell::law_two_words("write"@, name);
    lemma_alone("write"@);
}

/// `write` to a path from the root writes to the file at that path where there is one.
pub proof fn law_write_path(t: TerminalState, path: Seq<char>, content: Seq<char>, ino: u32)
    requires
        is_path(path),
        content.len() > 0,
    ensures
        ({
            let s = t.execute(line2("write"@, path, content));
            &&& s.ask == (Ask::Lookup { path })
            &&& s.t.answered(Answer::Found(Some(ino))).ask == (Ask::Write {
                ino,
                data: vstd::utf8::encode_utf8(content),
            })
        }),
{
    lemma_long_words();
    lemma_no_spaces();
    shell::law_three_words("write"@, path, content);
}

/// The word for copying, or for moving.
pub open spec fn copy_word(moving: bool) -> Seq<char> {
    if moving {
        "mv"@
    } else {
        "cp"@
    }
}

proof fn lemma_copy_starts(t: TerminalState, moving: bool, a: Seq<char>, b: Seq<char>)
    requires
        is_word(a),
        b.len() > 0,
    ensures
        t.execute(line2(copy_word(moving), a, b)) == t.resolve(
            terminal::Aim::Copy { job: terminal::JobText { src: a, dst: b, moving } },
            a,
        ),
{
    lemma_short_words();
    lemma_no_spaces();
    shell::law_three_words(copy_word(moving), a, b);
}

/// `cp` and `mv` of a file read the bytes of the source and write just them to the
/// destination, the file of that name or a new one, both in the working directory. `cp`
/// then is done; `mv` removes the source's name, and nothing else, from the working
/// directory.
pub proof fn law_copy(
    t: TerminalState,
    moving: bool,
    a: Seq<char>,
    b: Seq<char>,
    es: Seq<(u32, Seq<char>)>,
    from: u32,
    data: Seq<u8>,
    fs: Seq<(u32, Seq<char>)>,
    new: u32,
)
    requires
        is_name(a),
        b.len() > 0,
        b[0] != '/',
        terminal::find_ino(es, a) == Some(from),
        terminal::find_ino(fs, b) != Some(from) || !moving,
    ensures
        ({
            let s0 = t.execute(line2(copy_word(moving), a, b));
            let s1 = s0.t.answered(Answer::Names(es));
            let s2 = s1.t.answered(Answer::Kind(false));
            let s3 = s2.t.answered(Answer::Data(data));
            let s4 = s3.t.answered(Answer::Names(fs));
            let s5 = s4.t.answered(
                if terminal::find_ino(fs, b) is Some {
                    Answer::Kind(false)
                } else {
                    Answer::Created(new)
                },
            );
            let s6 = s5.t.answered(Answer::Done);
            &&& s0.ask == (Ask::Names { ino: t.cwd_ino })
            &&& s1.ask == (Ask::Kind { ino: from })
            &&& s2.ask == (Ask::Read { ino: from })
            &&& s3.ask == (Ask::Names { ino: t.cwd_ino })
            &&& terminal::find_ino(fs, b) matches Some(to) ==> s4.ask == (Ask::Kind { ino: to })
                && s5.ask == (Ask::Write { ino: to, data })
            &&& terminal::find_ino(fs, b) is None ==> s4.ask == (Ask::CreateFile {
                parent: t.cwd_ino,
                name: b,
            }) && s5.ask == (Ask::Write { ino: new, data })
            &&& !moving ==> s6 == t.say("copied\n"@, OK).done()
            &&& moving ==> s6.ask == (Ask::Remove { parent: t.cwd_ino, name: a })
                && s6.t.answered(Answer::Removed(true)) == t.say("moved\n"@, OK).done()
        }),
{
    lemma_copy_starts(t, moving, a, b);
}

/// `cp` and `mv` refuse what is not there and what is a directory; `mv` refuses to move a
/// file onto itself. Then nothing was written and nothing is removed.
pub proof fn law_copy_refused(
    t: TerminalState,
    moving: bool,
    a: Seq<char>,
    b: Seq<char>,
    es: Seq<(u32, Seq<char>)>,
    data: Seq<u8>,
    fs: Seq<(u32, Seq<char>)>,
)
    requires
        is_name(a),
        b.len() > 0,
        b[0] != '/',
    ensures
        ({
            let s0 = t.execute(line2(copy_word(moving), a, b));
            let s1 = s0.t.answered(Answer::Names(es));
            let s3 = s1.t.answered(Answer::Kind(false)).t.answered(Answer::Data(data));
            let s4 = s3.t.answered(Answer::Names(fs));
            &&& terminal::find_ino(es, a) is None ==> s1.ask is Done
            &&& terminal::find_ino(es, a) is Some ==> s1.t.answered(Answer::Kind(true)).ask is Done
            &&& terminal::find_ino(es, a) is Some && terminal::find_ino(fs, b)
                == terminal::find_ino(es, a) && moving ==> s4.ask is Done
            &&& terminal::find_ino(es, a) is Some && terminal::find_ino(fs, b) is Some && (
            terminal::find_ino(fs, b) != terminal::find_ino(es, a) || !moving)
                ==> s4.t.answered(Answer::Kind(true)).ask is Done
        }),
        t.execute(copy_word(moving)).ask is Done,
        t.execute(line(copy_word(moving), a)).ask is Done,
{
    lemma_short_words();
    lemma_no_spaces();
    lemma_copy_starts(t, moving, a, b);
    lemma_alone(copy_word(moving));
    shell::law_two_words(copy_word(moving), a);
}

/// A moved file that was named by its path is removed from the directory in which the path
/// puts it, under the name at the path's end.
pub proof fn law_move_leaves(t: TerminalState, job: terminal::JobText, dir: u32)
    requires
        job.moving,
        job.src.len() > 1,
        job.src[0] == '/',
        t.wait == (terminal::Wait::Copy { job, at: terminal::At::Write }),
    ensures
        ({
            let s = t.answered(Answer::Done);
            let up = shell::parent(job.src);
            let name = shell::base(job.src);
            &&& up == seq!['/'] ==> s.ask == (Ask::Remove { parent: t.root, name })
            &&& up != seq!['/'] ==> s.ask == (Ask::Lookup { path: up })
            &&& up != seq!['/'] ==> s.t.answered(Answer::Found(Some(dir))).ask == (Ask::Remove {
                parent: dir,
                name,
            })
        }),
{
}

// ── The rest of the commands ────────────────────────────────────────────────

/// `pwd` prints the path of the working directory.
pub proof fn law_pwd(t: TerminalState)
    ensures
        t.execute("pwd"@) == t.say(t.cwd, OK).say("\n"@, TEXT).done(),
{
    lemma_short_words();
    reveal_strlit("pwd");
    lemma_alone("pwd"@);
}

/// `clear` leaves nothing on the screen but a new prompt at its top.
pub proof fn law_clear(t: TerminalState)
    ensures
        t.execute("clear"@) == (TerminalState { screen: screen::Screen::empty(), ..t }).done(),
{
    lemma_long_words();
    reveal_strlit("clear");
    lemma_alone("clear"@);
}

/// An empty line does nothing but give a new prompt.
pub proof fn law_empty_line(t: TerminalState)
    ensures
        t.execute(Seq::<char>::empty()) == t.done(),
{
    lemma_short_words();
    reveal_strlit("");
    assert(""@ =~= Seq::<char>::empty());
    lemma_alone(""@);
}

/// The prompt is the path of the working directory with a dollar sign; while it stands
/// there the terminal asks for nothing.
pub proof fn law_prompt(t: TerminalState)
    ensures
        t.done().t.screen == t.screen.print(t.cwd + seq![' ', '$', ' '], CURSOR),
        t.done().ask is Done,
        t.done().t.wait is Idle,
        t.done().t.dirty,
        t.done().t.cwd == t.cwd && t.done().t.cwd_ino == t.cwd_ino && t.done().t.root == t.root,
        t.done().t.cmd == t.cmd && t.done().t.history == t.history,
{
    reveal_strlit(" $ ");
    assert(" $ "@ =~= seq![' ', '$', ' ']);
}

/// What is said comes out on the screen, in its colour, and changes nothing else but that
/// a new frame is wanted.
pub proof fn law_say(t: TerminalState, s: Seq<char>, hex: u32)
    ensures
        t.say(s, hex) == (TerminalState {
            screen: t.screen.print(s, hex),
            dirty: true,
            ..t
        }),
{
}

/// `history` prints the commands of the history, the oldest first, each behind its number
/// from one on.
pub proof fn law_history_lists(t: TerminalState, n: int)
    requires
        0 < n <= t.history.len(),
    ensures
        t.execute("history"@) == t.list_history(t.history.len() as int).done(),
        t.list_history(0) == t,
        t.list_history(n) == t.list_history(n - 1).say(
            text::pad_left(text::dec(n as nat), 3) + seq![' ', ' '],
            DIM,
        ).say(t.history[n - 1], TEXT).say(seq!['\n'], TEXT),
{
    lemma_long_words();
    reveal_strlit("history");
    reveal_strlit("  ");
    reveal_strlit("\n");
    assert("  "@ =~= seq![' ', ' ']);
    assert("\n"@ =~= seq!['\n']);
    lemma_alone("history"@);
}

/// The history keeps what was entered, in order: a new command comes last, and only where
/// there are fifty already the oldest one goes.
pub proof fn law_remembers(t: TerminalState)
    requires
        t.history.len() <= 50,
        shell::trim(t.cmd).len() > 0,
    ensures
        ({
            let h = terminal::remember(t.history, shell::trim(t.cmd));
            &&& t.entered().t.history == h
            &&& h.last() == shell::trim(t.cmd)
            &&& t.history.len() < 50 ==> h.drop_last() == t.history
            &&& t.history.len() == 50 ==> h.drop_last() == t.history.drop_first()
        }),
{
    crate::terminal_laws::law_history(t);
    let cmd = shell::trim(t.cmd);
    let u = TerminalState {
        screen: t.screen.put(10, crate::display::rgb(TEXT as int)),
        cmd: ""@,
        behind: 0,
        history_idx: None,
        history: terminal::remember(t.history, cmd),
        ..t
    };
    crate::terminal_laws::law_command_keeps_session(u, cmd);
    let h = terminal::remember(t.history, cmd);
    if t.history.len() < 50 {
        assert(h.drop_last() =~= t.history);
    } else {
        assert(h.drop_last() =~= t.history.drop_first());
    }
}

/// Enter carries out the line without the blanks at its ends, with an empty line left.
pub proof fn law_enter_runs(t: TerminalState)
    requires
        t.behind == 0,
    ensures
        ({
            let u = TerminalState {
                screen: t.screen.put(10, crate::display::rgb(TEXT as int)),
                cmd: Seq::<char>::empty(),
                behind: 0,
                history_idx: None,
                history: terminal::remember(t.history, shell::trim(t.cmd)),
                ..t
            };
            &&& t.key(10).ask == u.execute(shell::trim(t.cmd)).ask
            &&& t.key(10).t == (TerminalState {
                dirty: true,
                ..u.execute(shell::trim(t.cmd)).t
            })
        }),
{
    reveal_strlit("");
    assert(""@ =~= Seq::<char>::empty());
}

/// The commands that ask the machine ask for what their name says.
pub proof fn law_machine_asked(t: TerminalState)
    ensures
        t.execute("date"@).ask is Clock,
        t.execute("mem"@).ask is Memory,
        t.execute("sysinfo"@).ask is Memory,
        t.execute("lspci"@).ask is Devices,
        t.execute("ifconfig"@).ask is NicAddress,
        t.execute("netpoll"@).ask is RxRing,
        t.execute("netstart"@).ask is StartNic,
        t.execute("netdiag"@).ask == (Ask::PciConfig { bus: 0, dev: 3, func: 0 }),
        t.execute("shutdown"@).ask is Shutdown,
        t.execute("reboot"@).ask is Reboot,
{
    lemma_machine_words();
    lemma_network_words(t);
    lemma_short_words();
    lemma_long_words();
}

proof fn lemma_machine_words()
    ensures
        shell::verb_of("date"@) == "date"@,
        shell::verb_of("mem"@) == "mem"@,
        shell::verb_of("sysinfo"@) == "sysinfo"@,
        shell::verb_of("shutdown"@) == "shutdown"@,
        shell::verb_of("reboot"@) == "reboot"@,
{
    reveal_strlit("date");
    reveal_strlit("mem");
    reveal_strlit("sysinfo");
    reveal_strlit("shutdown");
    reveal_strlit("reboot");
    lemma_alone("date"@);
    lemma_alone("mem"@);
    lemma_alone("sysinfo"@);
    lemma_alone("shutdown"@);
    lemma_alone("reboot"@);
}

proof fn lemma_network_words(t: TerminalState)
    ensures
        shell::verb_of("lspci"@) == "lspci"@,
        shell::verb_of("ifconfig"@) == "ifconfig"@,
        shell::verb_of("netpoll"@) == "netpoll"@,
        shell::verb_of("netstart"@) == "netstart"@,
        shell::verb_of("netdiag"@) == "netdiag"@,
{
    reveal_strlit("lspci");
    reveal_strlit("ifconfig");
    reveal_strlit("netpoll");
    reveal_strlit("netstart");
    reveal_strlit("netdiag");
    lemma_alone("lspci"@);
    lemma_alone("ifconfig"@);
    lemma_alone("netpoll"@);
    lemma_alone("netstart"@);
    lemma_alone("netdiag"@);
}

/// `date` prints the date and the time that the clock gave; `mem` the kilobytes that are
/// free and all that there are, four to a page.
#[verifier::rlimit(30)]
pub proof fn law_machine_shown(t: TerminalState, clock: rtc::DateTime, free: u64, total: u64)
    requires
        free * 4 <= u64::MAX,
        total * 4 <= u64::MAX,
    ensures
        t.execute("date"@).t.answered(Answer::Clock(clock)) == t.say(
            rtc::ascii(rtc::date_bytes(clock)),
            TEXT,
        ).say("  "@, TEXT).say(rtc::ascii(rtc::time_bytes(clock)), CURSOR).say("\n"@, TEXT).done(),
        t.execute("mem"@).t.answered(Answer::Pages { free, total }) == t.say("RAM: "@, DIM).say(
            text::dec((free * 4) as nat),
            TEXT,
        ).say(" KB free / "@, TEXT).say(text::dec((total * 4) as nat), TEXT).say(
            " KB total\n"@,
            TEXT,
        ).done(),
{
    lemma_machine_words();
    lemma_short_words();
}

/// `edit` of a name opens the file of that name in the working directory, by its whole
/// path; a path from the root is opened as it stands.
#[verifier::rlimit(30)]
pub proof fn law_edit(t: TerminalState, name: Seq<char>, path: Seq<char>)
    requires
        is_name(name),
        is_path(path),
    ensures
        t.execute(line("edit"@, name)).ask == (Ask::Edit {
            path: if t.cwd == seq!['/'] {
                seq!['/'] + name
            } else {
                t.cwd + seq!['/'] + name
            },
            name,
        }),
        t.execute(line("edit"@, path)).ask == (Ask::Edit { path, name: path }),
        t.execute("edit"@) == t.say("usage: edit <file>\n"@, ERR).done(),
{
    lemma_short_words();
    lemma_no_spaces();
    shell::law_two_words("edit"@, name);
    shell::law_two_words("edit"@, path);
    lemma_alone("edit"@);
}

/// A word that is no command is named as such, and nothing is done.
pub proof fn law_unknown(t: TerminalState, word: Seq<char>)
    requires
        is_word(word),
        shell::command_of(word) == Command::Unknown,
    ensures
        t.execute(word) == t.say(word, ERR).say(": command not found  (try 'help')\n"@, DIM).done(),
{
    lemma_alone(word);
}

// ── Keys ────────────────────────────────────────────────────────────────────

/// A printable key types its character at the cursor: what stands before and behind it
/// stays, and the cursor comes behind the new character.
#[verifier::rlimit(30)]
pub proof fn law_typing(t: TerminalState, b: u8)
    requires
        t.wf(),
        32 <= b < 127,
        vstd::utf8::encode_utf8(t.cmd).len() < 28,
    ensures
        ({
            let k = t.cmd.len() - t.behind;
            let u = t.key(b).t;
            &&& u.cmd == t.cmd.take(k) + seq![b as char] + t.cmd.skip(k)
            &&& u.behind == t.behind
            &&& u.history == t.history && u.cwd == t.cwd && u.cwd_ino == t.cwd_ino
            &&& t.key(b).ask is Done
        }),
{
    let k = t.cmd.len() - t.behind;
    if t.behind == 0 {
        assert(t.cmd.push(b as char) =~= t.cmd.take(k) + seq![b as char] + t.cmd.skip(k));
    } else {
        assert(t.cmd.take(k).push(b as char) + t.cmd.skip(k) =~= t.cmd.take(k) + seq![b as char]
            + t.cmd.skip(k));
    }
}

/// Backspace takes the character before the cursor out of the line, and nothing where
/// there is none.
pub proof fn law_backspace(t: TerminalState)
    requires
        t.wf(),
    ensures
        ({
            let k = t.cmd.len() - t.behind;
            let u = t.key(8).t;
            &&& k > 0 ==> u.cmd == t.cmd.take(k - 1) + t.cmd.skip(k)
            &&& k == 0 ==> u.cmd == t.cmd
            &&& u.behind == t.behind
            &&& t.key(8).ask is Done
        }),
{
    let k = t.cmd.len() - t.behind;
    if k > 0 && t.behind == 0 {
        assert(t.cmd.drop_last() =~= t.cmd.take(k - 1) + t.cmd.skip(k));
    }
}

/// Ctrl+C gives the line up: it is empty, and a new prompt stands below it. Ctrl+L and
/// Ctrl+K clear the screen and show the prompt on its first line.
#[verifier::rlimit(30)]
pub proof fn law_give_up(t: TerminalState)
    ensures
        t.key(3).t.cmd.len() == 0,
        t.behind == 0 ==> t.key(3).t.screen == t.screen.print("^C\n"@, ERR).print(
            t.cwd + " $ "@,
            CURSOR,
        ),
        t.key(3).ask is Done,
        t.key(3).t.history == t.history && t.key(3).t.cwd == t.cwd,
        t.key(0x0C).t.screen == screen::Screen::empty().print(t.cwd + " $ "@, CURSOR),
        t.key(0x0B).t.screen == t.key(0x0C).t.screen,
        t.key(0x0C).ask is Done && t.key(0x0C).t.cmd == t.cmd,
{
    reveal_strlit("");
}

/// The tab key asks for the names in the working directory where a word behind the first
/// is to be completed; it completes the last word of the line with the one name that
/// begins with it.
pub proof fn law_tab_names(
    t: TerminalState,
    head: Seq<char>,
    word: Seq<char>,
    es: Seq<(u32, Seq<char>)>,
    rest: Seq<char>,
)
    requires
        t.behind == 0,
        t.cmd == head + seq![' '] + word,
        !word.contains(' '),
        crate::complete::options(terminal::names_in(es), word) == seq![word + rest],
        terminal::can_hold(t.cmd, rest),
    ensures
        t.key(9).ask == (Ask::Names { ino: t.cwd_ino }),
        ({
            let u = t.key(9).t.answered(Answer::Names(es));
            &&& u.ask is Done
            &&& u.t.cmd == head + seq![' '] + word + rest + (if vstd::utf8::encode_utf8(
                t.cmd + rest,
            ).len() < 28 {
                seq![' ']
            } else {
                Seq::<char>::empty()
            })
        }),
{
    assert(t.cmd[head.len() as int] == ' ');
    assert(t.cmd.contains(' '));
    lemma_last_word(head, word);
    let k = t.key(9).t;
    let u = TerminalState { wait: terminal::Wait::Idle, ..k };
    let options = crate::complete::options(terminal::names_in(es), word);
    crate::terminal_laws::law_tab_completes(u, word, options, rest);
    assert(k.answered(Answer::Names(es)).t == u.completed(word, options));
}

/// The tab key on the first word completes it to the one command that begins with it, and
/// asks for nothing.
pub proof fn law_tab_commands(t: TerminalState, rest: Seq<char>)
    requires
        t.behind == 0,
        !t.cmd.contains(' '),
        crate::complete::options(crate::complete::command_names(), t.cmd) == seq![t.cmd + rest],
        terminal::can_hold(t.cmd, rest),
    ensures
        t.key(9).ask is Done,
        t.key(9).t.cmd == t.cmd + rest + (if vstd::utf8::encode_utf8(t.cmd + rest).len() < 28 {
            seq![' ']
        } else {
            Seq::<char>::empty()
        }),
{
    let options = crate::complete::options(crate::complete::command_names(), t.cmd);
    crate::terminal_laws::law_tab_completes(t, t.cmd, options, rest);
}

proof fn lemma_last_word(head: Seq<char>, word: Seq<char>)
    requires
        !word.contains(' '),
    ensures
        crate::complete::behind_last(head + seq![' '] + word, ' ') == word,
    decreases word.len(),
{
    let s = head + seq![' '] + word;
    if word.len() == 0 {
        assert(s.last() == ' ');
        assert(word =~= Seq::<char>::empty());
    } else {
        let d = word.drop_last();
        assert(word.contains(word[word.len() - 1]));
        assert forall|i: int| 0 <= i < d.len() implies d[i] != ' ' by {
            assert(word.contains(word[i]));
        }
        assert(s.drop_last() =~= head + seq![' '] + d);
        lemma_last_word(head, d);
        assert(d.push(word.last()) =~= word);
    }
}

// ── The network and the machine ─────────────────────────────────────────────

/// `ping` of an address asks for just that address, its four bytes in order, and prints
/// what comes back; anything that is not four parts with dots between them is refused, and
/// so is `ping` alone.
pub proof fn law_ping(t: TerminalState, ip: Seq<u8>, other: Seq<char>, reply: Seq<char>)
    requires
        ip.len() == 4,
        is_word(other),
        other.filter(|c: char| c == '.').len() != 3,
    ensures
        ({
            let word = text::dec(ip[0] as nat) + seq!['.'] + text::dec(ip[1] as nat) + seq!['.']
                + text::dec(ip[2] as nat) + seq!['.'] + text::dec(ip[3] as nat);
            let s = t.execute(line("ping"@, word));
            &&& s.ask == (Ask::Ping { ip })
            &&& s.t.answered(Answer::Text(reply)) == t.say("PING "@ + word + "\n"@, DIM).say(
                reply,
                TEXT,
            ).say("\n"@, TEXT).done()
            &&& terminal::ip_text(ip) == word
        }),
        t.execute(line("ping"@, other)) == t.say("ping: invalid IP address\n"@, ERR).done(),
        t.execute("ping"@) == t.say("usage: ping <ip>\n"@, ERR).done(),
{
    let word = text::dec(ip[0] as nat) + seq!['.'] + text::dec(ip[1] as nat) + seq!['.']
        + text::dec(ip[2] as nat) + seq!['.'] + text::dec(ip[3] as nat);
    reveal_strlit(".");
    assert("."@ =~= seq!['.']);
    lemma_short_words();
    lemma_no_spaces();
    lemma_numeral_word(ip[0] as nat);
    lemma_numeral_word(ip[1] as nat);
    lemma_numeral_word(ip[2] as nat);
    lemma_numeral_word(ip[3] as nat);
    assert(!word.contains(' '));
    shell::law_address_found(ip, other);
    assert(shell::address_in(word) == Some(ip));
    assert(Seq::new(4, |i: int| shell::octet(shell::dot_parts(word)[i]) as u8) == ip);
    shell::law_two_words("ping"@, word);
    shell::law_two_words("ping"@, other);
    lemma_alone("ping"@);
}

proof fn lemma_numeral_word(n: nat)
    ensures
        text::dec(n).len() > 0,
        !text::dec(n).contains(' '),
{
    text::lemma_dec_bytes(n);
    let d = text::dec(n);
    assert forall|i: int| 0 <= i < d.len() implies d[i] != ' ' by {
        assert(text::dec_bytes(n)[i] as char == d[i]);
    }
}

/// The address of a card is written as its six bytes in order, each of two hexadecimal
/// digits, with colons between them.
pub proof fn law_mac_written(mac: Seq<u8>, i: int)
    requires
        mac.len() == 6,
        0 <= i < 6,
    ensures
        terminal::mac_text(mac).len() == 17,
        text::hex_value(terminal::mac_text(mac).subrange(3 * i, 3 * i + 2)) == mac[i],
        i < 5 ==> terminal::mac_text(mac)[3 * i + 2] == ':',
{
    reveal_strlit(":");
    text::law_hex_width(mac[0] as nat);
    text::law_hex_width(mac[1] as nat);
    text::law_hex_width(mac[2] as nat);
    text::law_hex_width(mac[3] as nat);
    text::law_hex_width(mac[4] as nat);
    text::law_hex_width(mac[5] as nat);
    text::law_hex_value(mac[i] as nat, 2);
    let m = terminal::mac_text(mac);
    assert(m.subrange(3 * i, 3 * i + 2) =~= text::hex(mac[i] as nat, 2));
}

/// `ifconfig` shows the card's address, that of this machine and that of the gateway, and
/// the mask of a network with 256 addresses; without a card it says so first, and shows an
/// address of zeros.
#[verifier::rlimit(30)]
pub proof fn law_ifconfig(t: TerminalState, mac: Seq<u8>)
    ensures
        ({
            let s = t.execute("ifconfig"@).t;
            let zeros = seq![0u8, 0u8, 0u8, 0u8, 0u8, 0u8];
            let rest = |u: TerminalState, m: Seq<u8>|
                u.say("eth0\n"@, OK).say("  MAC: "@, DIM).say(
                    terminal::mac_text(m) + "\n"@,
                    TEXT,
                ).say("  IP:  "@, DIM).say(
                    terminal::ip_text(seq![10u8, 0u8, 2u8, 15u8]) + "\n"@,
                    TEXT,
                ).say("  GW:  "@, DIM).say(
                    terminal::ip_text(seq![10u8, 0u8, 2u8, 2u8]) + "\n"@,
                    TEXT,
                ).say("  Net: "@, DIM).say("255.255.255.0\n"@, TEXT).done();
            &&& s.answered(Answer::Mac(Some(mac))) == rest(t, mac)
            &&& s.answered(Answer::Mac(None)) == rest(
                t.say("eth0: NIC not initialized\n"@, ERR).say(
                    "      (check serial for e1000 init messages)\n"@,
                    DIM,
                ),
                zeros,
            )
        }),
{
    lemma_network_words(t);
    lemma_long_words();
    assert(crate::nic::my_ip() =~= seq![10u8, 0u8, 2u8, 15u8]);
    assert(crate::nic::gateway_ip() =~= seq![10u8, 0u8, 2u8, 2u8]);
}

/// `lspci` prints every device on a line of its own, in order: where it is, by bus, device
/// and function, who made it and what it is by number, and the name of its class.
#[verifier::rlimit(30)]
pub proof fn law_lspci(t: TerminalState, ds: Seq<protocol::Device>, n: int)
    requires
        0 < n <= ds.len(),
    ensures
        ({
            let u = TerminalState { wait: terminal::Wait::Idle, ..t };
            &&& t.execute("lspci"@).t.answered(Answer::Devices(ds)) == u.list_devices(
                ds,
                ds.len() as int,
            ).done()
            &&& u.list_devices(ds, 0) == u
            &&& u.list_devices(ds, n) == u.list_devices(ds, n - 1).say(
                terminal::device_line(ds[n - 1]),
                TEXT,
            )
        }),
        ({
            let d = ds[n - 1];
            terminal::device_line(d) == text::hex(d.bus as nat, 2) + seq![':'] + text::hex(
                d.dev as nat,
                2,
            ) + seq!['.'] + text::dec(d.func as nat) + seq![' '] + text::hex(d.vendor_id as nat, 4)
                + seq![':'] + text::hex(d.device_id as nat, 4) + seq![' '] + d.class_name + seq![
                '\n',
            ]
        }),
{
    lemma_network_words(t);
    lemma_long_words();
    reveal_strlit(":");
    reveal_strlit(".");
    reveal_strlit(" ");
    reveal_strlit("\n");
    assert(":"@ =~= seq![':']);
    assert("."@ =~= seq!['.']);
    assert(" "@ =~= seq![' ']);
    assert("\n"@ =~= seq!['\n']);
}

/// `netpoll` prints the receive descriptors in order, each by its number from zero on with
/// its status and its length, and says that there is no card where there is none.
#[verifier::rlimit(30)]
pub proof fn law_netpoll(t: TerminalState, ring: Seq<protocol::RxState>, n: int)
    requires
        0 < n <= ring.len(),
    ensures
        ({
            let s = t.execute("netpoll"@).t;
            let u = (TerminalState { wait: terminal::Wait::Idle, ..t }).say(
                "Scanning RX descriptors...\n"@,
                DIM,
            );
            let r = ring[n - 1];
            &&& s.answered(Answer::Ring(Some(ring))) == u.list_ring(ring, ring.len() as int).done()
            &&& s.answered(Answer::Ring(None)) == u.say(
                "NIC is None - run netstart first\n"@,
                ERR,
            ).done()
            &&& u.list_ring(ring, 0) == u
            &&& u.list_ring(ring, n) == u.list_ring(ring, n - 1).say(
                "  desc["@ + text::dec((n - 1) as nat) + "]: status="@ + text::hex(
                    r.status as nat,
                    2,
                ) + " len="@ + text::dec(r.len as nat) + "\n"@,
                TEXT,
            )
        }),
{
    lemma_network_words(t);
    lemma_long_words();
}

/// `netstart` starts the card at its usual address; once it is up it is announced, and else
/// that is said.
pub proof fn law_netstart(t: TerminalState)
    ensures
        ({
            let s = t.execute("netstart"@);
            let u = t.say("Starting e1000...\n"@, DIM);
            let up = s.t.answered(Answer::NicUp(true));
            &&& s.ask == (Ask::StartNic { bar: 0xFEBC_0000 })
            &&& up.ask is Announce
            &&& up.t.answered(Answer::Done) == u.say(
                "NIC initialized! Try ping 10.0.2.2\n"@,
                OK,
            ).done()
            &&& s.t.answered(Answer::NicUp(false)) == u.say(
                "NIC still None - check serial\n"@,
                ERR,
            ).done()
        }),
{
    lemma_network_words(t);
    lemma_long_words();
}

/// `netdiag` shows the card's configuration and then the registers at the address that the
/// configuration gives; where it gives none, that is said and nothing is read.
pub proof fn law_netdiag(t: TerminalState, c: protocol::PciConfig, r: protocol::NicRegs)
    ensures
        ({
            let s = t.execute("netdiag"@);
            let a = s.t.answered(Answer::Config(c));
            let phys = crate::pci::bar_address(c.bar0, c.bar1);
            let u = t.say(
                "00:03.0  VID:"@ + text::hex(c.vendor as nat, 4) + " DID:"@ + text::hex(
                    c.device as nat,
                    4,
                ) + "\n"@,
                TEXT,
            ).say("CMD: "@ + text::hex(c.command as nat, 4) + "\n"@, TEXT).say(
                "BAR0: "@ + text::hex(c.bar0 as nat, 8) + "  BAR1: "@ + text::hex(c.bar1 as nat, 8)
                    + "\n"@,
                TEXT,
            ).say("BAR phys: "@ + text::hex(phys as nat, 16) + "\n"@, TEXT);
            &&& s.ask == (Ask::PciConfig { bus: 0, dev: 3, func: 0 })
            &&& phys != 0 ==> a.ask == (Ask::NicRegs { phys }) && a.t.screen == u.screen
            &&& phys == 0 ==> a == u.say(
                "BAR phys = 0, device not initialized by BIOS\n"@,
                ERR,
            ).done()
            &&& phys != 0 ==> a.t.answered(Answer::Regs(r)) == u.say(
                "CTRL:   "@ + text::hex(r.ctrl as nat, 8) + "\n"@,
                TEXT,
            ).say("STATUS: "@ + text::hex(r.status as nat, 8) + "\n"@, TEXT).say(
                "RAL:    "@ + text::hex(r.ral as nat, 8) + "  RAH: "@ + text::hex(r.rah as nat, 8)
                    + "\n"@,
                TEXT,
            ).say(
                "MAC: "@ + terminal::mac_text(crate::nic::mac_of(r.ral, r.rah)) + "\n"@,
                TEXT,
            ).say(
                "e1000::NIC is "@ + (if r.up {
                    "SOME"@
                } else {
                    "NONE"@
                }) + "\n"@,
                TEXT,
            ).say(
                "TCTL:"@ + text::hex(r.tctl as nat, 8) + " TDBAL:"@ + text::hex(
                    r.tdbal as nat,
                    8,
                ) + " TDLEN:"@ + text::hex(r.tdlen as nat, 4) + " TDH:"@ + text::dec(r.tdh as nat)
                    + " TDT:"@ + text::dec(r.tdt as nat) + "\n"@,
                TEXT,
            ).done()
        }),
{
    lemma_network_words(t);
    lemma_long_words();
}

/// `shutdown` and `reboot` say what they do, ask for it, and take no answer.
pub proof fn law_halting(t: TerminalState, a: Answer)
    ensures
        t.execute("shutdown"@).t.screen == t.screen.print("Shutting down...\n"@, ERR),
        t.execute("reboot"@).t.screen == t.screen.print("Rebooting...\n"@, ERR),
        !t.execute("shutdown"@).t.accepts(a) && !t.execute("reboot"@).t.accepts(a),
{
    lemma_machine_words();
    lemma_long_words();
}

/// `uname` prints the name of the system.
pub proof fn law_uname(t: TerminalState)
    ensures
        t.execute("uname"@) == t.say("HepOS"@, CURSOR).say(
            " v0.1  x86_64 exokernel  HepFS\n"@,
            TEXT,
        ).done(),
{
    lemma_long_words();
    reveal_strlit("uname");
    lemma_alone("uname"@);
}

/// The editor, once opened from the shell, is announced, and the prompt comes back.
pub proof fn law_edit_announced(t: TerminalState, name: Seq<char>)
    requires
        is_word(name),
    ensures
        t.execute(line("edit"@, name)).t.answered(Answer::Done) == t.say(
            "Editor opened  Ctrl+S=save  Ctrl+Q=close\n"@,
            OK,
        ).done(),
{
    lemma_short_words();
    lemma_no_spaces();
    shell::law_two_words("edit"@, name);
}

/// `sysinfo` ends with the free and the total memory in megabytes, four kilobytes to a page,
/// and where the source is.
#[verifier::rlimit(30)]
pub proof fn law_sysinfo(t: TerminalState, free: u64, total: u64)
    requires
        free * 4 <= u64::MAX,
        total * 4 <= u64::MAX,
    ensures
        t.execute("sysinfo"@).t.answered(Answer::Pages { free, total }) == t.sysinfo_head().say(
            "RAM:       "@,
            DIM,
        ).say(text::dec((free / 256) as nat), TEXT).say(" MB free / "@, TEXT).say(
            text::dec((total / 256) as nat),
            TEXT,
        ).say(" MB total\n"@, TEXT).say("=========================\n"@, DIM).say(
            "Source: github.com/The-Hep-Group/HepOS\n"@,
            DIM,
        ).done(),
        t.sysinfo_head() == t.say("=== HepOS Kernel Info ===\n"@, OK).say("Kernel:    "@, DIM).say(
            "HepOS v0.1\n"@,
            TEXT,
        ).say("Arch:      "@, DIM).say("x86_64\n"@, TEXT).say("Type:      "@, DIM).say(
            "Exokernel (Rust)\n"@,
            TEXT,
        ).say("Boot:      "@, DIM).say("Limine v9 (BIOS)\n"@, TEXT).say("Language:  "@, DIM).say(
            "Rust (no_std + alloc)\n"@,
            TEXT,
        ).say("Heap:      "@, DIM).say("Bump allocator 1MB\n"@, TEXT).say("Sched:     "@, DIM).say(
            "Preemptive round-robin\n"@,
            TEXT,
        ).say("APIC:      "@, DIM).say("x2APIC (MSR-mode)\n"@, TEXT).say("FS:        "@, DIM).say(
            "HepFS (flat inode, 4KB blocks)\n"@,
            TEXT,
        ).say("Display:   "@, DIM).say("GOP framebuffer, software render\n"@, TEXT).say(
            "Storage:   "@,
            DIM,
        ).say("NVMe (custom driver)\n"@, TEXT),
{
    lemma_machine_words();
    lemma_long_words();
    assert(free * 4 / 1024 == free / 256 && total * 4 / 1024 == total / 256);
}

/// `help` explains every command on a line of its own, in order: its name, what it takes,
/// and what it does.
#[verifier::rlimit(30)]
pub proof fn law_help(t: TerminalState, n: int)
    requires
        0 < n <= crate::complete::topics().len(),
    ensures
        ({
            let ts = crate::complete::topics();
            let u = t.say("Commands:\n"@, OK);
            &&& t.execute("help"@) == u.help_lines(ts, ts.len() as int).done()
            &&& u.help_lines(ts, 0) == u
            &&& u.help_lines(ts, n) == u.help_lines(ts, n - 1).say("  "@, DIM).say(
                ts[n - 1].name + ts[n - 1].args,
                TEXT,
            ).say(" - "@, DIM).say(ts[n - 1].desc, TEXT).say("\n"@, TEXT)
        }),
{
    lemma_short_words();
    reveal_strlit("help");
    lemma_alone("help"@);
}

/// A terminal that was just opened greets, and waits at its prompt in the root with nothing
/// typed and nothing remembered.
pub proof fn law_terminal_opened(root: u32)
    ensures
        ({
            let t = TerminalState::fresh(root);
            &&& t.screen == screen::Screen::empty().print("HepOS Terminal v0.1\n"@, OK).print(
                "Type 'help' for commands\n\n"@,
                DIM,
            ).print(seq!['/', ' ', '$', ' '], CURSOR)
            &&& t.cwd == seq!['/'] && t.cwd_ino == root && t.root == root
            &&& t.cmd.len() == 0 && t.behind == 0 && t.history.len() == 0 && t.history_idx is None
            &&& t.wait is Idle && t.dirty
        }),
{
    reveal_strlit("/");
    reveal_strlit("");
    reveal_strlit(" $ ");
    assert("/"@ =~= seq!['/']);
    assert("/"@ + " $ "@ =~= seq!['/', ' ', '$', ' ']);
}

/// `cp` and `mv` to a path from the root that is not there make the file in the path's
/// directory, under the name at its end; without such a directory they give up.
pub proof fn law_copy_to_path(t: TerminalState, job: terminal::JobText, data: Seq<u8>, dir: u32)
    requires
        job.dst.len() > 1,
        job.dst[0] == '/',
        shell::base(job.dst).len() > 0,
    ensures
        ({
            let s = t.places(job, data);
            let up = shell::parent(job.dst);
            let name = shell::base(job.dst);
            let found = s.t.answered(Answer::Found(Some(dir)));
            &&& up == seq!['/'] ==> s.ask == (Ask::CreateFile { parent: t.root, name })
            &&& up != seq!['/'] ==> s.ask == (Ask::Lookup { path: up }) && found.ask == (
            Ask::CreateFile { parent: dir, name }) && s.t.answered(Answer::Found(None)).ask is Done
        }),
{
}

/// Where several names begin with the word, they are printed with two spaces between them on
/// a line of their own; the prompt and the line are shown again, and the line is the same.
pub proof fn law_tab_several(t: TerminalState, word: Seq<char>, a: Seq<char>, b: Seq<char>)
    ensures
        t.completed(word, seq![a, b]) == (TerminalState {
            dirty: true,
            ..t.say("\n"@, TEXT).say(a + seq![' ', ' '] + b, TEXT).say("\n"@, TEXT).prompt().say(
                t.cmd,
                TEXT,
            )
        }),
        t.completed(word, seq![]) == (TerminalState { dirty: true, ..t }),
        forall|names: Seq<Seq<char>>, n: int|
            1 < n <= names.len() ==> #[trigger] crate::complete::joined(names, n)
                == crate::complete::joined(names, n - 1) + seq![' ', ' '] + names[n - 1],
{
    reveal_strlit("  ");
    assert("  "@ =~= seq![' ', ' ']);
    reveal_with_fuel(crate::complete::joined, 3);
    assert(crate::complete::joined(seq![a, b], 2) =~= a + seq![' ', ' '] + b);
}

/// Up goes back in the history, from the last command to the first, and stays there; down
/// goes forward, and behind the last command the line is empty. Neither changes the history.
pub proof fn law_history_walked(t: TerminalState, i: usize)
    requires
        t.history.len() > 0,
        t.history.len() <= 50,
        i < t.history.len(),
        t.behind == 0,
    ensures
        ({
            let first = TerminalState { history_idx: None, ..t };
            let at = TerminalState { history_idx: Some(i), ..t };
            &&& first.key(0x80).t.history_idx == Some((t.history.len() - 1) as usize)
            &&& i > 0 ==> at.key(0x80).t.history_idx == Some((i - 1) as usize)
            &&& i == 0 ==> at.key(0x80).t.history_idx == Some(0usize)
            &&& i + 1 < t.history.len() ==> at.key(0x81).t.history_idx == Some((i + 1) as usize)
            &&& i + 1 == t.history.len() ==> at.key(0x81).t.history_idx is None && at.key(
                0x81,
            ).t.cmd.len() == 0
            &&& first.key(0x81).t.history_idx is None && first.key(0x81).t.cmd == t.cmd
            &&& at.key(0x80).t.history == t.history && at.key(0x81).t.history == t.history
            &&& vstd::utf8::is_ascii_chars(t.history[i as int]) && i + 1 < t.history.len()
                ==> (TerminalState { history_idx: Some((i + 1) as usize), ..t }).key(0x80).t.cmd
                == t.history[i as int]
        }),
{
    reveal_strlit("");
    assert(""@ =~= Seq::<char>::empty());
    assert(vstd::utf8::encode_utf8(""@).len() == 0);
    let s = t.history[i as int];
    if vstd::utf8::is_ascii_chars(s) {
        vstd::utf8::is_ascii_chars_encode_utf8(s);
        vstd::utf8::is_ascii_chars_nat_bound(s);
        assert(vstd::utf8::encode_utf8(s).map_values(|b: u8| b as char) =~= s);
    }
}

} // verus!
