//! The words of a command line: trimming, splitting, recognising the command,
//! paths and addresses.
use vstd::prelude::*;
use crate::{complete, text};

verus! {

/// Unicode white space.
pub open spec fn is_white(c: char) -> bool {
    ||| 0x09 <= c as u32 <= 0x0D
    ||| c as u32 == 0x20
    ||| c as u32 == 0x85
    ||| c as u32 == 0xA0
    ||| c as u32 == 0x1680
    ||| 0x2000 <= c as u32 <= 0x200A
    ||| c as u32 == 0x2028
    ||| c as u32 == 0x2029
    ||| c as u32 == 0x202F
    ||| c as u32 == 0x205F
    ||| c as u32 == 0x3000
}

/// `s` without white space at its start.
pub open spec fn trim_start(s: Seq<char>) -> Seq<char>
    decreases s.len(),
{
    if s.len() > 0 && is_white(s[0]) {
        trim_start(s.drop_first())
    } else {
        s
    }
}

/// `s` without white space at its end.
pub open spec fn trim_end(s: Seq<char>) -> Seq<char>
    decreases s.len(),
{
    if s.len() > 0 && is_white(s.last()) {
        trim_end(s.drop_last())
    } else {
        s
    }
}

/// `s` without white space at its ends.
pub open spec fn trim(s: Seq<char>) -> Seq<char> {
    trim_end(trim_start(s))
}

/// The place of the first `c` in `s`, or the length of `s`.
pub open spec fn find(s: Seq<char>, c: char) -> int
    decreases s.len(),
{
    if s.len() == 0 || s[0] == c {
        0
    } else {
        1 + find(s.drop_first(), c)
    }
}

/// What stands before the first space.
pub open spec fn first_word(s: Seq<char>) -> Seq<char> {
    s.take(find(s, ' '))
}

/// What stands behind the first space.
pub open spec fn after_word(s: Seq<char>) -> Seq<char> {
    if find(s, ' ') < s.len() {
        s.skip(find(s, ' ') + 1)
    } else {
        Seq::<char>::empty()
    }
}

/// The command line's first word.
pub open spec fn verb_of(cmd: Seq<char>) -> Seq<char> {
    first_word(cmd)
}

/// The command line's second word.
pub open spec fn arg1_of(cmd: Seq<char>) -> Seq<char> {
    first_word(after_word(cmd))
}

/// All that stands behind the command line's second word.
pub open spec fn arg2_of(cmd: Seq<char>) -> Seq<char> {
    after_word(after_word(cmd))
}

/// The commands of the shell.
#[derive(Clone, Copy, PartialEq, Eq, Structural, Debug)]
pub enum Command {
    Empty,
    Help,
    Clear,
    Pwd,
    Ls,
    Cd,
    Cat,
    Mkdir,
    Touch,
    Rm,
    Write,
    Cp,
    Mv,
    History,
    Date,
    Sysinfo,
    Uname,
    Mem,
    Netpoll,
    Netstart,
    Netdiag,
    Lspci,
    Ifconfig,
    Ping,
    Edit,
    Shutdown,
    Reboot,
    Echo,
    Unknown,
}

/// The command that a word names. Any word that begins with `echo` is `Echo`.
pub open spec fn command_of(verb: Seq<char>) -> Command {
    if verb == ""@ {
        Command::Empty
    } else if verb == "help"@ {
        Command::Help
    } else if verb == "clear"@ {
        Command::Clear
    } else if verb == "pwd"@ {
        Command::Pwd
    } else if verb == "ls"@ {
        Command::Ls
    } else if verb == "cd"@ {
        Command::Cd
    } else if verb == "cat"@ {
        Command::Cat
    } else if verb == "mkdir"@ {
        Command::Mkdir
    } else if verb == "touch"@ {
        Command::Touch
    } else if verb == "rm"@ {
        Command::Rm
    } else if verb == "write"@ {
        Command::Write
    } else if verb == "cp"@ {
        Command::Cp
    } else if verb == "mv"@ {
        Command::Mv
    } else if verb == "history"@ {
        Command::History
    } else if verb == "date"@ {
        Command::Date
    } else if verb == "sysinfo"@ {
        Command::Sysinfo
    } else if verb == "uname"@ {
        Command::Uname
    } else if verb == "mem"@ {
        Command::Mem
    } else if verb == "netpoll"@ {
        Command::Netpoll
    } else if verb == "netstart"@ {
        Command::Netstart
    } else if verb == "netdiag"@ {
        Command::Netdiag
    } else if verb == "lspci"@ {
        Command::Lspci
    } else if verb == "ifconfig"@ {
        Command::Ifconfig
    } else if verb == "ping"@ {
        Command::Ping
    } else if verb == "edit"@ {
        Command::Edit
    } else if verb == "shutdown"@ {
        Command::Shutdown
    } else if verb == "reboot"@ {
        Command::Reboot
    } else if verb.len() >= 4 && verb.take(4) == "echo"@ {
        Command::Echo
    } else {
        Command::Unknown
    }
}

/// Recognises a command.
pub fn parse_command(verb: &str) -> (c: Command)
    ensures
        c == command_of(verb@),
{
    if text::same_text(verb, "") {
        Command::Empty
    } else if text::same_text(verb, "help") {
        Command::Help
    } else if text::same_text(verb, "clear") {
        Command::Clear
    } else if text::same_text(verb, "pwd") {
        Command::Pwd
    } else if text::same_text(verb, "ls") {
        Command::Ls
    } else if text::same_text(verb, "cd") {
        Command::Cd
    } else if text::same_text(verb, "cat") {
        Command::Cat
    } else if text::same_text(verb, "mkdir") {
        Command::Mkdir
    } else if text::same_text(verb, "touch") {
        Command::Touch
    } else if text::same_text(verb, "rm") {
        Command::Rm
    } else if text::same_text(verb, "write") {
        Command::Write
    } else if text::same_text(verb, "cp") {
        Command::Cp
    } else if text::same_text(verb, "mv") {
        Command::Mv
    } else if text::same_text(verb, "history") {
        Command::History
    } else if text::same_text(verb, "date") {
        Command::Date
    } else if text::same_text(verb, "sysinfo") {
        Command::Sysinfo
    } else if text::same_text(verb, "uname") {
        Command::Uname
    } else if text::same_text(verb, "mem") {
        Command::Mem
    } else if text::same_text(verb, "netpoll") {
        Command::Netpoll
    } else if text::same_text(verb, "netstart") {
        Command::Netstart
    } else if text::same_text(verb, "netdiag") {
        Command::Netdiag
    } else if text::same_text(verb, "lspci") {
        Command::Lspci
    } else if text::same_text(verb, "ifconfig") {
        Command::Ifconfig
    } else if text::same_text(verb, "ping") {
        Command::Ping
    } else if text::same_text(verb, "edit") {
        Command::Edit
    } else if text::same_text(verb, "shutdown") {
        Command::Shutdown
    } else if text::same_text(verb, "reboot") {
        Command::Reboot
    } else {
        let v: Vec<char> = text::chars_of(verb);
        if v.len() >= 4 {
            let head: String = text::string_of(&v, 0, 4);
            assert(verb@.take(4) =~= verb@.subrange(0, 4));
            if text::same_text(head.as_str(), "echo") {
                Command::Echo
            } else {
                Command::Unknown
            }
        } else {
            Command::Unknown
        }
    }
}

fn white(c: char) -> (r: bool)
    ensures
        r == is_white(c),
{
    let u: u32 = c as u32;
    (0x09 <= u && u <= 0x0D) || u == 0x20 || u == 0x85 || u == 0xA0 || u == 0x1680 || (0x2000 <= u
        && u <= 0x200A) || u == 0x2028 || u == 0x2029 || u == 0x202F || u == 0x205F || u == 0x3000
}

/// `s` without white space at its ends.
pub fn trimmed(s: &str) -> (r: String)
    ensures
        r@ == trim(s@),
{
    let v: Vec<char> = text::chars_of(s);
    let n: usize = v.len();
    let mut i: usize = 0;
    assert(s@.subrange(0, n as int) =~= s@);
    while i < n && white(v[i])
        invariant
            v@ == s@,
            n == s@.len(),
            i <= n,
            trim_start(s@) == trim_start(s@.subrange(i as int, n as int)),
        decreases n - i,
    {
        assert(s@.subrange(i as int, n as int).drop_first() =~= s@.subrange(i + 1, n as int));
        i = i + 1;
    }
    let ghost t = s@.subrange(i as int, n as int);
    assert(trim_start(s@) == t);
    let mut j: usize = n;
    while j > i && white(v[j - 1])
        invariant
            v@ == s@,
            n == s@.len(),
            i <= j <= n,
            trim_end(t) == trim_end(s@.subrange(i as int, j as int)),
        decreases j,
    {
        assert(s@.subrange(i as int, j as int).drop_last() =~= s@.subrange(i as int, j - 1));
        j = j - 1;
    }
    text::string_of(&v, i, j)
}

/// A place with a `c` before which there is none is the first.
proof fn lemma_find(s: Seq<char>, c: char, i: int)
    requires
        0 <= i <= s.len(),
        i < s.len() ==> s[i] == c,
        forall|j: int| 0 <= j < i ==> s[j] != c,
    ensures
        find(s, c) == i,
    decreases i,
{
    if i > 0 {
        let r = s.drop_first();
        assert(s[0] != c);
        assert forall|j: int| 0 <= j < i - 1 implies r[j] != c by {
            assert(r[j] == s[j + 1]);
        }
        lemma_find(r, c, i - 1);
    }
}

/// The place of the first space at or behind `from`, or the length.
fn space_from(v: &Vec<char>, from: usize) -> (i: usize)
    requires
        from <= v@.len(),
    ensures
        from <= i <= v@.len(),
        i - from == find(v@.skip(from as int), ' '),
{
    let mut i: usize = from;
    while i < v.len() && v[i] != ' '
        invariant
            from <= i <= v@.len(),
            forall|j: int| from <= j < i ==> v@[j] != ' ',
        decreases v@.len() - i,
    {
        i = i + 1;
    }
    proof {
        let s = v@.skip(from as int);
        assert forall|j: int| 0 <= j < i - from implies s[j] != ' ' by {
            assert(s[j] == v@[j + from]);
        }
        lemma_find(s, ' ', i - from);
    }
    i
}

/// The words of a command line.
pub struct Words {
    pub verb: String,
    pub arg1: String,
    pub arg2: String,
}

/// Splits a command line into at most three parts at its first spaces.
pub fn split_words(cmd: &str) -> (w: Words)
    ensures
        w.verb@ == verb_of(cmd@),
        w.arg1@ == arg1_of(cmd@),
        w.arg2@ == arg2_of(cmd@),
{
    let v: Vec<char> = text::chars_of(cmd);
    let n: usize = v.len();
    let i: usize = space_from(&v, 0);
    assert(cmd@.skip(0) =~= cmd@);
    let verb: String = text::string_of(&v, 0, i);
    assert(verb@ =~= verb_of(cmd@));
    let a: usize = if i < n {
        i + 1
    } else {
        n
    };
    let j: usize = space_from(&v, a);
    assert(cmd@.skip(a as int) =~= after_word(cmd@));
    let arg1: String = text::string_of(&v, a, j);
    assert(arg1@ =~= arg1_of(cmd@));
    let b: usize = if j < n {
        j + 1
    } else {
        n
    };
    let arg2: String = text::string_of(&v, b, n);
    assert(arg2@ =~= arg2_of(cmd@));
    Words { verb, arg1, arg2 }
}

// ── Paths ───────────────────────────────────────────────────────────────────

/// `s` without slashes at its end.
pub open spec fn trim_end_slashes(s: Seq<char>) -> Seq<char>
    decreases s.len(),
{
    if s.len() > 0 && s.last() == '/' {
        trim_end_slashes(s.drop_last())
    } else {
        s
    }
}

/// What stands before the last slash of `s`; nothing without a slash.
pub open spec fn before_last_slash(s: Seq<char>) -> Seq<char>
    decreases s.len(),
{
    if s.len() == 0 {
        s
    } else if s.last() == '/' {
        s.drop_last()
    } else {
        before_last_slash(s.drop_last())
    }
}

/// The directory above a directory; the root is above itself.
pub open spec fn parent(path: Seq<char>) -> Seq<char> {
    let up = before_last_slash(trim_end_slashes(path));
    if up.len() == 0 {
        seq!['/']
    } else {
        up
    }
}

/// The directory above a directory.
pub fn parent_path(path: &str) -> (r: String)
    ensures
        r@ == parent(path@),
{
    let v: Vec<char> = text::chars_of(path);
    let mut n: usize = v.len();
    assert(path@.take(n as int) =~= path@);
    while n > 0 && v[n - 1] == '/'
        invariant
            v@ == path@,
            n <= path@.len(),
            trim_end_slashes(path@) == trim_end_slashes(path@.take(n as int)),
        decreases n,
    {
        assert(path@.take(n as int).drop_last() =~= path@.take(n - 1));
        n = n - 1;
    }
    let ghost t = path@.take(n as int);
    let mut k: usize = n;
    while k > 0 && v[k - 1] != '/'
        invariant
            v@ == path@,
            k <= path@.len(),
            before_last_slash(t) == before_last_slash(path@.take(k as int)),
        decreases k,
    {
        assert(path@.take(k as int).drop_last() =~= path@.take(k - 1));
        k = k - 1;
    }
    if k <= 1 {
        proof {
            let p = path@.take(k as int);
            if k == 1 {
                assert(p.last() == '/');
                assert(p.drop_last() =~= Seq::<char>::empty());
            }
            assert(before_last_slash(t).len() == 0);
        }
        let mut r: String = String::new();
        r.push('/');
        assert(r@ =~= seq!['/']);
        r
    } else {
        assert(path@.take(k as int).drop_last() =~= path@.subrange(0, k - 1));
        text::string_of(&v, 0, k - 1)
    }
}

/// The name at the end of a path.
pub open spec fn base(path: Seq<char>) -> Seq<char> {
    complete::behind_last(trim_end_slashes(path), '/')
}

/// The name at the end of a path.
pub fn base_name(path: &str) -> (r: String)
    ensures
        r@ == base(path@),
{
    let v: Vec<char> = text::chars_of(path);
    let mut n: usize = v.len();
    assert(path@.take(n as int) =~= path@);
    while n > 0 && v[n - 1] == '/'
        invariant
            v@ == path@,
            n <= path@.len(),
            trim_end_slashes(path@) == trim_end_slashes(path@.take(n as int)),
        decreases n,
    {
        assert(path@.take(n as int).drop_last() =~= path@.take(n - 1));
        n = n - 1;
    }
    let t: String = text::string_of(&v, 0, n);
    assert(t@ =~= trim_end_slashes(path@));
    complete::tail_behind(t.as_str(), '/')
}

/// The inode of a directory, where `found` is what a lookup of its path gave: the
/// root is there without a lookup.
pub fn directory(path: &str, found: Option<u32>, root: u32) -> (r: Option<u32>)
    ensures
        r == (if path@ == seq!['/'] {
            Some(root)
        } else {
            found
        }),
        r == directory_at(path@, found, root),
{
    proof {
        reveal_strlit("/");
        assert("/"@ =~= seq!['/']);
    }
    if text::same_text(path, "/") {
        Some(root)
    } else {
        found
    }
}

/// A path counted from the root: `arg` itself where it begins with a slash, else
/// the child `arg` of `cwd`.
pub open spec fn absolute(cwd: Seq<char>, arg: Seq<char>) -> Seq<char> {
    if arg.len() > 0 && arg[0] == '/' {
        arg
    } else {
        text::join_path(cwd, arg)
    }
}

/// Whether a path begins with a slash.
pub fn starts_with_slash(s: &str) -> (r: bool)
    ensures
        r == (s@.len() > 0 && s@[0] == '/'),
{
    let v: Vec<char> = text::chars_of(s);
    v.len() > 0 && v[0] == '/'
}

/// A path counted from the root.
pub fn absolute_path(cwd: &str, arg: &str) -> (r: String)
    ensures
        r@ == absolute(cwd@, arg@),
{
    if starts_with_slash(arg) {
        String::from_str(arg)
    } else {
        text::child_path(cwd, arg)
    }
}

// ── Addresses ───────────────────────────────────────────────────────────────

/// The parts of `s` between the dots.
pub open spec fn dot_parts(s: Seq<char>) -> Seq<Seq<char>>
    decreases s.len(),
{
    if s.len() == 0 {
        seq![Seq::<char>::empty()]
    } else {
        let head = dot_parts(s.drop_last());
        if s.last() == '.' {
            head.push(Seq::<char>::empty())
        } else {
            head.drop_last().push(head.last().push(s.last()))
        }
    }
}

pub open spec fn is_digit(c: char) -> bool {
    '0' <= c && c <= '9'
}

pub open spec fn all_digits(s: Seq<char>) -> bool {
    forall|i: int| 0 <= i < s.len() ==> #[trigger] is_digit(s[i])
}

/// `s` without a plus sign before more text.
pub open spec fn unsigned(s: Seq<char>) -> Seq<char> {
    if s.len() > 1 && s[0] == '+' {
        s.drop_first()
    } else {
        s
    }
}

/// A byte in decimal, with an optional plus sign; anything else counts as 0.
pub open spec fn octet(s: Seq<char>) -> int {
    let d = unsigned(s);
    if d.len() > 0 && all_digits(d) && text::dec_value(d) <= 255 {
        text::dec_value(d)
    } else {
        0
    }
}

/// More digits never make a numeral's value smaller.
proof fn lemma_value_grows(s: Seq<char>, k: int)
    requires
        all_digits(s),
        0 <= k <= s.len(),
    ensures
        0 <= text::dec_value(s.take(k)) <= text::dec_value(s),
    decreases s.len(),
{
    if k == s.len() {
        assert(s.take(k) =~= s);
        if k > 0 {
            lemma_value_grows(s.drop_last(), k - 1);
            assert(is_digit(s[k - 1]));
            assert forall|i: int| 0 <= i < k - 1 implies #[trigger] is_digit(s.drop_last()[i]) by {
                assert(is_digit(s[i]));
            }
        }
    } else {
        let d = s.drop_last();
        assert forall|i: int| 0 <= i < d.len() implies #[trigger] is_digit(d[i]) by {
            assert(is_digit(s[i]));
        }
        lemma_value_grows(d, k);
        assert(d.take(k) =~= s.take(k));
        assert(is_digit(s[s.len() - 1]));
    }
}

/// Reads a byte in decimal; anything else counts as 0.
pub fn parse_octet(s: &str) -> (r: u8)
    ensures
        r == octet(s@),
{
    let v: Vec<char> = text::chars_of(s);
    let from: usize = if v.len() > 1 && v[0] == '+' {
        1
    } else {
        0
    };
    let ghost d = unsigned(s@);
    assert(d =~= s@.skip(from as int));
    if v.len() == from {
        return 0;
    }
    let mut value: u32 = 0;
    let mut i: usize = from;
    assert(d.take(0) =~= Seq::<char>::empty());
    while i < v.len()
        invariant
            v@ == s@,
            from <= i <= v@.len(),
            d == s@.skip(from as int),
            d == unsigned(s@),
            d.len() > 0,
            value <= 255,
            value == text::dec_value(d.take(i - from)),
            forall|j: int| 0 <= j < i - from ==> #[trigger] is_digit(d[j]),
        decreases v@.len() - i,
    {
        let c: char = v[i];
        assert(c == d[i - from]);
        if !('0' <= c && c <= '9') {
            assert(!is_digit(d[i - from]));
            return 0;
        }
        proof {
            let t = d.take(i - from + 1);
            assert(t.drop_last() =~= d.take(i - from));
            assert(t.last() == c);
        }
        value = value * 10 + (c as u32 - 48);
        if value > 255 {
            proof {
                if all_digits(d) {
                    lemma_value_grows(d, i - from + 1);
                }
            }
            return 0;
        }
        i = i + 1;
    }
    assert(d.take(d.len() as int) =~= d);
    value as u8
}

/// The parts between the dots.
fn cut_dots(s: &str) -> (parts: Vec<String>)
    ensures
        parts@.map_values(|p: String| p@) == dot_parts(s@),
{
    let v: Vec<char> = text::chars_of(s);
    let mut parts: Vec<String> = Vec::new();
    let mut cur: String = String::new();
    let mut i: usize = 0;
    assert(s@.take(0) =~= Seq::<char>::empty());
    assert(dot_parts(s@.take(0)) =~= parts@.map_values(|p: String| p@).push(cur@));
    while i < v.len()
        invariant
            v@ == s@,
            i <= v@.len(),
            dot_parts(s@.take(i as int)) == parts@.map_values(|p: String| p@).push(cur@),
        decreases v@.len() - i,
    {
        let ghost before = parts@.map_values(|p: String| p@);
        proof {
            assert(s@.take(i + 1).drop_last() =~= s@.take(i as int));
            assert(before.push(cur@).drop_last() =~= before);
        }
        if v[i] == '.' {
            let ghost c = cur@;
            parts.push(cur);
            cur = String::new();
            assert(parts@.map_values(|p: String| p@) =~= before.push(c));
        } else {
            cur.push(v[i]);
        }
        i = i + 1;
    }
    let ghost before = parts@.map_values(|p: String| p@);
    let ghost c = cur@;
    parts.push(cur);
    proof {
        assert(s@.take(s@.len() as int) =~= s@);
        assert(parts@.map_values(|p: String| p@) =~= before.push(c));
    }
    parts
}

/// Reads an address of four bytes with dots between them: `None` unless there
/// are four parts; a part that is no byte counts as 0.
pub fn parse_ip(s: &str) -> (r: Option<[u8; 4]>)
    ensures
        r is Some <==> dot_parts(s@).len() == 4,
        r matches Some(ip) ==> ip@ == Seq::new(4, |i: int| octet(dot_parts(s@)[i]) as u8),
        (match r {
            Some(ip) => Some(ip@),
            None => None::<Seq<u8>>,
        }) == address_in(s@),
{
    let parts: Vec<String> = cut_dots(s);
    let ghost p = parts@.map_values(|p: String| p@);
    if parts.len() == 4 {
        assert(p.len() == 4);
        assert(p[0] == parts@[0]@ && p[1] == parts@[1]@ && p[2] == parts@[2]@ && p[3]
            == parts@[3]@);
        let ip: [u8; 4] = [
            parse_octet(parts[0].as_str()),
            parse_octet(parts[1].as_str()),
            parse_octet(parts[2].as_str()),
            parse_octet(parts[3].as_str()),
        ];
        assert(ip@ =~= Seq::new(4, |i: int| octet(dot_parts(s@)[i]) as u8));
        Some(ip)
    } else {
        assert(p.len() != 4);
        None
    }
}

// ── Laws ────────────────────────────────────────────────────────────────────

/// Going up from a child comes back to the directory, for a name without slashes.
pub proof fn law_parent_of_child(dir: Seq<char>, name: Seq<char>)
    requires
        name.len() > 0,
        forall|i: int| 0 <= i < name.len() ==> name[i] != '/',
        dir.len() > 0,
    ensures
        parent(text::join_path(dir, name)) == dir,
{
    let base = if dir == seq!['/'] {
        Seq::<char>::empty()
    } else {
        dir
    };
    let p = text::join_path(dir, name);
    assert(p =~= base.push('/') + name);
    assert(p.last() == name.last());
    assert(name[name.len() - 1] != '/');
    lemma_before_slash(base, name);
}

proof fn lemma_before_slash(base: Seq<char>, name: Seq<char>)
    requires
        forall|i: int| 0 <= i < name.len() ==> name[i] != '/',
    ensures
        before_last_slash(base.push('/') + name) == base,
    decreases name.len(),
{
    let p = base.push('/') + name;
    if name.len() == 0 {
        assert(p =~= base.push('/'));
        assert(p.drop_last() =~= base);
    } else {
        assert(p.last() == name[name.len() - 1]);
        assert(p.drop_last() =~= base.push('/') + name.drop_last());
        lemma_before_slash(base, name.drop_last());
    }
}

/// A path counted from the root is the child of its parent, under the name at its
/// end.
pub proof fn law_path_rejoins(path: Seq<char>)
    requires
        path.len() > 0,
        path[0] == '/',
        path.len() > 1 ==> path[1] != '/',
        base(path).len() > 0,
    ensures
        text::join_path(parent(path), base(path)) == trim_end_slashes(path),
        forall|i: int| 0 <= i < base(path).len() ==> base(path)[i] != '/',
{
    let t = trim_end_slashes(path);
    lemma_slashes_cut(path);
    assert(t[0] == '/');
    lemma_cut_at_slash(t);
    let up = before_last_slash(t);
    if up.len() == 0 {
        assert(t =~= seq!['/'] + base(path));
    } else {
        if up =~= seq!['/'] {
            assert(t[1] == (up.push('/') + base(path))[1]);
            assert(false);
        }
    }
}

proof fn lemma_slashes_cut(s: Seq<char>)
    ensures
        trim_end_slashes(s).len() <= s.len(),
        trim_end_slashes(s) == s.take(trim_end_slashes(s).len() as int),
    decreases s.len(),
{
    if s.len() > 0 && s.last() == '/' {
        lemma_slashes_cut(s.drop_last());
        let n = trim_end_slashes(s).len() as int;
        assert(s.drop_last().take(n) =~= s.take(n));
    } else {
        assert(s.take(s.len() as int) =~= s);
    }
}

proof fn lemma_cut_at_slash(s: Seq<char>)
    requires
        s.contains('/'),
    ensures
        s == before_last_slash(s).push('/') + complete::behind_last(s, '/'),
        !complete::behind_last(s, '/').contains('/'),
    decreases s.len(),
{
    let b = complete::behind_last(s, '/');
    if s.last() == '/' {
        assert(s =~= s.drop_last().push('/') + Seq::<char>::empty());
    } else {
        let d = s.drop_last();
        let k = choose|k: int| 0 <= k < s.len() && s[k] == '/';
        assert(d[k] == '/');
        lemma_cut_at_slash(d);
        assert(s =~= d.push(s.last()));
        assert(s =~= before_last_slash(d).push('/') + complete::behind_last(d, '/').push(s.last()));
        assert forall|i: int| 0 <= i < b.len() implies b[i] != '/' by {
            let c = complete::behind_last(d, '/');
            if i < c.len() {
                assert(c.contains(c[i]));
            }
        }
    }
}

/// A trimmed text is trimmed.
pub proof fn law_trim_idempotent(s: Seq<char>)
    ensures
        trim(trim(s)) == trim(s),
{
    lemma_trim_start(s);
    lemma_trim_end(trim_start(s));
}

proof fn lemma_trim_start(s: Seq<char>)
    ensures
        trim_start(s).len() == 0 || !is_white(trim_start(s)[0]),
    decreases s.len(),
{
    if s.len() > 0 && is_white(s[0]) {
        lemma_trim_start(s.drop_first());
    }
}

proof fn lemma_trim_end(s: Seq<char>)
    requires
        s.len() == 0 || !is_white(s[0]),
    ensures
        trim_end(s).len() == 0 || !is_white(trim_end(s)[0]),
        trim_end(s).len() == 0 || !is_white(trim_end(s).last()),
    decreases s.len(),
{
    if s.len() > 0 && is_white(s.last()) {
        lemma_trim_end(s.drop_last());
    }
}

/// A command with one word behind it: the words are told apart.
pub proof fn law_two_words(verb: Seq<char>, arg: Seq<char>)
    requires
        !verb.contains(' '),
        !arg.contains(' '),
    ensures
        verb_of(verb + seq![' '] + arg) == verb,
        arg1_of(verb + seq![' '] + arg) == arg,
        arg2_of(verb + seq![' '] + arg).len() == 0,
{
    law_first_word(verb, arg);
    assert forall|j: int| 0 <= j < arg.len() implies arg[j] != ' ' by {
        assert(arg.contains(arg[j]));
    }
    lemma_find(arg, ' ', arg.len() as int);
    assert(arg.take(arg.len() as int) =~= arg);
}

/// A command with two words or more behind it: all behind the first of them is one
/// text, spaces and all.
pub proof fn law_three_words(verb: Seq<char>, arg: Seq<char>, rest: Seq<char>)
    requires
        !verb.contains(' '),
        !arg.contains(' '),
    ensures
        ({
            let cmd = verb + seq![' '] + (arg + seq![' '] + rest);
            verb_of(cmd) == verb && arg1_of(cmd) == arg && arg2_of(cmd) == rest
        }),
{
    let tail = arg + seq![' '] + rest;
    law_first_word(verb, tail);
    law_first_word(arg, rest);
}

/// A line that begins with a word and a space: the word comes first, and all behind
/// the space is the rest.
pub proof fn law_first_word(word: Seq<char>, rest: Seq<char>)
    requires
        !word.contains(' '),
    ensures
        find(word + seq![' '] + rest, ' ') == word.len(),
        first_word(word + seq![' '] + rest) == word,
        after_word(word + seq![' '] + rest) == rest,
{
    let s = word + seq![' '] + rest;
    assert forall|j: int| 0 <= j < word.len() implies s[j] != ' ' by {
        assert(word.contains(word[j]));
    }
    lemma_find(s, ' ', word.len() as int);
    assert(s.take(word.len() as int) =~= word);
    assert(s.skip(word.len() as int + 1) =~= rest);
}

/// The three parts of a command line with two spaces or more, put together
/// again with spaces, are the line.
pub proof fn law_words_rejoin(cmd: Seq<char>)
    requires
        find(cmd, ' ') < cmd.len(),
        find(after_word(cmd), ' ') < after_word(cmd).len(),
    ensures
        cmd == verb_of(cmd) + seq![' '] + arg1_of(cmd) + seq![' '] + arg2_of(cmd),
{
    lemma_find_at(cmd, ' ');
    lemma_find_at(after_word(cmd), ' ');
    let r = after_word(cmd);
    assert(r =~= arg1_of(cmd) + seq![' '] + arg2_of(cmd));
    assert(cmd =~= verb_of(cmd) + seq![' '] + r);
    assert(cmd =~= verb_of(cmd) + seq![' '] + arg1_of(cmd) + seq![' '] + arg2_of(cmd));
}

/// What is found lies within the text, or at its end where there is none.
pub proof fn lemma_find_at(s: Seq<char>, c: char)
    ensures
        0 <= find(s, c) <= s.len(),
        find(s, c) < s.len() ==> s[find(s, c)] == c,
    decreases s.len(),
{
    if s.len() > 0 && s[0] != c {
        lemma_find_at(s.drop_first(), c);
    }
}

/// Whether a text is white space and nothing else.
pub open spec fn all_white(s: Seq<char>) -> bool {
    forall|i: int| 0 <= i < s.len() ==> is_white(#[trigger] s[i])
}

/// Of a text whose ends are no white space, with white space before and behind it, the
/// text itself stays; nothing stays of white space alone.
pub proof fn law_trimmed(a: Seq<char>, s: Seq<char>, b: Seq<char>)
    requires
        all_white(a),
        all_white(b),
        s.len() == 0 || !is_white(s[0]) && !is_white(s.last()),
    ensures
        trim(a + s + b) == s,
    decreases a.len(), b.len(),
{
    let t = a + s + b;
    if a.len() > 0 {
        let r = a.drop_first();
        assert(is_white(a[0]));
        assert forall|i: int| 0 <= i < r.len() implies is_white(#[trigger] r[i]) by {
            assert(is_white(a[i + 1]));
        }
        assert(t.drop_first() =~= r + s + b);
        law_trimmed(r, s, b);
    } else if s.len() == 0 {
        assert(t =~= b);
        lemma_white_cut(b);
        assert(trim(t) =~= s);
    } else {
        assert(t =~= s + b);
        assert(trim_start(t) == t);
        lemma_end_cut(s, b);
    }
}

proof fn lemma_white_cut(b: Seq<char>)
    requires
        all_white(b),
    ensures
        trim_start(b).len() == 0,
    decreases b.len(),
{
    if b.len() > 0 {
        let r = b.drop_first();
        assert(is_white(b[0]));
        assert forall|i: int| 0 <= i < r.len() implies is_white(#[trigger] r[i]) by {
            assert(is_white(b[i + 1]));
        }
        lemma_white_cut(r);
    }
}

proof fn lemma_end_cut(s: Seq<char>, b: Seq<char>)
    requires
        s.len() > 0,
        !is_white(s.last()),
        all_white(b),
    ensures
        trim_end(s + b) == s,
    decreases b.len(),
{
    let t = s + b;
    if b.len() == 0 {
        assert(t =~= s);
    } else {
        let r = b.drop_last();
        assert(is_white(b[b.len() - 1]));
        assert forall|i: int| 0 <= i < r.len() implies is_white(#[trigger] r[i]) by {
            assert(is_white(b[i]));
        }
        assert(t.drop_last() =~= s + r);
        lemma_end_cut(s, r);
    }
}

/// A byte's numeral reads as that byte.
pub proof fn law_octet_read(n: nat)
    requires
        n <= 255,
    ensures
        octet(text::dec(n)) == n,
        !text::dec(n).contains('.'),
{
    let d = text::dec(n);
    text::law_dec_value(n);
    text::lemma_dec_bytes(n);
    assert forall|i: int| 0 <= i < d.len() implies #[trigger] is_digit(d[i]) by {
        assert(text::dec_bytes(n)[i] as char == d[i]);
    }
    assert(is_digit(d[0]));
    assert forall|i: int| 0 <= i < d.len() implies d[i] != '.' by {
        assert(is_digit(d[i]));
    }
}

/// Behind a dot a text without dots is one more part.
pub proof fn law_one_more_part(head: Seq<char>, part: Seq<char>)
    requires
        !part.contains('.'),
    ensures
        dot_parts(part) == seq![part],
        dot_parts(head + seq!['.'] + part) == dot_parts(head).push(part),
    decreases part.len(),
{
    let s = head + seq!['.'] + part;
    if part.len() == 0 {
        assert(part =~= Seq::<char>::empty());
        assert(s =~= head.push('.'));
        assert(s.drop_last() =~= head);
        assert(dot_parts(part) =~= seq![part]);
    } else {
        let p = part.drop_last();
        assert(part.contains(part[part.len() - 1]));
        assert forall|i: int| 0 <= i < p.len() implies p[i] != '.' by {
            assert(part.contains(part[i]));
        }
        law_one_more_part(head, p);
        assert(s.drop_last() =~= head + seq!['.'] + p);
        assert(s.last() == part.last());
        assert(p.push(part.last()) =~= part);
        assert(dot_parts(head).push(p).drop_last() =~= dot_parts(head));
        assert(seq![p].drop_last().push(p.push(part.last())) =~= seq![part]);
        assert(dot_parts(part) =~= seq![part]);
    }
}

/// The address that a dotted text of four bytes stands for has these bytes, in order.
pub proof fn law_address_read(a: u8, b: u8, c: u8, d: u8)
    ensures
        ({
            let s = text::dec(a as nat) + seq!['.'] + text::dec(b as nat) + seq!['.'] + text::dec(
                c as nat,
            ) + seq!['.'] + text::dec(d as nat);
            let p = dot_parts(s);
            &&& p.len() == 4
            &&& octet(p[0]) == a && octet(p[1]) == b && octet(p[2]) == c && octet(p[3]) == d
        }),
{
    law_octet_read(a as nat);
    law_octet_read(b as nat);
    law_octet_read(c as nat);
    law_octet_read(d as nat);
    let h1 = text::dec(a as nat);
    let h2 = h1 + seq!['.'] + text::dec(b as nat);
    let h3 = h2 + seq!['.'] + text::dec(c as nat);
    law_one_more_part(Seq::empty(), h1);
    law_one_more_part(h1, text::dec(b as nat));
    law_one_more_part(h2, text::dec(c as nat));
    law_one_more_part(h3, text::dec(d as nat));
}

/// A text with fewer or more than three dots is no address.
pub proof fn law_parts_counted(s: Seq<char>)
    ensures
        dot_parts(s).len() == 1 + s.filter(|c: char| c == '.').len(),
    decreases s.len(),
{
    reveal(Seq::filter);
    if s.len() > 0 {
        law_parts_counted(s.drop_last());
    }
}

/// A path from the root stays as it is, and any other is taken from the directory that one
/// is in.
pub proof fn law_absolute(cwd: Seq<char>, name: Seq<char>)
    requires
        cwd.len() > 0,
        cwd[0] == '/',
    ensures
        absolute(cwd, seq!['/'] + name) == seq!['/'] + name,
        name.len() > 0 && name[0] != '/' ==> absolute(cwd, name) == text::join_path(cwd, name),
        absolute(cwd, name).len() > 0 && absolute(cwd, name)[0] == '/',
{
}

/// The directory above the root is the root, and what is above a directory comes before
/// it in its path.
pub proof fn law_parent_above(path: Seq<char>)
    requires
        path.len() > 0,
        path[0] == '/',
    ensures
        parent(seq!['/']) == seq!['/'],
        parent(path)[0] == '/',
        parent(path).is_prefix_of(path),
{
    reveal_with_fuel(trim_end_slashes, 3);
    assert(seq!['/'].drop_last() =~= Seq::<char>::empty());
    lemma_slashes_cut(path);
    let t = trim_end_slashes(path);
    lemma_above(t);
    let up = before_last_slash(t);
    if up.len() > 0 {
        assert(up =~= path.take(up.len() as int));
        assert(path.subrange(0, up.len() as int) =~= up);
    } else {
        assert(path.subrange(0, 1) =~= seq!['/']);
    }
}

proof fn lemma_above(s: Seq<char>)
    ensures
        before_last_slash(s).len() <= s.len(),
        before_last_slash(s) == s.take(before_last_slash(s).len() as int),
    decreases s.len(),
{
    if s.len() == 0 {
        assert(s.take(0) =~= s);
    } else if s.last() == '/' {
        assert(s.drop_last() =~= s.take(s.len() - 1));
    } else {
        lemma_above(s.drop_last());
        let n = before_last_slash(s).len() as int;
        assert(s.drop_last().take(n) =~= s.take(n));
    }
}

/// The inode of a directory, where `found` is what a lookup of its path gave.
pub open spec fn directory_at(path: Seq<char>, found: Option<u32>, root: u32) -> Option<u32> {
    if path == seq!['/'] {
        Some(root)
    } else {
        found
    }
}

/// The address that a text stands for, if it has four parts.
pub open spec fn address_in(s: Seq<char>) -> Option<Seq<u8>> {
    if dot_parts(s).len() == 4 {
        Some(Seq::new(4, |i: int| octet(dot_parts(s)[i]) as u8))
    } else {
        None
    }
}

/// The root is found without a lookup, and any other directory where the lookup found it.
pub proof fn law_directory_at(path: Seq<char>, found: Option<u32>, root: u32)
    ensures
        directory_at(seq!['/'], found, root) == Some(root),
        path != seq!['/'] ==> directory_at(path, found, root) == found,
{
}

/// An address that was written with dots reads as its four bytes, and a text without three
/// dots as none.
pub proof fn law_address_found(ip: Seq<u8>, s: Seq<char>)
    requires
        ip.len() == 4,
    ensures
        address_in(
            text::dec(ip[0] as nat) + seq!['.'] + text::dec(ip[1] as nat) + seq!['.'] + text::dec(
                ip[2] as nat,
            ) + seq!['.'] + text::dec(ip[3] as nat),
        ) == Some(ip),
        address_in(s) is Some <==> s.filter(|c: char| c == '.').len() == 3,
{
    law_address_read(ip[0], ip[1], ip[2], ip[3]);
    let t = text::dec(ip[0] as nat) + seq!['.'] + text::dec(ip[1] as nat) + seq!['.'] + text::dec(
        ip[2] as nat,
    ) + seq!['.'] + text::dec(ip[3] as nat);
    assert(address_in(t)->0 =~= ip);
    law_parts_counted(s);
}

} // verus!
