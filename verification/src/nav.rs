//! The HepFS window: a directory with its way back and forward.
use vstd::prelude::*;
use crate::{display, shell, text};

verus! {

/// Height of the navigation bar.
pub const NAV_H: usize = 22;


/// A place: an inode and its path.
pub struct Place {
    pub ino: u32,
    pub path: String,
}

/// Where the HepFS window is, where it was, and where it came back from.
pub struct HepfsNav {
    pub ino: u32,
    pub path: String,
    pub back: Vec<Place>,
    pub fwd: Vec<Place>,
}

/// A place, as contracts speak of it.
pub struct Spot {
    pub ino: u32,
    pub path: Seq<char>,
}

impl View for Place {
    type V = Spot;

    open spec fn view(&self) -> Spot {
        Spot { ino: self.ino, path: self.path@ }
    }
}

/// What contracts say of the navigator.
pub struct NavState {
    pub here: Spot,
    pub back: Seq<Spot>,
    pub fwd: Seq<Spot>,
}

impl View for HepfsNav {
    type V = NavState;

    open spec fn view(&self) -> NavState {
        NavState {
            here: Spot { ino: self.ino, path: self.path@ },
            back: self.back@.map_values(|p: Place| p@),
            fwd: self.fwd@.map_values(|p: Place| p@),
        }
    }
}

impl NavState {
    /// At the root, with no history.
    pub open spec fn fresh(root: u32) -> NavState {
        NavState { here: Spot { ino: root, path: "/"@ }, back: seq![], fwd: seq![] }
    }

    /// One step back.
    pub open spec fn went_back(self) -> NavState {
        if self.back.len() == 0 {
            self
        } else {
            NavState {
                here: self.back.last(),
                back: self.back.drop_last(),
                fwd: self.fwd.push(self.here),
            }
        }
    }

    /// One step forward.
    pub open spec fn went_forward(self) -> NavState {
        if self.fwd.len() == 0 {
            self
        } else {
            NavState {
                here: self.fwd.last(),
                back: self.back.push(self.here),
                fwd: self.fwd.drop_last(),
            }
        }
    }

    /// Down into the directory `name`.
    pub open spec fn entered(self, ino: u32, name: Seq<char>) -> NavState {
        NavState {
            here: Spot { ino, path: text::join_path(self.here.path, name) },
            back: self.back.push(self.here),
            fwd: seq![],
        }
    }

    /// All places, from the first visited to the last.
    pub open spec fn trail(self) -> Seq<Spot> {
        self.back.push(self.here) + self.fwd.reverse()
    }

    /// The places lead from the root down, each into a directory of the one
    /// before it.
    pub open spec fn wf(self, root: u32) -> bool {
        &&& self.trail()[0] == (Spot { ino: root, path: seq!['/'] })
        &&& forall|i: int|
            0 <= i < self.trail().len() - 1 ==> #[trigger] leads_down(self.trail(), i)
    }
}

/// From place `i` the next one is a directory in it.
pub open spec fn leads_down(trail: Seq<Spot>, i: int) -> bool {
    child_of(trail[i].path, trail[i + 1].path)
}

/// The path of something in the directory `dir`.
pub open spec fn child_of(dir: Seq<char>, path: Seq<char>) -> bool {
    exists|name: Seq<char>| plain(name) && path == #[trigger] text::join_path(dir, name)
}

/// A name that a file can have.
pub open spec fn plain(name: Seq<char>) -> bool {
    name.len() > 0 && forall|i: int| 0 <= i < name.len() ==> name[i] != '/'
}

impl HepfsNav {
    /// A navigator at the root.
    pub fn new(root: u32) -> (n: HepfsNav)
        ensures
            n@ == NavState::fresh(root),
    {
        let n = HepfsNav {
            ino: root,
            path: String::from_str("/"),
            back: Vec::new(),
            fwd: Vec::new(),
        };
        assert(n@.back =~= Seq::<Spot>::empty());
        assert(n@.fwd =~= Seq::<Spot>::empty());
        n
    }

    /// One step back, where there is one.
    pub fn go_back(&mut self)
        ensures
            final(self)@ == old(self)@.went_back(),
    {
        assert(self@.back.len() == self.back@.len());
        match self.back.pop() {
            None => {},
            Some(p) => {
                assert(old(self)@.back.last() == p@);
                assert(self@.back =~= old(self)@.back.drop_last());
                let mut path: String = p.path;
                std::mem::swap(&mut path, &mut self.path);
                self.fwd.push(Place { ino: self.ino, path });
                self.ino = p.ino;
                assert(self@.fwd =~= old(self)@.fwd.push(old(self)@.here));
            },
        }
    }

    /// One step forward, where there is one.
    pub fn go_forward(&mut self)
        ensures
            final(self)@ == old(self)@.went_forward(),
    {
        assert(self@.fwd.len() == self.fwd@.len());
        match self.fwd.pop() {
            None => {},
            Some(p) => {
                assert(old(self)@.fwd.last() == p@);
                assert(self@.fwd =~= old(self)@.fwd.drop_last());
                let mut path: String = p.path;
                std::mem::swap(&mut path, &mut self.path);
                self.back.push(Place { ino: self.ino, path });
                self.ino = p.ino;
                assert(self@.back =~= old(self)@.back.push(old(self)@.here));
            },
        }
    }

    /// Down into a directory.
    pub fn enter(&mut self, ino: u32, name: &str)
        ensures
            final(self)@ == old(self)@.entered(ino, name@),
    {
        let mut path: String = text::child_path(self.path.as_str(), name);
        std::mem::swap(&mut path, &mut self.path);
        self.back.push(Place { ino: self.ino, path });
        self.fwd = Vec::new();
        self.ino = ino;
        assert(self@.back =~= old(self)@.back.push(old(self)@.here));
        assert(self@.fwd =~= Seq::<Spot>::empty());
    }

    /// The path of something in the current directory.
    pub fn path_of(&self, name: &str) -> (r: String)
        ensures
            r@ == text::join_path(self@.here.path, name@),
            r@ == self@.path_to(name@),
    {
        text::child_path(self.path.as_str(), name)
    }
}

// ── Clicks ──────────────────────────────────────────────────────────────────

/// Where in the window a click fell.
#[derive(Clone, Copy, PartialEq, Eq, Structural, Debug)]
pub enum Zone {
    Back,
    Forward,
    Bar,
    /// A row of the list, counted from the top.
    Row(usize),
}

/// What lies at a point of the window's content, relative to its corner.
pub open spec fn zone_at(rel_x: int, rel_y: int) -> Zone {
    if rel_y < NAV_H {
        if rel_x < 22 {
            Zone::Back
        } else if rel_x < 44 {
            Zone::Forward
        } else {
            Zone::Bar
        }
    } else {
        Zone::Row((display::sat_sub(rel_y, 23) / 14) as usize)
    }
}

/// What lies at a point of the window's content.
pub fn zone(rel_x: u32, rel_y: u32) -> (z: Zone)
    ensures
        z == zone_at(rel_x as int, rel_y as int),
{
    if rel_y < 22 {
        if rel_x < 22 {
            Zone::Back
        } else if rel_x < 44 {
            Zone::Forward
        } else {
            Zone::Bar
        }
    } else {
        let d: u32 = if rel_y >= 23 {
            rel_y - 23
        } else {
            0
        };
        Zone::Row((d / 14) as usize)
    }
}

/// What a row of the list stands for.
#[derive(Clone, Copy, PartialEq, Eq, Structural, Debug)]
pub enum RowTarget {
    /// The way up.
    Up,
    /// An entry of the directory, counted from the first.
    Entry(usize),
}

/// What row `i` stands for: away from the root the first row is the way up.
pub open spec fn row_target(at_root: bool, i: usize) -> RowTarget {
    if at_root {
        RowTarget::Entry(i)
    } else if i == 0 {
        RowTarget::Up
    } else {
        RowTarget::Entry((i - 1) as usize)
    }
}

/// What row `i` stands for.
pub fn target_of_row(at_root: bool, i: usize) -> (t: RowTarget)
    ensures
        t == row_target(at_root, i),
{
    if at_root {
        RowTarget::Entry(i)
    } else if i == 0 {
        RowTarget::Up
    } else {
        RowTarget::Entry(i - 1)
    }
}

// ── Laws ────────────────────────────────────────────────────────────────────

/// Whatever steps are taken, the places lead from the root down.
pub proof fn law_nav_wf(s: NavState, root: u32, ino: u32, name: Seq<char>)
    requires
        s.wf(root),
        plain(name),
    ensures
        NavState::fresh(root).wf(root),
        s.went_back().wf(root),
        s.went_forward().wf(root),
        s.entered(ino, name).wf(root),
{
    reveal_strlit("/");
    let f = NavState::fresh(root);
    assert("/"@ =~= seq!['/']);
    assert(f.trail() =~= seq![f.here]);
    if s.back.len() > 0 {
        let b = s.went_back();
        assert(b.trail() =~= s.trail()) by {
            assert(b.back.push(b.here) =~= s.back);
            assert(s.fwd.push(s.here).reverse() =~= seq![s.here] + s.fwd.reverse());
        }
    }
    if s.fwd.len() > 0 {
        let b = s.went_forward();
        assert(b.trail() =~= s.trail()) by {
            assert(s.fwd =~= b.fwd.push(b.here));
            assert(b.fwd.push(b.here).reverse() =~= seq![b.here] + b.fwd.reverse());
        }
    }
    lemma_entered(s, root, ino, name);
}

proof fn lemma_entered(s: NavState, root: u32, ino: u32, name: Seq<char>)
    requires
        s.wf(root),
        plain(name),
    ensures
        s.entered(ino, name).wf(root),
{
    let e = s.entered(ino, name);
    let t = s.trail();
    let u = e.trail();
    assert(u =~= s.back.push(s.here).push(e.here));
    assert forall|i: int| 0 <= i < u.len() - 1 implies #[trigger] leads_down(u, i) by {
        if i < s.back.len() {
            assert(leads_down(t, i));
            assert(t[i] == u[i] && t[i + 1] == u[i + 1]);
        } else {
            assert(u[i] == s.here && u[i + 1] == e.here);
            assert(e.here.path == text::join_path(s.here.path, name));
        }
    }
    assert(u[0] == t[0]);
}

proof fn lemma_path_shape(s: NavState, root: u32, i: int)
    requires
        s.wf(root),
        0 <= i < s.trail().len(),
    ensures
        s.trail()[i].path == seq!['/'] || (s.trail()[i].path.len() > 0
            && s.trail()[i].path.last() != '/'),
    decreases i,
{
    if i > 0 {
        lemma_path_shape(s, root, i - 1);
        let dir = s.trail()[i - 1].path;
        assert(leads_down(s.trail(), i - 1));
        let name = choose|name: Seq<char>|
            plain(name) && s.trail()[i].path == #[trigger] text::join_path(dir, name);
        assert(s.trail()[i].path.last() == name.last());
    }
}

/// The way up leads to the parent directory: away from the root there is a step
/// back, and it is the parent of the current path.
pub proof fn law_up_is_parent(s: NavState, root: u32)
    requires
        s.wf(root),
        s.here.ino != root,
    ensures
        s.back.len() > 0,
        s.went_back().here.path == shell::parent(s.here.path),
{
    let n = s.back.len() as int;
    assert(s.trail()[n] == s.here);
    if n == 0 {
        assert(false);
    }
    assert(s.trail()[n - 1] == s.back[n - 1]);
    let dir = s.trail()[n - 1].path;
    assert(leads_down(s.trail(), n - 1));
    let name = choose|name: Seq<char>|
        plain(name) && s.here.path == #[trigger] text::join_path(dir, name);
    lemma_path_shape(s, root, n - 1);
    shell::law_parent_of_child(dir, name);
}

/// Back and forward undo each other.
pub proof fn law_back_and_forward(s: NavState)
    ensures
        s.back.len() > 0 ==> s.went_back().went_forward() == s,
        s.fwd.len() > 0 ==> s.went_forward().went_back() == s,
{
    if s.back.len() > 0 {
        let t = s.went_back().went_forward();
        assert(t.back =~= s.back);
        assert(t.fwd =~= s.fwd);
    }
    if s.fwd.len() > 0 {
        let t = s.went_forward().went_back();
        assert(t.back =~= s.back);
        assert(t.fwd =~= s.fwd);
    }
}

/// Back from a directory that was entered leads where one was.
pub proof fn law_enter_back(s: NavState, ino: u32, name: Seq<char>)
    ensures
        s.entered(ino, name).went_back().here == s.here,
        s.entered(ino, name).went_back().back == s.back,
{
    assert(s.entered(ino, name).went_back().back =~= s.back);
}

impl NavState {
    /// The path of something in the current directory.
    pub open spec fn path_to(self, name: Seq<char>) -> Seq<char> {
        text::join_path(self.here.path, name)
    }
}

/// A thing in the current directory has the path that entering it would lead to.
pub proof fn law_path_to(s: NavState, ino: u32, name: Seq<char>)
    ensures
        s.path_to(name) == s.entered(ino, name).here.path,
        s.here.path == seq!['/'] ==> s.path_to(name) == seq!['/'] + name,
{
}

/// The rows of the list lie one below the other, fourteen pixels each, below the bar; in any
/// directory but the root the first of them leads up, and the others are the entries.
pub proof fn law_rows_counted(x: int, y: int, k: int)
    requires
        0 <= x,
        0 <= k < 1000,
        23 <= y,
        23 + 14 * k <= y < 23 + 14 * (k + 1),
    ensures
        zone_at(x, y) == Zone::Row(k as usize),
        row_target(true, k as usize) == RowTarget::Entry(k as usize),
        k > 0 ==> row_target(false, k as usize) == RowTarget::Entry((k - 1) as usize),
        row_target(false, 0) is Up,
{
}

/// Above the list the window's content is the bar: the arrows take 22 pixels each at its
/// left end, and the path all the rest.
pub proof fn law_bar_zones(x: int, y: int)
    requires
        0 <= x,
        0 <= y < 22,
    ensures
        x < 22 ==> zone_at(x, y) is Back,
        22 <= x < 2 * 22 ==> zone_at(x, y) is Forward,
        2 * 22 <= x ==> zone_at(x, y) is Bar,
{
}

} // verus!
