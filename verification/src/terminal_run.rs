//! What holds of the terminal over any run of keys and answers.
use vstd::prelude::*;
use crate::ps2::{KEY_DOWN, KEY_UP};
use crate::screen::TEXT;
use crate::shell::Command;
use crate::{complete, display, protocol, screen, shell, terminal, terminal_laws};

verus! {

// ── The screen stays in order ───────────────────────────────────────────────

/// Printing keeps the screen in order.
pub broadcast proof fn lemma_say(t: terminal::TerminalState, s: Seq<char>, hex: u32)
    requires
        t.screen.wf(),
    ensures
        (#[trigger] t.say(s, hex)).screen.wf(),
{
    screen::law_screen_wf(
        t.screen,
        s.map_values(|c: char| c as u8),
        display::rgb(hex as int),
    );
}

proof fn lemma_help_lines(t: terminal::TerminalState, ts: Seq<complete::TopicText>, n: int)
    requires
        t.screen.wf(),
    ensures
        t.help_lines(ts, n).screen.wf(),
    decreases n,
{
    broadcast use lemma_say;

    if n > 0 {
        lemma_help_lines(t, ts, n - 1);
    }
}

proof fn lemma_list_history(t: terminal::TerminalState, n: int)
    requires
        t.screen.wf(),
    ensures
        t.list_history(n).screen.wf(),
    decreases n,
{
    broadcast use lemma_say;

    if n > 0 {
        lemma_list_history(t, n - 1);
    }
}

proof fn lemma_list_entries(t: terminal::TerminalState, es: Seq<protocol::Entry>, n: int)
    requires
        t.screen.wf(),
    ensures
        t.list_entries(es, n).screen.wf(),
    decreases n,
{
    broadcast use lemma_say;

    if n > 0 {
        lemma_list_entries(t, es, n - 1);
    }
}

proof fn lemma_list_ring(t: terminal::TerminalState, ring: Seq<protocol::RxState>, n: int)
    requires
        t.screen.wf(),
    ensures
        t.list_ring(ring, n).screen.wf(),
    decreases n,
{
    broadcast use lemma_say;

    if n > 0 {
        lemma_list_ring(t, ring, n - 1);
    }
}

proof fn lemma_list_devices(t: terminal::TerminalState, ds: Seq<protocol::Device>, n: int)
    requires
        t.screen.wf(),
    ensures
        t.list_devices(ds, n).screen.wf(),
    decreases n,
{
    broadcast use lemma_say;

    if n > 0 {
        lemma_list_devices(t, ds, n - 1);
    }
}

proof fn lemma_empty_screen()
    ensures
        screen::Screen::empty().wf(),
{
}

proof fn lemma_help_screen(t: terminal::TerminalState)
    requires
        t.screen.wf(),
    ensures
        t.help().done().t.screen.wf(),
{
    broadcast use lemma_say;

    lemma_help_lines(
        t.say("Commands:\n"@, screen::OK),
        complete::topics(),
        complete::topics().len() as int,
    );
}

proof fn lemma_sysinfo_screen(t: terminal::TerminalState)
    requires
        t.screen.wf(),
    ensures
        t.sysinfo_head().screen.wf(),
{
    broadcast use lemma_say;

}

proof fn lemma_execute_screen(t: terminal::TerminalState, cmd: Seq<char>)
    requires
        t.screen.wf(),
    ensures
        t.execute(cmd).t.screen.wf(),
{
    let c = shell::command_of(shell::verb_of(cmd));
    if c == Command::Help {
        lemma_help_screen(t);
    } else if c == Command::Sysinfo {
        lemma_sysinfo_screen(t);
    } else {
        lemma_other_screen(t, cmd);
    }
}

proof fn lemma_other_screen(t: terminal::TerminalState, cmd: Seq<char>)
    requires
        t.screen.wf(),
        shell::command_of(shell::verb_of(cmd)) != Command::Help,
        shell::command_of(shell::verb_of(cmd)) != Command::Sysinfo,
    ensures
        t.execute(cmd).t.screen.wf(),
{
    broadcast use lemma_say;

    lemma_empty_screen();
    lemma_list_history(t, t.history.len() as int);
}

proof fn lemma_typed_wf(t: terminal::TerminalState, b: u8)
    requires
        t.wf(),
    ensures
        t.typed(b).wf(),
{
    let color = display::rgb(TEXT as int);
    screen::lemma_put_wf(t.screen, b, color);
    let p = t.screen.put(b, color);
    let bytes = t.rest().map_values(|c: char| c as u8);
    screen::law_screen_wf(p, bytes, color);
    let q = p.print(t.rest(), TEXT);
    screen::law_cursor_wf(q, q.place() - t.behind, 0);
}

proof fn lemma_typed_all_wf(t: terminal::TerminalState, s: Seq<char>)
    requires
        t.wf(),
    ensures
        t.typed_all(s).wf(),
    decreases s.len(),
{
    if s.len() > 0 {
        lemma_typed_all_wf(t, s.drop_last());
        lemma_typed_wf(t.typed_all(s.drop_last()), s.last() as u8);
    }
}

proof fn lemma_completed_wf(t: terminal::TerminalState, word: Seq<char>, options: Seq<Seq<char>>)
    requires
        t.wf(),
    ensures
        t.completed(word, options).wf(),
{
    broadcast use lemma_say;

    if options.len() == 1 {
        lemma_typed_all_wf(t, options[0].skip(word.len() as int) + " "@);
    }
}

// ── Answers ─────────────────────────────────────────────────────────────────

proof fn lemma_lookup_screen(t: terminal::TerminalState, a: protocol::Answer)
    requires
        t.screen.wf(),
        t.accepts(a),
        t.wait is Resolve || t.wait is Search || t.wait is Copy,
    ensures
        t.answered(a).t.screen.wf(),
{
    broadcast use lemma_say;

}

proof fn lemma_files_screen(t: terminal::TerminalState, a: protocol::Answer)
    requires
        t.screen.wf(),
        t.accepts(a),
        !(t.wait is Resolve || t.wait is Search || t.wait is Copy || t.wait is Complete),
        !terminal::about_machine(t.wait),
    ensures
        t.answered(a).t.screen.wf(),
{
    broadcast use lemma_say;

    let u = terminal::TerminalState { wait: terminal::Wait::Idle, ..t };
    if let protocol::Answer::Listing(es) = a {
        lemma_list_entries(u, es, es.len() as int);
    }
}

proof fn lemma_shown_screen(t: terminal::TerminalState, a: protocol::Answer)
    requires
        t.screen.wf(),
        t.accepts(a),
        t.wait is Config || t.wait is Regs || t.wait is Address,
    ensures
        t.answered(a).t.screen.wf(),
{
    broadcast use lemma_say;

}

proof fn lemma_machine_screen(t: terminal::TerminalState, a: protocol::Answer)
    requires
        t.screen.wf(),
        t.accepts(a),
        terminal::about_machine(t.wait),
        !(t.wait is Config || t.wait is Regs || t.wait is Address),
    ensures
        t.answered(a).t.screen.wf(),
{
    broadcast use lemma_say;

    let u = terminal::TerminalState { wait: terminal::Wait::Idle, ..t };
    match a {
        protocol::Answer::Ring(Some(r)) => lemma_list_ring(u, r, r.len() as int),
        protocol::Answer::Devices(ds) => lemma_list_devices(u, ds, ds.len() as int),
        _ => {},
    }
}

/// An answer keeps the terminal in order.
pub proof fn law_answer_wf(t: terminal::TerminalState, a: protocol::Answer)
    requires
        t.wf(),
        t.accepts(a),
    ensures
        t.answered(a).t.wf(),
{
    terminal_laws::law_answer_keeps_session(t, a);
    if t.wait is Complete {
        let u = terminal::TerminalState { wait: terminal::Wait::Idle, ..t };
        let word = complete::behind_last(t.cmd, ' ');
        lemma_completed_wf(u, word, complete::options(terminal::names_in(a->Names_0), word));
    } else if t.wait is Resolve || t.wait is Search || t.wait is Copy {
        lemma_lookup_screen(t, a);
    } else if t.wait is Config || t.wait is Regs || t.wait is Address {
        lemma_shown_screen(t, a);
    } else if terminal::about_machine(t.wait) {
        lemma_machine_screen(t, a);
    } else {
        lemma_files_screen(t, a);
    }
}

// ── Keys ────────────────────────────────────────────────────────────────────

proof fn lemma_at_end(t: terminal::TerminalState)
    requires
        t.wf(),
    ensures
        t.at_end().wf(),
        t.at_end().behind == 0,
{
    screen::law_cursor_wf(t.screen, t.screen.place() + t.behind, 0);
}

proof fn lemma_at_start(t: terminal::TerminalState)
    requires
        t.wf(),
    ensures
        t.at_start().wf(),
{
    screen::law_cursor_wf(
        t.screen,
        t.screen.place() - (t.cmd.len() - t.behind),
        0,
    );
}

proof fn lemma_rubbed(t: terminal::TerminalState)
    requires
        t.wf(),
    ensures
        t.rubbed().wf(),
{
    screen::law_cursor_wf(t.screen, t.screen.place() - 1, 0);
    let back = t.screen.at(t.screen.place() - 1);
    let s = t.rest() + " "@;
    screen::law_screen_wf(back, s.map_values(|c: char| c as u8), display::rgb(TEXT as int));
    let q = back.print(s, TEXT);
    screen::law_cursor_wf(q, q.place() - t.behind - 1, 0);
}

proof fn lemma_replaced(t: terminal::TerminalState, new: Seq<char>)
    requires
        t.wf(),
    ensures
        t.replaced(new).wf(),
{
    let n = if t.cmd.len() < t.screen.col {
        t.cmd.len() as int
    } else {
        t.screen.col
    };
    screen::law_cursor_wf(t.screen, 0, n);
    screen::law_screen_wf(
        t.screen.erase(n),
        vstd::utf8::encode_utf8(new),
        display::rgb(TEXT as int),
    );
}

proof fn lemma_recall(t: terminal::TerminalState)
    requires
        t.wf(),
    ensures
        t.earlier().wf(),
        t.later().wf(),
{
    if t.history.len() > 0 {
        let i: usize = match t.history_idx {
            None => (t.history.len() - 1) as usize,
            Some(i) => if i == 0 {
                0usize
            } else {
                (i - 1) as usize
            },
        };
        lemma_replaced(
            terminal::TerminalState { history_idx: Some(i), ..t },
            t.history[i as int],
        );
    }
    if let Some(i) = t.history_idx {
        if i + 1 >= t.history.len() {
            lemma_replaced(terminal::TerminalState { history_idx: None, ..t }, ""@);
        } else {
            lemma_replaced(
                terminal::TerminalState { history_idx: Some((i + 1) as usize), ..t },
                t.history[i + 1],
            );
        }
    }
}

proof fn lemma_entered(t: terminal::TerminalState)
    requires
        t.wf(),
    ensures
        t.entered().t.wf(),
{
    let cmd = shell::trim(t.cmd);
    let color = display::rgb(TEXT as int);
    let u = terminal::TerminalState {
        screen: t.screen.put(10, color),
        cmd: ""@,
        behind: 0,
        history_idx: None,
        history: terminal::remember(t.history, cmd),
        ..t
    };
    screen::lemma_put_wf(t.screen, 10, color);
    shell::law_trim_idempotent(t.cmd);
    assert forall|i: int| 0 <= i < u.history.len() implies (#[trigger] u.history[i]).len() > 0
        && shell::trim(u.history[i]) == u.history[i] by {
        let h = t.history.push(cmd);
        if cmd.len() > 0 {
            let k = if t.history.len() + 1 > terminal::HISTORY {
                i + 1
            } else {
                i
            };
            assert(u.history[i] == h[k]);
            if k < t.history.len() {
                assert(h[k] == t.history[k]);
            }
        } else {
            assert(u.history[i] == t.history[i]);
        }
    }
    terminal_laws::law_command_keeps_session(u, cmd);
    lemma_execute_screen(u, cmd);
}

/// A key keeps the terminal in order, and has it drawn.
pub proof fn law_key_wf(t: terminal::TerminalState, b: u8)
    requires
        t.wf(),
    ensures
        t.key(b).t.wf(),
        t.key(b).t.dirty,
{
    broadcast use lemma_say;

    let e = t.at_end();
    lemma_at_end(t);
    lemma_empty_screen();
    if b == 10 {
        lemma_entered(e);
    } else if b == 9 {
        lemma_completed_wf(e, e.cmd, complete::options(complete::command_names(), e.cmd));
    } else if b == 8 {
        lemma_rubbed(t);
    } else if b == 1 {
        lemma_at_start(t);
    } else if b == KEY_UP || b == 0x10 || b == KEY_DOWN || b == 0x0E {
        lemma_recall(e);
    } else {
        lemma_typed_wf(t, b);
    }
}

// ── Runs ────────────────────────────────────────────────────────────────────

/// What happens to a terminal.
pub enum Input {
    Key(u8),
    Answer(protocol::Answer),
}

/// The input can come: a key where keys are waited for, an answer to what was asked.
pub open spec fn can_come(t: terminal::TerminalState, i: Input) -> bool {
    match i {
        Input::Key(b) => t.wait is Idle && (b == 10 ==> t.can_enter()),
        Input::Answer(a) => t.accepts(a),
    }
}

/// The input is in ASCII, as far as it goes into the line.
pub open spec fn plain_input(t: terminal::TerminalState, i: Input) -> bool {
    match i {
        Input::Key(b) => terminal::plain_key(b),
        Input::Answer(a) => terminal::plain_answer(t.wait, a),
    }
}

/// The terminal after an input.
pub open spec fn after(t: terminal::TerminalState, i: Input) -> terminal::TerminalState {
    match i {
        Input::Key(b) => t.key(b).t,
        Input::Answer(a) => t.answered(a).t,
    }
}

/// The terminal after some inputs.
pub open spec fn run(t: terminal::TerminalState, is: Seq<Input>) -> terminal::TerminalState
    decreases is.len(),
{
    if is.len() == 0 {
        t
    } else {
        after(run(t, is.drop_last()), is.last())
    }
}

/// Each of the inputs can come after those before it.
pub open spec fn all_come(t: terminal::TerminalState, is: Seq<Input>) -> bool
    decreases is.len(),
{
    is.len() > 0 ==> all_come(t, is.drop_last()) && can_come(run(t, is.drop_last()), is.last())
}

/// Each of the inputs is in ASCII.
pub open spec fn all_plain(t: terminal::TerminalState, is: Seq<Input>) -> bool
    decreases is.len(),
{
    is.len() > 0 ==> all_plain(t, is.drop_last()) && plain_input(
        run(t, is.drop_last()),
        is.last(),
    )
}

/// A terminal that was just opened is in order.
pub proof fn law_fresh_wf(root: u32)
    ensures
        terminal::TerminalState::fresh(root).wf(),
        terminal::TerminalState::fresh(root).plain(),
        terminal::TerminalState::fresh(root).dirty,
{
    broadcast use lemma_say;

    lemma_empty_screen();
    reveal_strlit("");
}

/// Over any run of keys and answers, from the opening of the terminal on: the screen has
/// 200 rows of 30 cells and the cursor is on it; the history holds at most fifty
/// commands, none of them empty or with blanks around it, and the place in it is one of
/// theirs; and after a key the terminal is to be drawn. Where what goes into the line is
/// in ASCII, the line and every command of the history have at most twenty-eight
/// characters.
pub proof fn law_terminal_over_runs(root: u32, is: Seq<Input>)
    requires
        all_come(terminal::TerminalState::fresh(root), is),
    ensures
        ({
            let t = run(terminal::TerminalState::fresh(root), is);
            &&& t.wf()
            &&& t.screen.lines.len() == 200
            &&& forall|i: int| 0 <= i < 200 ==> (#[trigger] t.screen.lines[i]).len() == 30
            &&& 0 <= t.screen.row < 200 && 0 <= t.screen.col < 30
            &&& t.history.len() <= 50
            &&& t.history_idx matches Some(i) ==> i < t.history.len()
            &&& is.len() == 0 || is.last() is Key ==> t.dirty
            &&& all_plain(terminal::TerminalState::fresh(root), is) ==> t.plain() && t.cmd.len()
                <= 28
        }),
    decreases is.len(),
{
    let f = terminal::TerminalState::fresh(root);
    if is.len() == 0 {
        law_fresh_wf(root);
    } else {
        law_terminal_over_runs(root, is.drop_last());
        let t = run(f, is.drop_last());
        match is.last() {
            Input::Key(b) => {
                law_key_wf(t, b);
                if all_plain(f, is) {
                    terminal_laws::law_keys_stay_plain(t, b);
                }
            },
            Input::Answer(a) => {
                law_answer_wf(t, a);
                if all_plain(f, is) {
                    terminal_laws::law_answers_stay_plain(t, a);
                }
            },
        }
    }
}

} // verus!
