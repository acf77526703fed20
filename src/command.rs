use vstd::prelude::*;

use crate::report::{Report, ReportView, report_views};
use crate::store::{
    TimerStore,
    TimerView,
    create_spec,
    name_views,
    show_spec,
    stop_spec,
};

verus! {

/// Whether `char::is_whitespace` holds of a character.
pub uninterp spec fn white_space(c: char) -> bool;

/// Relies on `char::is_whitespace`, the test `str::trim` makes at both ends of a line.
#[verifier::external_body]
fn is_white_space(c: char) -> (r: bool)
    ensures
        r == white_space(c),
{
    c.is_whitespace()
}

/// The characters after the leading white space.
pub open spec fn trim_front(s: Seq<char>) -> Seq<char>
    decreases s.len(),
{
    if s.len() > 0 && white_space(s[0]) {
        trim_front(s.drop_first())
    } else {
        s
    }
}

/// The characters before the trailing white space.
pub open spec fn trim_back(s: Seq<char>) -> Seq<char>
    decreases s.len(),
{
    if s.len() > 0 && white_space(s.last()) {
        trim_back(s.drop_last())
    } else {
        s
    }
}

/// A line without white space at either end.
pub open spec fn trimmed(s: Seq<char>) -> Seq<char> {
    trim_back(trim_front(s))
}

/// The pieces of `s` between single spaces: `n + 1` pieces for `n` spaces, some of them
/// empty where spaces stand side by side or at an end.
pub open spec fn split_spaces(s: Seq<char>) -> Seq<Seq<char>>
    decreases s.len(),
{
    if s.len() == 0 {
        seq![Seq::empty()]
    } else {
        let r = split_spaces(s.drop_last());
        if s.last() == ' ' {
            r.push(Seq::empty())
        } else {
            r.update(r.len() - 1, r.last().push(s.last()))
        }
    }
}

/// The words of a line: its trimmed text split at single spaces.
pub open spec fn words(line: Seq<char>) -> Seq<Seq<char>> {
    split_spaces(trimmed(line))
}

proof fn lemma_split_nonempty(s: Seq<char>)
    ensures
        split_spaces(s).len() >= 1,
    decreases s.len(),
{
    if s.len() > 0 {
        lemma_split_nonempty(s.drop_last());
    }
}

/// A command line, read.
#[derive(Clone, Debug, PartialEq, Eq)]
pub enum Command {
    Help,
    Exit,
    Show(Vec<String>),
    Stop(Vec<String>),
    New(Vec<String>),
    Clear,
    /// The line holds nothing but white space.
    Empty,
    /// The first word names no command.
    Unknown(String),
}

/// What a `Command` holds, with words as character sequences.
pub enum CommandView {
    Help,
    Exit,
    Show(Seq<Seq<char>>),
    Stop(Seq<Seq<char>>),
    New(Seq<Seq<char>>),
    Clear,
    Empty,
    Unknown(Seq<char>),
}

impl View for Command {
    type V = CommandView;

    open spec fn view(&self) -> CommandView {
        match self {
            Command::Help => CommandView::Help,
            Command::Exit => CommandView::Exit,
            Command::Show(a) => CommandView::Show(name_views(a@)),
            Command::Stop(a) => CommandView::Stop(name_views(a@)),
            Command::New(a) => CommandView::New(name_views(a@)),
            Command::Clear => CommandView::Clear,
            Command::Empty => CommandView::Empty,
            Command::Unknown(w) => CommandView::Unknown(w@),
        }
    }
}

/// The command that a list of words spells: the first word picks it, by its long or short
/// name, and the other words are its arguments.
pub open spec fn command_of(ws: Seq<Seq<char>>) -> CommandView {
    let w = ws[0];
    let args = ws.skip(1);
    if w == "help"@ || w == "h"@ {
        CommandView::Help
    } else if w == "exit"@ || w == "e"@ {
        CommandView::Exit
    } else if w == "show"@ || w == "sh"@ {
        CommandView::Show(args)
    } else if w == "stop"@ || w == "st"@ {
        CommandView::Stop(args)
    } else if w == "new"@ || w == "n"@ {
        CommandView::New(args)
    } else if w == "clear"@ || w == "c"@ {
        CommandView::Clear
    } else if ws.len() == 1 && w.len() == 0 {
        CommandView::Empty
    } else {
        CommandView::Unknown(w)
    }
}

/// The command that a line spells.
pub open spec fn parse_spec(line: Seq<char>) -> CommandView {
    command_of(words(line))
}

fn is_word(w: &String, lit: &str) -> (r: bool)
    ensures
        r == (w@ == lit@),
{
    *w == String::from_str(lit)
}

/// The line without white space at either end.
pub fn trim(line: &str) -> (r: &str)
    ensures
        r@ == trimmed(line@),
{
    let n = line.unicode_len();
    let mut lo: usize = 0;
    proof {
        assert(line@.subrange(0, n as int) =~= line@);
    }
    while lo < n && is_white_space(line.get_char(lo))
        invariant
            lo <= n,
            n == line@.len(),
            trim_front(line@) == trim_front(line@.subrange(lo as int, n as int)),
        decreases n - lo,
    {
        proof {
            assert(line@.subrange(lo as int, n as int).drop_first() =~= line@.subrange(
                lo + 1,
                n as int,
            ));
        }
        lo = lo + 1;
    }
    proof {
        assert(trim_front(line@) == line@.subrange(lo as int, n as int));
    }
    let mut hi: usize = n;
    while hi > lo && is_white_space(line.get_char(hi - 1))
        invariant
            lo <= hi <= n,
            n == line@.len(),
            trimmed(line@) == trim_back(line@.subrange(lo as int, hi as int)),
        decreases hi,
    {
        proof {
            assert(line@.subrange(lo as int, hi as int).drop_last() =~= line@.subrange(
                lo as int,
                hi - 1,
            ));
        }
        hi = hi - 1;
    }
    line.substring_char(lo, hi)
}

/// The pieces of `s` between single spaces.
pub fn split_words(s: &str) -> (r: Vec<String>)
    ensures
        name_views(r@) == split_spaces(s@),
{
    let n = s.unicode_len();
    let mut out: Vec<String> = Vec::new();
    let mut start: usize = 0;
    let mut i: usize = 0;
    proof {
        assert(s@.take(0) =~= Seq::<char>::empty());
        assert(name_views(out@).push(s@.subrange(0, 0)) =~= split_spaces(s@.take(0)));
    }
    while i < n
        invariant
            start <= i <= n,
            n == s@.len(),
            name_views(out@).push(s@.subrange(start as int, i as int)) == split_spaces(
                s@.take(i as int),
            ),
        decreases n - i,
    {
        let c = s.get_char(i);
        let ghost prev = out@;
        proof {
            assert(s@.take(i + 1).drop_last() =~= s@.take(i as int));
            assert(s@.take(i + 1).last() == c);
            assert(s@.take(i + 1).len() > 0);
        }
        if c == ' ' {
            let piece = String::from_str(s.substring_char(start, i));
            out.push(piece);
            start = i + 1;
            proof {
                assert(name_views(out@) =~= name_views(prev).push(piece@));
                assert(s@.subrange(start as int, i + 1) =~= Seq::<char>::empty());
                assert(name_views(out@).push(s@.subrange(start as int, i + 1)) =~= split_spaces(
                    s@.take(i + 1),
                ));
            }
        } else {
            proof {
                assert(s@.subrange(start as int, i + 1) =~= s@.subrange(start as int, i as int).push(c));
                assert(name_views(out@).push(s@.subrange(start as int, i + 1)) =~= split_spaces(
                    s@.take(i + 1),
                ));
            }
        }
        i = i + 1;
    }
    let ghost prev = out@;
    let last = String::from_str(s.substring_char(start, n));
    out.push(last);
    proof {
        assert(s@.take(n as int) =~= s@);
        assert(name_views(out@) =~= name_views(prev).push(last@));
    }
    out
}


fn rest_words(ws: &Vec<String>) -> (r: Vec<String>)
    requires
        ws@.len() >= 1,
    ensures
        name_views(r@) == name_views(ws@).skip(1),
{
    let mut out: Vec<String> = Vec::new();
    let mut k: usize = 1;
    while k < ws.len()
        invariant
            1 <= k <= ws@.len(),
            name_views(out@) =~= name_views(ws@).subrange(1, k as int),
        decreases ws@.len() - k,
    {
        let ghost prev = out@;
        let w = ws[k].clone();
        out.push(w);
        proof {
            assert(name_views(out@) =~= name_views(prev).push(w@));
        }
        k = k + 1;
    }
    out
}

fn command_from_words(ws: &Vec<String>) -> (r: Command)
    requires
        ws@.len() >= 1,
    ensures
        r@ == command_of(name_views(ws@)),
{
    let w = &ws[0];
    proof {
        assert(name_views(ws@)[0] == w@);
    }
    if is_word(w, "help") || is_word(w, "h") {
        Command::Help
    } else if is_word(w, "exit") || is_word(w, "e") {
        Command::Exit
    } else if is_word(w, "show") || is_word(w, "sh") {
        Command::Show(rest_words(ws))
    } else if is_word(w, "stop") || is_word(w, "st") {
        Command::Stop(rest_words(ws))
    } else if is_word(w, "new") || is_word(w, "n") {
        Command::New(rest_words(ws))
    } else if is_word(w, "clear") || is_word(w, "c") {
        Command::Clear
    } else if ws.len() == 1 && w.as_str().unicode_len() == 0 {
        Command::Empty
    } else {
        Command::Unknown(w.clone())
    }
}

/// Reads a command line: trims it, splits it at single spaces, and picks the command by its
/// first word.
pub fn parse(line: &str) -> (r: Command)
    ensures
        r@ == parse_spec(line@),
{
    let t = trim(line);
    let ws = split_words(t);
    proof {
        lemma_split_nonempty(t@);
    }
    command_from_words(&ws)
}

/// What the loop does after a command, besides printing its reports.
#[derive(Clone, Copy, Debug, PartialEq, Eq, Structural)]
pub enum Action {
    /// Read the next line.
    Continue,
    /// Print the list of commands, then read the next line.
    ShowHelp,
    /// Clear the screen, then read the next line.
    ClearScreen,
    /// End the session.
    Exit,
}

/// The outcome of one command: the reports to print, in order, and what to do next.
pub struct Step {
    pub reports: Vec<Report>,
    pub action: Action,
}

/// What a command does at instant `now`: the timers afterwards, the reports, and the
/// action that follows.
pub open spec fn step_spec(ts: Seq<TimerView>, cmd: CommandView, now: u64) -> (
    Seq<TimerView>,
    Seq<ReportView>,
    Action,
) {
    match cmd {
        CommandView::Help => (ts, seq![], Action::ShowHelp),
        CommandView::Exit => (ts, seq![], Action::Exit),
        CommandView::Show(names) => (ts, show_spec(ts, names, now), Action::Continue),
        CommandView::Stop(names) => {
            let (ts2, rs) = stop_spec(ts, names, now);
            (ts2, rs, Action::Continue)
        },
        CommandView::New(names) => {
            let (ts2, rs) = create_spec(ts, names, now);
            (ts2, rs, Action::Continue)
        },
        CommandView::Clear => (ts, seq![], Action::ClearScreen),
        CommandView::Empty => (ts, seq![], Action::Continue),
        CommandView::Unknown(word) => (
            ts,
            seq![ReportView::UnknownCommand { word }],
            Action::Continue,
        ),
    }
}

/// Carries out a command at instant `now`.
pub fn execute(store: &mut TimerStore, cmd: &Command, now: u64) -> (r: Step)
    requires
        old(store).wf(),
    ensures
        final(store).wf(),
        (final(store)@, report_views(r.reports@), r.action) == step_spec(old(store)@, cmd@, now),
{
    let mut reports: Vec<Report> = Vec::new();
    let action = match cmd {
        Command::Help => Action::ShowHelp,
        Command::Exit => Action::Exit,
        Command::Show(names) => {
            reports = store.show(names, now);
            Action::Continue
        },
        Command::Stop(names) => {
            reports = store.stop(names, now);
            Action::Continue
        },
        Command::New(names) => {
            reports = store.create(names, now);
            Action::Continue
        },
        Command::Clear => Action::ClearScreen,
        Command::Empty => Action::Continue,
        Command::Unknown(word) => {
            reports.push(Report::UnknownCommand { word: word.clone() });
            Action::Continue
        },
    };
    proof {
        if reports@.len() == 0 {
            assert(report_views(reports@) =~= Seq::<ReportView>::empty());
        }
        if cmd is Unknown {
            assert(report_views(reports@) =~= seq![ReportView::UnknownCommand { word: cmd->Unknown_0@ }]);
        }
    }
    Step { reports, action }
}

/// Reads a command line and carries it out at instant `now`.
pub fn handle_line(store: &mut TimerStore, line: &str, now: u64) -> (r: Step)
    requires
        old(store).wf(),
    ensures
        final(store).wf(),
        (final(store)@, report_views(r.reports@), r.action) == step_spec(
            old(store)@,
            parse_spec(line@),
            now,
        ),
{
    let cmd = parse(line);
    execute(store, &cmd, now)
}

} // verus!
