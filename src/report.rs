use vstd::prelude::*;

use crate::format::{clock_text, push_clock};

verus! {

/// One message that an operation on the timers hands back to the user.
#[derive(Clone, Debug, PartialEq, Eq)]
pub enum Report {
    /// A timer's state: its name, whether it still runs, and the nanoseconds it has counted.
    Status { name: String, running: bool, elapsed: u64 },
    /// No timer has this name.
    NotFound { name: String },
    /// The timer was stopped before.
    AlreadyStopped { name: String },
    /// A timer of this name exists already.
    AlreadyCreated { name: String },
    /// The command needs at least one name and got none.
    NoNameGiven,
    /// The first word of the line is no command.
    UnknownCommand { word: String },
}

/// What a `Report` says, with names as character sequences.
pub enum ReportView {
    Status { name: Seq<char>, running: bool, elapsed: u64 },
    NotFound { name: Seq<char> },
    AlreadyStopped { name: Seq<char> },
    AlreadyCreated { name: Seq<char> },
    NoNameGiven,
    UnknownCommand { word: Seq<char> },
}

impl View for Report {
    type V = ReportView;

    open spec fn view(&self) -> ReportView {
        match self {
            Report::Status { name, running, elapsed } => ReportView::Status {
                name: name@,
                running: *running,
                elapsed: *elapsed,
            },
            Report::NotFound { name } => ReportView::NotFound { name: name@ },
            Report::AlreadyStopped { name } => ReportView::AlreadyStopped { name: name@ },
            Report::AlreadyCreated { name } => ReportView::AlreadyCreated { name: name@ },
            Report::NoNameGiven => ReportView::NoNameGiven,
            Report::UnknownCommand { word } => ReportView::UnknownCommand { word: word@ },
        }
    }
}

/// The views of a sequence of reports.
pub open spec fn report_views(rs: Seq<Report>) -> Seq<ReportView> {
    rs.map_values(|r: Report| r@)
}

/// The tag in front of a status line.
pub open spec fn status_tag(running: bool) -> Seq<char> {
    if running {
        seq!['(', 'R', 'U', 'N', 'N', 'I', 'N', 'G', ')']
    } else {
        seq!['(', 'S', 'T', 'O', 'P', 'P', 'E', 'D', ')']
    }
}

/// The line printed for a report.
pub open spec fn report_text(r: ReportView) -> Seq<char> {
    match r {
        ReportView::Status { name, running, elapsed } => status_tag(running) + seq![' '] + name
            + seq![':', ' '] + clock_text(elapsed as nat),
        ReportView::NotFound { name } => seq!['T', 'i', 'm', 'e', 'r', ' '] + name + seq![
            ' ',
            'n',
            'o',
            't',
            ' ',
            'f',
            'o',
            'u',
            'n',
            'd',
        ],
        ReportView::AlreadyStopped { name } => name + seq![
            ' ',
            'i',
            's',
            ' ',
            'a',
            'l',
            'r',
            'e',
            'a',
            'd',
            'y',
            ' ',
            's',
            't',
            'o',
            'p',
            'p',
            'e',
            'd',
        ],
        ReportView::AlreadyCreated { name } => seq!['t', 'i', 'm', 'e', 'r', ' '] + name + seq![
            ' ',
            'i',
            's',
            ' ',
            'a',
            'l',
            'r',
            'e',
            'a',
            'd',
            'y',
            ' ',
            'c',
            'r',
            'e',
            'a',
            't',
            'e',
            'd',
        ],
        ReportView::NoNameGiven => seq!['N', 'o', ' ', 'n', 'a', 'm', 'e', ' ', 'g', 'i', 'v', 'e', 'n'],
        ReportView::UnknownCommand { word } => seq![
            'U',
            'n',
            'k',
            'n',
            'o',
            'w',
            'n',
            ' ',
            'c',
            'o',
            'm',
            'm',
            'a',
            'n',
            'd',
            ':',
            ' ',
        ] + word,
    }
}

impl Report {
    /// The line to print for this report.
    pub fn text(&self) -> (r: String)
        ensures
            r@ == report_text(self@),
    {
        let mut out = String::new();
        match self {
            Report::Status { name, running, elapsed } => {
                proof {
                    reveal_strlit("(RUNNING) ");
                    reveal_strlit("(STOPPED) ");
                    reveal_strlit(": ");
                }
                if *running {
                    out.append("(RUNNING) ");
                } else {
                    out.append("(STOPPED) ");
                }
                out.append(name.as_str());
                out.append(": ");
                push_clock(&mut out, *elapsed);
            },
            Report::NotFound { name } => {
                proof {
                    reveal_strlit("Timer ");
                    reveal_strlit(" not found");
                }
                out.append("Timer ");
                out.append(name.as_str());
                out.append(" not found");
            },
            Report::AlreadyStopped { name } => {
                proof {
                    reveal_strlit(" is already stopped");
                }
                out.append(name.as_str());
                out.append(" is already stopped");
            },
            Report::AlreadyCreated { name } => {
                proof {
                    reveal_strlit("timer ");
                    reveal_strlit(" is already created");
                }
                out.append("timer ");
                out.append(name.as_str());
                out.append(" is already created");
            },
            Report::NoNameGiven => {
                proof {
                    reveal_strlit("No name given");
                }
                out.append("No name given");
            },
            Report::UnknownCommand { word } => {
                proof {
                    reveal_strlit("Unknown command: ");
                }
                out.append("Unknown command: ");
                out.append(word.as_str());
            },
        }
        proof {
            assert(out@ =~= report_text(self@));
        }
        out
    }

    /// `Some(running)` for a status line, whose colour tells a running timer from a stopped
    /// one; `None` for any other message.
    pub fn status(&self) -> (r: Option<bool>)
        ensures
            r == (match self@ {
                ReportView::Status { running, .. } => Some(running),
                _ => None,
            }),
    {
        match self {
            Report::Status { running, .. } => Some(*running),
            _ => None,
        }
    }
}

} // verus!
