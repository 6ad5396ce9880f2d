use vstd::prelude::*;
use crate::text::dec;

verus! {

/// The three views of the dashboard.
#[derive(Clone, Copy, PartialEq, Eq, Structural, Debug)]
pub enum Tab {
    Processes,
    Gpu,
    Npu,
}

/// The columns the process table can be sorted by.
#[derive(Clone, Copy, PartialEq, Eq, Structural, Debug)]
pub enum SortColumn {
    Pid,
    User,
    Name,
    Cpu,
    Mem,
    Rss,
    State,
    Runtime,
}

/// Ascending or descending order.
#[derive(Clone, Copy, PartialEq, Eq, Structural, Debug)]
pub enum SortDir {
    Asc,
    Desc,
}

/// What the keyboard currently drives: the tables, or one of the prompts.
#[derive(Clone, Copy, PartialEq, Eq, Structural, Debug)]
pub enum InputMode {
    Normal,
    Filter,
    KillConfirm,
    SignalMenu,
    ReniceInput,
}

/// The signals the dashboard can send.
#[derive(Clone, Copy, PartialEq, Eq, Structural, Debug)]
pub enum Signal {
    Term,
    Kill,
    Stop,
    Cont,
    Hup,
}

/// The signals in the order the signal menu lists them.
pub open spec fn all_signals() -> Seq<Signal> {
    seq![Signal::Term, Signal::Kill, Signal::Stop, Signal::Cont, Signal::Hup]
}

/// The signal's name.
pub open spec fn signal_name(s: Signal) -> Seq<char> {
    match s {
        Signal::Term => "SIGTERM"@,
        Signal::Kill => "SIGKILL"@,
        Signal::Stop => "SIGSTOP"@,
        Signal::Cont => "SIGCONT"@,
        Signal::Hup => "SIGHUP"@,
    }
}

/// The signal's number on Linux (x86 and ARM).
pub open spec fn signal_number(s: Signal) -> i32 {
    match s {
        Signal::Term => 15,
        Signal::Kill => 9,
        Signal::Stop => 19,
        Signal::Cont => 18,
        Signal::Hup => 1,
    }
}

/// How a signal is shown: its name and, in brackets, the number that is
/// sent for it.
pub open spec fn signal_label(s: Signal) -> Seq<char> {
    signal_name(s) + " ("@ + dec(signal_number(s) as nat) + ")"@
}

/// The menu and the status line name each signal with the number that is
/// sent for it.
pub proof fn law_label_names_sent_number(s: Signal)
    ensures
        signal_label(s) == signal_name(s) + " ("@ + dec(signal_number(s) as nat) + ")"@,
        all_signals().contains(s),
{
    let i: int = match s {
        Signal::Term => 0,
        Signal::Kill => 1,
        Signal::Stop => 2,
        Signal::Cont => 3,
        Signal::Hup => 4,
    };
    assert(all_signals()[i] == s);
}

impl Signal {
    /// Every signal the menu offers, in menu order.
    pub fn all() -> (res: &'static [Signal])
        ensures
            res@ == all_signals(),
    {
        let res: &'static [Signal] = &[Signal::Term, Signal::Kill, Signal::Stop, Signal::Cont, Signal::Hup];
        assert(res@ =~= all_signals());
        res
    }

    /// The number that is sent for the signal (see `signal_number`).
    pub fn number(self) -> (res: i32)
        ensures
            res == signal_number(self),
    {
        match self {
            Signal::Term => 15,
            Signal::Kill => 9,
            Signal::Stop => 19,
            Signal::Cont => 18,
            Signal::Hup => 1,
        }
    }

    /// The signal's name and number, as the menu and the status line show it
    /// (see `signal_label`).
    pub fn label(self) -> (res: &'static str)
        ensures
            res@ == signal_label(self),
    {
        proof {
            reveal_strlit(" (");
            reveal_strlit(")");
            reveal_with_fuel(dec, 2);
        }
        match self {
            Signal::Term => {
                proof {
                    reveal_strlit("SIGTERM (15)");
                    reveal_strlit("SIGTERM");
                    assert("SIGTERM (15)"@ =~= signal_label(self));
                }
                "SIGTERM (15)"
            },
            Signal::Kill => {
                proof {
                    reveal_strlit("SIGKILL (9)");
                    reveal_strlit("SIGKILL");
                    assert("SIGKILL (9)"@ =~= signal_label(self));
                }
                "SIGKILL (9)"
            },
            Signal::Stop => {
                proof {
                    reveal_strlit("SIGSTOP (19)");
                    reveal_strlit("SIGSTOP");
                    assert("SIGSTOP (19)"@ =~= signal_label(self));
                }
                "SIGSTOP (19)"
            },
            Signal::Cont => {
                proof {
                    reveal_strlit("SIGCONT (18)");
                    reveal_strlit("SIGCONT");
                    assert("SIGCONT (18)"@ =~= signal_label(self));
                }
                "SIGCONT (18)"
            },
            Signal::Hup => {
                proof {
                    reveal_strlit("SIGHUP (1)");
                    reveal_strlit("SIGHUP");
                    assert("SIGHUP (1)"@ =~= signal_label(self));
                }
                "SIGHUP (1)"
            },
        }
    }
}

} // verus!
