//! Log levels, the level filter and the text of a log line.
use vstd::prelude::*;
use vstd::string::*;

verus! {

broadcast use vstd::string::group_string_axioms;

/// How serious a log message is, from least to most.
#[derive(Clone, Copy, PartialEq, Eq, Debug, Hash, Structural)]
pub enum Level {
    Debug,
    Info,
    Warn,
    Error,
}

/// The position of a level in the order `Debug < Info < Warn < Error`.
pub open spec fn rank(l: Level) -> nat {
    match l {
        Level::Debug => 0,
        Level::Info => 1,
        Level::Warn => 2,
        Level::Error => 3,
    }
}

/// The width the owner column is padded to.
pub const OWNER_WIDTH: usize = 20;

/// `n` spaces.
pub open spec fn spaces(n: nat) -> Seq<char>
    decreases n,
{
    if n == 0 {
        Seq::empty()
    } else {
        spaces((n - 1) as nat).push(' ')
    }
}

/// `s` right-aligned in a column of `OWNER_WIDTH` characters; longer text is kept whole.
pub open spec fn pad_left(s: Seq<char>) -> Seq<char> {
    if s.len() < OWNER_WIDTH {
        spaces((OWNER_WIDTH - s.len()) as nat) + s
    } else {
        s
    }
}

/// The level's tag, padded to seven characters.
pub open spec fn tag(l: Level) -> Seq<char> {
    match l {
        Level::Debug => "[DEBUG]"@,
        Level::Info => "[INFO] "@,
        Level::Warn => "[WARN] "@,
        Level::Error => "[ERROR]"@,
    }
}

/// A log line: time stamp, level tag, owner right-aligned, message.
pub open spec fn line_spec(stamp: Seq<char>, level: Level, owner: Seq<char>, message: Seq<char>) -> Seq<char> {
    stamp + " "@ + tag(level) + " "@ + pad_left(owner) + " |: "@ + message + "\n"@
}

impl Level {
    /// Whether a message of this level passes the threshold `min`.
    pub fn enabled(self, min: Level) -> (r: bool)
        ensures
            r == (rank(self) >= rank(min)),
    {
        let a: u8 = match self {
            Level::Debug => 0,
            Level::Info => 1,
            Level::Warn => 2,
            Level::Error => 3,
        };
        let b: u8 = match min {
            Level::Debug => 0,
            Level::Info => 1,
            Level::Warn => 2,
            Level::Error => 3,
        };
        a >= b
    }
}

/// Where and from which level messages are written.
pub struct Logger {
    pub level: Level,
    pub file: Option<String>,
}

impl Logger {
    /// A logger writing messages from `Info` up to the console.
    pub fn new() -> (r: Self)
        ensures
            r.level == Level::Info,
            r.file is None,
    {
        Logger { level: Level::Info, file: None }
    }

    pub fn set_level(&mut self, level: Level)
        ensures
            final(self).level == level,
            final(self).file == old(self).file,
    {
        self.level = level;
    }

    pub fn set_file(&mut self, file: Option<String>)
        ensures
            final(self).file == file,
            final(self).level == old(self).level,
    {
        self.file = file;
    }

    /// Whether a message of `level` is written.
    pub fn accepts(&self, level: Level) -> (r: bool)
        ensures
            r == (rank(level) >= rank(self.level)),
    {
        level.enabled(self.level)
    }
}

/// The text of one log line.
pub fn format_line(stamp: &str, level: Level, owner: &str, message: &str) -> (r: String)
    ensures
        r@ == line_spec(stamp@, level, owner@, message@),
{
    let mut out = String::from_str(stamp);
    out.append(" ");
    match level {
        Level::Debug => out.append("[DEBUG]"),
        Level::Info => out.append("[INFO] "),
        Level::Warn => out.append("[WARN] "),
        Level::Error => out.append("[ERROR]"),
    }
    out.append(" ");
    let n = owner.unicode_len();
    if n < OWNER_WIDTH {
        let mut k: usize = 0;
        while k < OWNER_WIDTH - n
            invariant
                k <= OWNER_WIDTH - n,
                out@ == stamp@ + " "@ + tag(level) + " "@ + spaces(k as nat),
            decreases OWNER_WIDTH - n - k,
        {
            out.append(" ");
            proof {
                reveal_strlit(" ");
                assert(out@ =~= stamp@ + " "@ + tag(level) + " "@ + spaces((k + 1) as nat));
            }
            k += 1;
        }
    }
    out.append(owner);
    out.append(" |: ");
    out.append(message);
    out.append("\n");
    proof {
        if n < OWNER_WIDTH {
            assert(out@ =~= line_spec(stamp@, level, owner@, message@));
        } else {
            assert(out@ =~= line_spec(stamp@, level, owner@, message@));
        }
    }
    out
}

} // verus!
