//! The log file and the shape of its lines.
use vstd::prelude::*;
use vstd::string::*;

verus! {

/// A log file that lines are appended to.
pub struct Logger {
    log_file: String,
}

/// `s` padded with spaces on the right to at least `width` characters.
pub open spec fn padded(s: Seq<char>, width: nat) -> Seq<char> {
    if s.len() >= width {
        s
    } else {
        s + Seq::new((width - s.len()) as nat, |i: int| ' ')
    }
}

/// A log line: the time in brackets, the level padded to five characters,
/// and the message.
pub open spec fn log_line_of(timestamp: Seq<char>, level: Seq<char>, message: Seq<char>) -> Seq<
    char,
> {
    seq!['['] + timestamp + seq![']', ' '] + padded(level, 5) + seq![' '] + message
}

impl Logger {
    pub closed spec fn path(&self) -> Seq<char> {
        self.log_file@
    }

    /// A logger writing to `log_file`.
    pub fn with_path(log_file: String) -> (r: Logger)
        ensures
            r.path() == log_file@,
    {
        Logger { log_file }
    }

    pub fn get_log_path(&self) -> (r: &String)
        ensures
            r@ == self.path(),
    {
        &self.log_file
    }

    /// The text of one log line.
    pub fn log_line(timestamp: &str, level: &str, message: &str) -> (r: String)
        ensures
            r@ == log_line_of(timestamp@, level@, message@),
    {
        proof {
            reveal_strlit("[");
            reveal_strlit("] ");
            reveal_strlit(" ");
        }
        let mut s = String::from_str("[");
        s.append(timestamp);
        s.append("] ");
        s.append(level);
        let n = level.unicode_len();
        let mut k: usize = n;
        let ghost base = s@;
        while k < 5
            invariant
                n <= k <= 5 || (n > 5 && k == n),
                n == level@.len(),
                s@ == base + Seq::new((k - n) as nat, |i: int| ' '),
            decreases 5 - k,
        {
            proof {
                reveal_strlit(" ");
            }
            s.append(" ");
            assert(s@ =~= base + Seq::new((k + 1 - n) as nat, |i: int| ' '));
            k = k + 1;
        }
        s.append(" ");
        s.append(message);
        proof {
            if n >= 5 {
                assert(Seq::new((k - n) as nat, |i: int| ' ') =~= Seq::<char>::empty());
            }
            assert(s@ =~= log_line_of(timestamp@, level@, message@));
        }
        s
    }
}

} // verus!
