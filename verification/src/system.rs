//! The operator-facing log.

use crate::sets::texts;
use crate::settings::{debug_of, is_debug};
use config::Config;
use vstd::prelude::*;
use vstd::string::StringExecFns;

verus! {

/// Calls `Local::now` of chrono and formats the time, with the date and to
/// the millisecond, through `DateTime::format`. Nothing is claimed of the
/// text.
#[verifier::external_body]
fn timestamp() -> String {
    chrono::Local::now().format("%Y-%m-%d %H:%M:%S%.3f").to_string()
}

/// The log: its lines, oldest first.
#[derive(Clone, Debug)]
pub struct System {
    log_events: Vec<String>,
}

impl View for System {
    type V = Seq<Seq<char>>;

    closed spec fn view(&self) -> Seq<Seq<char>> {
        texts(self.log_events@)
    }
}

/// A line of the log: a stamp, a colon and a blank, and the event.
pub open spec fn log_line(stamp: Seq<char>, event: Seq<char>) -> Seq<char> {
    stamp + ": "@ + event
}

impl System {
    /// A log without lines.
    pub fn new() -> (system: Self)
        ensures
            system@.len() == 0,
    {
        System { log_events: Vec::new() }
    }

    /// Logs `event` if the settings turn debugging on, and does nothing
    /// otherwise.
    pub fn debug_log(&mut self, settings: &Config, event: String)
        ensures
            !debug_of(*settings) ==> final(self)@ == old(self)@,
            debug_of(*settings) ==> exists|stamp: Seq<char>|
                final(self)@ == old(self)@.push(#[trigger] log_line(stamp, event@)),
    {
        if is_debug(settings) {
            self.log(event);
        }
    }

    /// Adds a line for `event`, stamped with the time of the call.
    pub fn log(&mut self, event: String)
        ensures
            exists|stamp: Seq<char>|
                final(self)@ == old(self)@.push(#[trigger] log_line(stamp, event@)),
    {
        let stamp = timestamp();
        self.log_at(stamp.as_str(), event);
        proof {
            assert(self@ == old(self)@.push(log_line(stamp@, event@)));
        }
    }

    /// Adds a line for `event` under the stamp `stamp`.
    pub fn log_at(&mut self, stamp: &str, event: String)
        ensures
            final(self)@ == old(self)@.push(log_line(stamp@, event@)),
    {
        let mut line = stamp.to_string();
        line.append(": ");
        line.append(event.as_str());
        let ghost before = self.log_events@;
        self.log_events.push(line);
        proof {
            assert(texts(self.log_events@) =~= texts(before).push(line@));
        }
    }

    /// The lines of the log, oldest first.
    pub fn _get_logs(&self) -> (lines: &Vec<String>)
        ensures
            texts(lines@) == self@,
    {
        &self.log_events
    }

    /// The last `x` lines of the log, oldest first; all lines where there
    /// are no more than `x`.
    pub fn get_last_x_logs(&self, x: usize) -> (lines: Vec<String>)
        ensures
            x >= self@.len() ==> texts(lines@) == self@,
            x < self@.len() ==> texts(lines@) == self@.subrange(self@.len() - x, self@.len() as int),
    {
        let len: usize = self.log_events.len();
        let start: usize = if x >= len {
            0
        } else {
            len - x
        };
        let mut lines: Vec<String> = Vec::new();
        let mut i: usize = start;
        while i < len
            invariant
                start <= i <= len,
                len == self.log_events.len(),
                texts(lines@) == self@.subrange(start as int, i as int),
            decreases len - i,
        {
            let ghost before = lines@;
            lines.push(self.log_events[i].clone());
            proof {
                assert(texts(lines@) =~= texts(before).push(self.log_events[i as int]@));
                assert(self@.subrange(start as int, i + 1) =~= self@.subrange(
                    start as int,
                    i as int,
                ).push(self@[i as int]));
            }
            i = i + 1;
        }
        proof {
            if x >= len {
                assert(self@.subrange(0, len as int) =~= self@);
            }
        }
        lines
    }
}

} // verus!
