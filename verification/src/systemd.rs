//! The service manager's side of the daemon, as plain data: the unit files
//! to install, and the sockets handed over at start.

use crate::text::{decimal, decimal_text};
use vstd::prelude::*;
use vstd::string::{StrSliceExecFns, StringExecFns};

verus! {

/// The first file descriptor that the service manager hands over.
pub const LISTEN_FDS_START: i32 = 3;

/// Why no sockets could be taken over from the service manager.
#[derive(Debug, Clone, Copy, PartialEq, Eq, Structural)]
pub enum ListenError {
    /// `LISTEN_PID` is not set.
    NotActivated,
    /// `LISTEN_PID` is no process id.
    InvalidPid,
    /// `LISTEN_PID` names another process.
    PidMismatch,
    /// `LISTEN_FDS` is not set.
    FdsNotSet,
    /// `LISTEN_FDS` is no number of file descriptors.
    InvalidFds,
    /// `LISTEN_FDS` is less than one.
    NoSockets,
}

/// The text of the service unit before the path of the binary.
pub open spec fn service_unit_head() -> Seq<char> {
    "[Unit]\nDescription=Shortcut Catapult URL redirection service\nRequires=shortcut-catapult.socket\n\n[Service]\nType=notify\nExecStart="@
}

/// The text of the service unit after the path of the binary.
pub open spec fn service_unit_tail() -> Seq<char> {
    " daemon --systemd\nStandardOutput=journal\nStandardError=journal\nRestart=on-failure\n\n[Install]\nWantedBy=default.target\n"@
}

/// The text of the socket unit before the port.
pub open spec fn socket_unit_head() -> Seq<char> {
    "[Unit]\nDescription=Shortcut Catapult Socket\nPartOf=shortcut-catapult.service\n\n[Socket]\nListenStream=127.0.0.1:"@
}

/// The text of the socket unit after the port.
pub open spec fn socket_unit_tail() -> Seq<char> {
    "\nAccept=false\n\n[Install]\nWantedBy=sockets.target\n"@
}

/// The value of the decimal digit `c`.
pub open spec fn digit_value(c: char) -> Option<nat> {
    if '0' <= c <= '9' {
        Some((c as nat - '0' as nat) as nat)
    } else {
        None
    }
}

/// The number that `s` is in decimal digits; none where `s` is empty or
/// holds anything but digits.
pub open spec fn digits_value(s: Seq<char>) -> Option<nat>
    decreases s.len(),
{
    if s.len() == 0 {
        None
    } else if s.len() == 1 {
        digit_value(s[0])
    } else {
        match (digits_value(s.drop_last()), digit_value(s.last())) {
            (Some(high), Some(low)) => Some(high * 10 + low),
            _ => None,
        }
    }
}

/// The integer that `s` is: decimal digits after an optional sign, `+` or,
/// where `signed`, `-`.
pub open spec fn integer_value(s: Seq<char>, signed: bool) -> Option<int> {
    if s.len() > 0 && s[0] == '+' {
        match digits_value(s.drop_first()) {
            Some(v) => Some(v as int),
            None => None,
        }
    } else if signed && s.len() > 0 && s[0] == '-' {
        match digits_value(s.drop_first()) {
            Some(v) => Some(-(v as int)),
            None => None,
        }
    } else {
        match digits_value(s) {
            Some(v) => Some(v as int),
            None => None,
        }
    }
}

/// The process id that `s` is: an unsigned integer of 32 bits.
pub open spec fn process_id_value(s: Seq<char>) -> Option<u32> {
    match integer_value(s, false) {
        Some(v) => if v <= u32::MAX {
            Some(v as u32)
        } else {
            None
        },
        None => None,
    }
}

/// The count that `s` is: a signed integer of 32 bits.
pub open spec fn count_value(s: Seq<char>) -> Option<i32> {
    match integer_value(s, true) {
        Some(v) => if i32::MIN <= v <= i32::MAX {
            Some(v as i32)
        } else {
            None
        },
        None => None,
    }
}

/// How many sockets the service manager hands over to the process
/// `process_id`, given what `LISTEN_PID` and `LISTEN_FDS` hold, or why none.
/// A count whose last file descriptor would pass the largest one is no
/// count.
pub open spec fn activation(
    listen_pid: Option<Seq<char>>,
    listen_fds: Option<Seq<char>>,
    process_id: u32,
) -> Result<nat, ListenError> {
    match listen_pid {
        None => Err(ListenError::NotActivated),
        Some(pid_text) => match process_id_value(pid_text) {
            None => Err(ListenError::InvalidPid),
            Some(pid) => if pid != process_id {
                Err(ListenError::PidMismatch)
            } else {
                match listen_fds {
                    None => Err(ListenError::FdsNotSet),
                    Some(fds_text) => match count_value(fds_text) {
                        None => Err(ListenError::InvalidFds),
                        Some(count) => if count < 1 {
                            Err(ListenError::NoSockets)
                        } else if LISTEN_FDS_START + count > i32::MAX {
                            Err(ListenError::InvalidFds)
                        } else {
                            Ok(count as nat)
                        },
                    },
                }
            },
        },
    }
}

/// The digits of a number in decimal are a number in decimal, and every
/// proper start of them is a smaller or equal one.
proof fn lemma_digits_prefix(s: Seq<char>, k: int)
    requires
        0 < k <= s.len(),
    ensures
        digits_value(s) matches Some(v) ==> (digits_value(s.subrange(0, k)) matches Some(p) && p
            <= v),
    decreases s.len(),
{
    if k == s.len() {
        assert(s.subrange(0, k) =~= s);
    } else {
        assert(s.drop_last().subrange(0, k) =~= s.subrange(0, k));
        lemma_digits_prefix(s.drop_last(), k);
    }
}

/// The number that the characters of `text` from `from` on are in decimal
/// digits, where it is at most `limit`.
fn parse_digits(text: &str, from: usize, limit: u64) -> (value: Option<u64>)
    requires
        from <= text@.len(),
        limit <= 0x1_0000_0000,
    ensures
        value == match digits_value(text@.subrange(from as int, text@.len() as int)) {
            Some(v) => if v <= limit {
                Some(v as u64)
            } else {
                None
            },
            None => None,
        },
{
    let n = text.unicode_len();
    let ghost digits = text@.subrange(from as int, n as int);
    if from == n {
        return None;
    }
    let mut acc: u64 = 0;
    let mut i: usize = from;
    while i < n
        invariant
            from <= i <= n,
            from < n,
            n == text@.len(),
            digits == text@.subrange(from as int, n as int),
            limit <= 0x1_0000_0000,
            acc <= limit,
            i == from ==> acc == 0,
            i > from ==> digits_value(digits.subrange(0, i - from)) == Some(acc as nat),
        decreases n - i,
    {
        let c = text.get_char(i);
        proof {
            lemma_digits_prefix(digits, i - from + 1);
            let upto = digits.subrange(0, i - from + 1);
            assert(upto.last() == c);
            assert(upto.drop_last() =~= digits.subrange(0, i - from));
        }
        if !('0' <= c && c <= '9') {
            return None;
        }
        let low = (c as u32 - '0' as u32) as u64;
        acc = acc * 10 + low;
        if acc > limit {
            return None;
        }
        i = i + 1;
    }
    assert(digits.subrange(0, n - from) =~= digits);
    Some(acc)
}

/// The process id that `text` is.
pub fn parse_process_id(text: &str) -> (id: Option<u32>)
    ensures
        id == process_id_value(text@),
{
    let n = text.unicode_len();
    let from: usize = if n > 0 && text.get_char(0) == '+' {
        1
    } else {
        0
    };
    assert(text@.subrange(1, n as int) =~= text@.drop_first());
    assert(text@.subrange(0, n as int) =~= text@);
    match parse_digits(text, from, 0xffff_ffff) {
        Some(v) => Some(v as u32),
        None => None,
    }
}

/// The count that `text` is.
pub fn parse_count(text: &str) -> (count: Option<i32>)
    ensures
        count == count_value(text@),
{
    let n = text.unicode_len();
    assert(text@.subrange(1, n as int) =~= text@.drop_first());
    assert(text@.subrange(0, n as int) =~= text@);
    if n > 0 && text.get_char(0) == '-' {
        match parse_digits(text, 1, 0x8000_0000) {
            Some(v) => Some((0 - v as i64) as i32),
            None => None,
        }
    } else {
        let from: usize = if n > 0 && text.get_char(0) == '+' {
            1
        } else {
            0
        };
        match parse_digits(text, from, 0x7fff_ffff) {
            Some(v) => Some(v as i32),
            None => None,
        }
    }
}

impl ListenError {
    /// The error in words.
    pub open spec fn text(self) -> Seq<char> {
        match self {
            ListenError::NotActivated => "Not running under systemd socket activation"@,
            ListenError::InvalidPid => "Invalid LISTEN_PID"@,
            ListenError::PidMismatch => "LISTEN_PID does not match current process"@,
            ListenError::FdsNotSet => "LISTEN_FDS not set"@,
            ListenError::InvalidFds => "Invalid LISTEN_FDS"@,
            ListenError::NoSockets => "No listening sockets provided by systemd"@,
        }
    }

    /// The error in words.
    pub fn message(&self) -> (message: &'static str)
        ensures
            message@ == self.text(),
    {
        match self {
            ListenError::NotActivated => "Not running under systemd socket activation",
            ListenError::InvalidPid => "Invalid LISTEN_PID",
            ListenError::PidMismatch => "LISTEN_PID does not match current process",
            ListenError::FdsNotSet => "LISTEN_FDS not set",
            ListenError::InvalidFds => "Invalid LISTEN_FDS",
            ListenError::NoSockets => "No listening sockets provided by systemd",
        }
    }
}

/// The service unit for the daemon at `binary_path`.
pub fn service_unit(binary_path: &str) -> (unit: String)
    ensures
        unit@ == service_unit_head() + binary_path@ + service_unit_tail(),
{
    let mut unit =
        "[Unit]\nDescription=Shortcut Catapult URL redirection service\nRequires=shortcut-catapult.socket\n\n[Service]\nType=notify\nExecStart=".to_owned();
    unit.append(binary_path);
    unit.append(
        " daemon --systemd\nStandardOutput=journal\nStandardError=journal\nRestart=on-failure\n\n[Install]\nWantedBy=default.target\n",
    );
    unit
}

/// The socket unit for the daemon on `port`.
pub fn socket_unit(port: u16) -> (unit: String)
    ensures
        unit@ == socket_unit_head() + decimal(port as nat) + socket_unit_tail(),
{
    let mut unit =
        "[Unit]\nDescription=Shortcut Catapult Socket\nPartOf=shortcut-catapult.service\n\n[Socket]\nListenStream=127.0.0.1:".to_owned();
    unit.append(decimal_text(port as usize).as_str());
    unit.append("\nAccept=false\n\n[Install]\nWantedBy=sockets.target\n");
    unit
}

/// The file descriptors that the service manager hands over to the process
/// `process_id`, given what `LISTEN_PID` and `LISTEN_FDS` hold: as many as
/// `LISTEN_FDS` says, from `LISTEN_FDS_START` on.
pub fn listeners(listen_pid: Option<&str>, listen_fds: Option<&str>, process_id: u32) -> (fds:
    Result<Vec<i32>, ListenError>)
    ensures
        match activation(
            match listen_pid {
                Some(text) => Some(text@),
                None => None,
            },
            match listen_fds {
                Some(text) => Some(text@),
                None => None,
            },
            process_id,
        ) {
            Ok(count) => fds matches Ok(list) && list@ == Seq::new(
                count,
                |i: int| (LISTEN_FDS_START + i) as i32,
            ),
            Err(why) => fds == Err::<Vec<i32>, ListenError>(why),
        },
{
    let pid_text = match listen_pid {
        Some(text) => text,
        None => return Err(ListenError::NotActivated),
    };
    let pid = match parse_process_id(pid_text) {
        Some(pid) => pid,
        None => return Err(ListenError::InvalidPid),
    };
    if pid != process_id {
        return Err(ListenError::PidMismatch);
    }
    let fds_text = match listen_fds {
        Some(text) => text,
        None => return Err(ListenError::FdsNotSet),
    };
    let count = match parse_count(fds_text) {
        Some(count) => count,
        None => return Err(ListenError::InvalidFds),
    };
    if count < 1 {
        return Err(ListenError::NoSockets);
    }
    if count > i32::MAX - LISTEN_FDS_START {
        return Err(ListenError::InvalidFds);
    }
    let mut list: Vec<i32> = Vec::new();
    let mut i: i32 = 0;
    while i < count
        invariant
            0 <= i <= count,
            count <= i32::MAX - LISTEN_FDS_START,
            list@ == Seq::new(i as nat, |k: int| (LISTEN_FDS_START + k) as i32),
        decreases count - i,
    {
        list.push(LISTEN_FDS_START + i);
        i = i + 1;
        assert(list@ =~= Seq::new(i as nat, |k: int| (LISTEN_FDS_START + k) as i32));
    }
    Ok(list)
}

} // verus!
