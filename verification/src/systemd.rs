//! Sockets that are passed in the style of systemd.

use crate::number::{i32_error, parse_i32, parse_u32, signed_read, u32_error, unsigned_read};
use std::num::ParseIntError;
use std::ops::Range;
use vstd::prelude::*;

verus! {

/// The file descriptor number of the first socket passed in systemd socket-passing style.
pub const SD_LISTEN_FDS_START: i32 = 3;

/// What is known of an environment variable.
#[derive(Debug, Eq, Hash, PartialEq)]
pub enum Variable {
    /// The variable is set to this text.
    Text(String),
    /// The variable is not set.
    Unset,
    /// The variable is set to something that is not text.
    NotText,
}

/// Why the passed sockets cannot be told.
#[derive(Debug, Eq, PartialEq)]
pub enum SystemdError {
    /// The process number is not text.
    PidNotText,
    /// The process number is not a number.
    PidNotANumber(ParseIntError),
    /// The number of sockets is not text.
    CountNotText,
    /// The number of sockets is not a number.
    CountNotANumber(ParseIntError),
    /// The number of sockets is negative.
    CountNegative,
    /// The number of sockets is too large.
    CountTooLarge,
}

/// Which sockets are passed to the process `own_pid` by the two variables: none unless they are meant
/// for this process and their number is given, and else the given number, from
/// [`SD_LISTEN_FDS_START`] on.
pub open spec fn sockets_passed(
    listen_pid: Variable,
    own_pid: u32,
    listen_fds: Variable,
) -> Result<Range<i32>, SystemdError> {
    let none = Range { start: 0, end: 0 };
    match listen_pid {
        Variable::Unset => Ok(none),
        Variable::NotText => Err(SystemdError::PidNotText),
        Variable::Text(text) => match unsigned_read(text@, 10) {
            Some(pid) => if pid > u32::MAX {
                Err(SystemdError::PidNotANumber(u32_error(text@)))
            } else if pid != own_pid {
                Ok(none)
            } else {
                match listen_fds {
                    Variable::Unset => Ok(none),
                    Variable::NotText => Err(SystemdError::CountNotText),
                    Variable::Text(text) => match signed_read(text@, 10) {
                        Some(count) => if count < i32::MIN || count > i32::MAX {
                            Err(SystemdError::CountNotANumber(i32_error(text@)))
                        } else if count < 0 {
                            Err(SystemdError::CountNegative)
                        } else if count + SD_LISTEN_FDS_START > i32::MAX {
                            Err(SystemdError::CountTooLarge)
                        } else {
                            Ok(
                                Range {
                                    start: SD_LISTEN_FDS_START,
                                    end: (count + SD_LISTEN_FDS_START) as i32,
                                },
                            )
                        },
                        None => Err(SystemdError::CountNotANumber(i32_error(text@))),
                    },
                }
            },
            None => Err(SystemdError::PidNotANumber(u32_error(text@))),
        },
    }
}

/// Obtains the range of passed sockets, given the variables `LISTEN_PID` and `LISTEN_FDS` and our own
/// process ID.
pub fn passed_sockets(listen_pid: &Variable, own_pid: u32, listen_fds: &Variable) -> (result:
    Result<Range<i32>, SystemdError>)
    ensures
        result == sockets_passed(*listen_pid, own_pid, *listen_fds),
{
    // LISTEN_PID must exist and be equal to our own process ID.
    match listen_pid {
        Variable::Text(s) => {
            let pid: u32 = match parse_u32(s.as_str()) {
                Ok(pid) => pid,
                Err(e) => {
                    return Err(SystemdError::PidNotANumber(e));
                },
            };
            if pid != own_pid {
                return Ok(Range { start: 0, end: 0 });
            }
        },
        Variable::Unset => {
            return Ok(Range { start: 0, end: 0 });
        },
        Variable::NotText => {
            return Err(SystemdError::PidNotText);
        },
    }

    // LISTEN_FDS indicates how many sockets there are.
    let count: i32 = match listen_fds {
        Variable::Text(s) => match parse_i32(s.as_str()) {
            Ok(count) => count,
            Err(e) => {
                return Err(SystemdError::CountNotANumber(e));
            },
        },
        Variable::Unset => {
            return Ok(Range { start: 0, end: 0 });
        },
        Variable::NotText => {
            return Err(SystemdError::CountNotText);
        },
    };
    if count < 0 {
        return Err(SystemdError::CountNegative);
    }
    match count.checked_add(SD_LISTEN_FDS_START) {
        None => Err(SystemdError::CountTooLarge),
        Some(end) => Ok(Range { start: SD_LISTEN_FDS_START, end }),
    }
}

/// Whether a listen address has to be given because no sockets are passed.
pub fn listen_address_required(passed: &Range<i32>) -> (required: bool)
    ensures
        required == !(passed.start < passed.end),
{
    !(passed.start < passed.end)
}

impl SystemdError {
    /// The text that describes the error.
    pub fn message(&self) -> (text: String)
        ensures
            text@ == match self {
                SystemdError::PidNotText | SystemdError::PidNotANumber(_) => "Invalid $LISTEN_PID"@,
                SystemdError::CountNotText | SystemdError::CountNotANumber(_) =>
                    "Invalid $LISTEN_FDS"@,
                SystemdError::CountNegative => "Invalid $LISTEN_FDS: cannot be negative"@,
                SystemdError::CountTooLarge => "Invalid $LISTEN_FDS: too large"@,
            },
    {
        match self {
            SystemdError::PidNotText | SystemdError::PidNotANumber(_) =>
                "Invalid $LISTEN_PID".to_owned(),
            SystemdError::CountNotText | SystemdError::CountNotANumber(_) =>
                "Invalid $LISTEN_FDS".to_owned(),
            SystemdError::CountNegative => "Invalid $LISTEN_FDS: cannot be negative".to_owned(),
            SystemdError::CountTooLarge => "Invalid $LISTEN_FDS: too large".to_owned(),
        }
    }
}

/// The standard input, output and error streams are never taken for passed sockets.
pub proof fn law_standard_streams_are_spared(
    listen_pid: Variable,
    own_pid: u32,
    listen_fds: Variable,
    descriptor: int,
)
    requires
        sockets_passed(listen_pid, own_pid, listen_fds) matches Ok(sockets) && sockets.start
            <= descriptor < sockets.end,
    ensures
        descriptor >= SD_LISTEN_FDS_START,
{
}

/// Sockets that are meant for another process are never taken.
pub proof fn law_foreign_sockets_are_left_alone(
    listen_pid: Variable,
    own_pid: u32,
    listen_fds: Variable,
)
    requires
        sockets_passed(listen_pid, own_pid, listen_fds) matches Ok(sockets) && sockets.start
            < sockets.end,
    ensures
        listen_pid matches Variable::Text(pid) && unsigned_read(pid@, 10) == Some(own_pid as nat),
{
}

/// As many sockets are taken as are passed: if the variables are meant for this process, each
/// descriptor from three on is taken, up to the given number of them.
pub proof fn law_all_passed_sockets_are_taken(
    pid: String,
    own_pid: u32,
    fds: String,
    count: int,
)
    requires
        unsigned_read(pid@, 10) == Some(own_pid as nat),
        signed_read(fds@, 10) == Some(count),
        0 <= count <= 2147483647 - 3,
    ensures
        ({
            let result = sockets_passed(Variable::Text(pid), own_pid, Variable::Text(fds));
            &&& result is Ok
            &&& result->Ok_0.start == 3
            &&& result->Ok_0.end - result->Ok_0.start == count
        }),
{
}

/// Without both variables, or if they are meant for another process, no sockets are taken, and that is
/// no error, whatever the number of sockets is.
pub proof fn law_no_sockets_without_need(
    listen_pid: Variable,
    own_pid: u32,
    listen_fds: Variable,
)
    requires
        listen_pid is Unset || (listen_pid matches Variable::Text(pid) && unsigned_read(
            pid@,
            10,
        ) is Some && unsigned_read(pid@, 10)->Some_0 <= 4294967295 && (unsigned_read(
            pid@,
            10,
        )->Some_0 != own_pid || listen_fds is Unset)),
    ensures
        ({
            let result = sockets_passed(listen_pid, own_pid, listen_fds);
            result is Ok && result->Ok_0.start == 0 && result->Ok_0.end == 0
        }),
{
}

/// A process number that cannot be read is an error, whatever the number of sockets is.
pub proof fn law_process_number_must_be_read(
    listen_pid: Variable,
    own_pid: u32,
    listen_fds: Variable,
)
    ensures
        listen_pid is NotText <==> sockets_passed(listen_pid, own_pid, listen_fds) == Err::<
            Range<i32>,
            SystemdError,
        >(SystemdError::PidNotText),
        listen_pid matches Variable::Text(pid) ==> (unsigned_read(pid@, 10) is None
            || unsigned_read(pid@, 10)->Some_0 > 4294967295 <==> sockets_passed(
            listen_pid,
            own_pid,
            listen_fds,
        ) == Err::<Range<i32>, SystemdError>(SystemdError::PidNotANumber(u32_error(pid@)))),
{
}

/// For a process that is meant, a number of sockets that cannot be read, is negative or leaves no room
/// for the descriptors is an error of its own.
pub proof fn law_socket_count_must_be_usable(pid: String, own_pid: u32, listen_fds: Variable)
    requires
        unsigned_read(pid@, 10) == Some(own_pid as nat),
    ensures
        ({
            let result = sockets_passed(Variable::Text(pid), own_pid, listen_fds);
            &&& listen_fds is NotText ==> result == Err::<Range<i32>, SystemdError>(
                SystemdError::CountNotText,
            )
            &&& listen_fds matches Variable::Text(fds) ==> {
                let count = signed_read(fds@, 10);
                &&& count is None || count->Some_0 < -2147483648 || count->Some_0 > 2147483647
                    ==> result == Err::<Range<i32>, SystemdError>(
                    SystemdError::CountNotANumber(i32_error(fds@)),
                )
                &&& count is Some && -2147483648 <= count->Some_0 < 0 ==> result == Err::<
                    Range<i32>,
                    SystemdError,
                >(SystemdError::CountNegative)
                &&& count is Some && 2147483644 < count->Some_0 <= 2147483647 ==> result == Err::<
                    Range<i32>,
                    SystemdError,
                >(SystemdError::CountTooLarge)
            }
        }),
{
}

} // verus!
