//! What the host makes of the device's answers: the status that every
//! response carries, and, command by command, the payload it expects.
//!
//! A path that does not exist is answered with an empty payload, not with a
//! status; that answer is an error here and never a file of no bytes.

use crate::message::{
    blank_datetime, files_view, Content, ContentView, File, FileView, Main, MainView, RtcDateTime,
};
use vstd::prelude::*;

verus! {

/// The status of a command that succeeded.
pub const STATUS_OK: i32 = 0;

/// The status for a request that the device could not read.
pub const STATUS_ERROR_DECODE: i32 = 2;

/// The status for a device that is busy with another command.
pub const STATUS_ERROR_BUSY: i32 = 4;

/// The status for a name or path that is not valid.
pub const STATUS_ERROR_STORAGE_INVALID_NAME: i32 = 10;

/// The status for parameters that the device refuses.
pub const STATUS_ERROR_INVALID_PARAMETERS: i32 = 15;

/// The status for an application that could not be started.
pub const STATUS_ERROR_APP_CANT_START: i32 = 16;

/// The status for an application that cannot start while another one runs.
pub const STATUS_ERROR_APP_SYSTEM_LOCKED: i32 = 17;

/// Why a command failed.
#[derive(Clone, Copy, Debug, PartialEq, Eq, Structural)]
pub enum CommandError {
    /// The device refused the parameters of the command.
    InvalidParameters,
    /// The path or name does not exist on the device or is not valid.
    InvalidPath,
    /// The application could not be started.
    AppCantStart,
    /// Another application is running.
    AppSystemLocked,
    /// The device is busy with another command.
    Busy,
    /// The device could not read the request.
    DeviceDecode,
    /// The device answered with a status that has no meaning here; the raw
    /// status is kept.
    UnexpectedStatus(i32),
    /// The device answered with a payload that the command does not expect.
    UnexpectedContent,
    /// The bytes that the device sent cannot be a message.
    MalformedResponse,
}

/// What a status means: success for OK, an error of its own for each status
/// that is known, and the raw status for every other one.
pub open spec fn status_outcome(status: i32) -> Result<(), CommandError> {
    if status == STATUS_OK {
        Ok(())
    } else if status == STATUS_ERROR_INVALID_PARAMETERS {
        Err(CommandError::InvalidParameters)
    } else if status == STATUS_ERROR_STORAGE_INVALID_NAME {
        Err(CommandError::InvalidPath)
    } else if status == STATUS_ERROR_APP_CANT_START {
        Err(CommandError::AppCantStart)
    } else if status == STATUS_ERROR_APP_SYSTEM_LOCKED {
        Err(CommandError::AppSystemLocked)
    } else if status == STATUS_ERROR_BUSY {
        Err(CommandError::Busy)
    } else if status == STATUS_ERROR_DECODE {
        Err(CommandError::DeviceDecode)
    } else {
        Err(CommandError::UnexpectedStatus(status))
    }
}

/// Reads a status.
pub fn interpret_status(status: i32) -> (r: Result<(), CommandError>)
    ensures
        r == status_outcome(status),
{
    if status == STATUS_OK {
        Ok(())
    } else if status == STATUS_ERROR_INVALID_PARAMETERS {
        Err(CommandError::InvalidParameters)
    } else if status == STATUS_ERROR_STORAGE_INVALID_NAME {
        Err(CommandError::InvalidPath)
    } else if status == STATUS_ERROR_APP_CANT_START {
        Err(CommandError::AppCantStart)
    } else if status == STATUS_ERROR_APP_SYSTEM_LOCKED {
        Err(CommandError::AppSystemLocked)
    } else if status == STATUS_ERROR_BUSY {
        Err(CommandError::Busy)
    } else if status == STATUS_ERROR_DECODE {
        Err(CommandError::DeviceDecode)
    } else {
        Err(CommandError::UnexpectedStatus(status))
    }
}

/// The outcome of a command whose response carries nothing but a status:
/// upload, delete, launch.
pub fn command_outcome(response: &Main) -> (r: Result<(), CommandError>)
    ensures
        r == status_outcome(response@.command_status),
{
    interpret_status(response.command_status)
}

/// What stands before the payload of a response is looked at: the empty
/// payload means that the path is not valid, whatever the status says, and
/// any other payload counts only under status OK.
pub open spec fn response_gate(m: MainView) -> Result<(), CommandError> {
    if m.content == Some(ContentView::Empty) {
        Err(CommandError::InvalidPath)
    } else {
        status_outcome(m.command_status)
    }
}

/// Checks a response before its payload is looked at.
pub fn check_response(response: &Main) -> (r: Result<(), CommandError>)
    ensures
        r == response_gate(response@),
{
    match &response.content {
        Some(Content::Empty) => Err(CommandError::InvalidPath),
        _ => interpret_status(response.command_status),
    }
}

/// The size that a response to a stat request reports.
pub open spec fn stat_outcome(m: MainView) -> Result<u32, CommandError> {
    match response_gate(m) {
        Err(e) => Err(e),
        Ok(()) => match m.content {
            Some(ContentView::StorageStatResponse { file }) => match file {
                Some(f) => Ok(f.size),
                None => Ok(0u32),
            },
            _ => Err(CommandError::UnexpectedContent),
        },
    }
}

/// Reads the response to a stat request: the size of the file in bytes.
/// An empty payload is `InvalidPath`; a payload of another kind is
/// `UnexpectedContent`.
pub fn stat_size(response: &Main) -> (r: Result<u32, CommandError>)
    ensures
        r == stat_outcome(response@),
{
    match check_response(response) {
        Err(e) => {
            return Err(e);
        },
        Ok(()) => {},
    }
    match &response.content {
        Some(Content::StorageStatResponse(r)) => match &r.file {
            Some(f) => Ok(f.size),
            None => Ok(0),
        },
        _ => Err(CommandError::UnexpectedContent),
    }
}

/// The bytes of a file that a message of a read response carries: the data
/// of its file entry, and nothing for a message of any other kind.
pub open spec fn read_data(m: MainView) -> Seq<u8> {
    match m.content {
        Some(ContentView::StorageReadResponse { file: Some(f) }) => f.data,
        _ => Seq::empty(),
    }
}

/// Takes one message of a read response: its bytes go behind those received
/// so far. Returns whether the response ends with this message.
///
/// Where the message is refused, `received` stays as it is.
pub fn take_read_message(received: &mut Vec<u8>, message: &Main) -> (r: Result<bool, CommandError>)
    ensures
        match r {
            Ok(done) => {
                &&& response_gate(message@) is Ok
                &&& done == !message@.has_next
                &&& final(received)@ == old(received)@ + read_data(message@)
            },
            Err(e) => {
                &&& response_gate(message@) == Err::<(), CommandError>(e)
                &&& final(received)@ == old(received)@
            },
        },
{
    match check_response(message) {
        Err(e) => {
            return Err(e);
        },
        Ok(()) => {},
    }
    match &message.content {
        Some(Content::StorageReadResponse(r)) => match &r.file {
            Some(f) => {
                received.extend_from_slice(f.data.as_slice());
                proof {
                    assert(received@ =~= old(received)@ + read_data(message@));
                }
            },
            None => {
                proof {
                    assert(received@ =~= old(received)@ + read_data(message@));
                }
            },
        },
        _ => {
            proof {
                assert(received@ =~= old(received)@ + read_data(message@));
            }
        },
    }
    Ok(!message.has_next)
}

/// The entries that a message of a list response carries.
pub open spec fn list_outcome(m: MainView) -> Result<Seq<FileView>, CommandError> {
    match response_gate(m) {
        Err(e) => Err(e),
        Ok(()) => match m.content {
            Some(ContentView::StorageListResponse { entries }) => Ok(entries),
            _ => Err(CommandError::UnexpectedContent),
        },
    }
}

/// Takes one message of a list response: its entries go behind those
/// gathered so far, in order. Returns whether the response ends with this
/// message.
///
/// Where the message is refused, `entries` stays as it is.
pub fn take_list_message(entries: &mut Vec<File>, message: Main) -> (r: Result<bool, CommandError>)
    ensures
        match r {
            Ok(done) => {
                &&& list_outcome(message@) is Ok
                &&& done == !message@.has_next
                &&& files_view(final(entries)@) == files_view(old(entries)@) + list_outcome(
                    message@,
                )->Ok_0
            },
            Err(e) => {
                &&& list_outcome(message@) == Err::<Seq<FileView>, CommandError>(e)
                &&& final(entries)@ == old(entries)@
            },
        },
{
    match check_response(&message) {
        Err(e) => {
            return Err(e);
        },
        Ok(()) => {},
    }
    let done = !message.has_next;
    match message.content {
        Some(Content::StorageListResponse(r)) => {
            let mut files = r.file;
            let ghost added = files@;
            entries.append(&mut files);
            proof {
                assert(files_view(entries@) =~= files_view(old(entries)@) + files_view(added));
            }
            Ok(done)
        },
        _ => Err(CommandError::UnexpectedContent),
    }
}

/// The date and time that a response to a clock request reports.
pub open spec fn datetime_outcome(m: MainView) -> Result<RtcDateTime, CommandError> {
    match response_gate(m) {
        Err(e) => Err(e),
        Ok(()) => match m.content {
            Some(ContentView::SystemGetDatetimeResponse { datetime }) => match datetime {
                Some(d) => Ok(d),
                None => Ok(blank_datetime()),
            },
            _ => Err(CommandError::UnexpectedContent),
        },
    }
}

/// Reads the response to a request for the device's date and time.
pub fn device_datetime(response: &Main) -> (r: Result<RtcDateTime, CommandError>)
    ensures
        r == datetime_outcome(response@),
{
    match check_response(response) {
        Err(e) => {
            return Err(e);
        },
        Ok(()) => {},
    }
    match &response.content {
        Some(Content::SystemGetDatetimeResponse(r)) => match r.datetime {
            Some(d) => Ok(d),
            None => Ok(
                RtcDateTime { hour: 0, minute: 0, second: 0, day: 0, month: 0, year: 0, weekday: 0 },
            ),
        },
        _ => Err(CommandError::UnexpectedContent),
    }
}

/// Advances the progress of an upload by one segment's share of the file:
/// the bytes of the file that the segment carries, not the bytes that went
/// over the link. The counter stops at `u64::MAX`.
pub fn advance_progress(position: u64, file_byte_count: usize) -> (next: u64)
    ensures
        next == if position + file_byte_count <= u64::MAX {
            (position + file_byte_count) as u64
        } else {
            u64::MAX
        },
{
    let step = file_byte_count as u64;
    if step <= u64::MAX - position {
        position + step
    } else {
        u64::MAX
    }
}

} // verus!
