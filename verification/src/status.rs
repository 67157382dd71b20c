//! The call status: what a native call reports of how it ended, and what a
//! call site makes of it.

use vstd::prelude::*;
use vstd::utf8::{
    decode_utf8,
    encode_utf8,
    encode_utf8_decode_utf8,
    encode_utf8_valid_utf8,
    valid_utf8,
};
use crate::codec::text_from_utf8;
use crate::layout::WireError;
use crate::lift::{lemma_lift_lower, lift, lifted, lowerable, lowered, Native, NativeModel};
use crate::value::{conforms, Layout, Value, WireValue};

verus! {

/// The status code of a call that succeeded.
pub const CALL_SUCCESS: i8 = 0;

/// The status code of a call that ended in an error of the declared type.
pub const CALL_ERROR: i8 = 1;

/// The status code of a call that panicked.
pub const CALL_PANIC: i8 = 2;

/// The record that every native call that can fail fills in.
#[derive(Debug, PartialEq, Eq)]
pub struct CallStatus {
    pub code: i8,
    /// The lowered error or the panic message; empty after a success.
    pub error_buf: Vec<u8>,
}

/// A status that breaks the contract between bindings and library.
#[derive(Clone, Copy, Debug, PartialEq, Eq, Structural)]
pub enum InternalFault {
    /// An error was reported for a function that declares none.
    UndeclaredError,
    /// The buffer does not hold an error of the declared type.
    BadPayload(WireError),
    /// The panic message is not UTF-8.
    BadMessage,
    /// The status code is none of the three.
    UnknownCode(i8),
}

/// How a call failed, as the caller sees it.
#[derive(Debug, PartialEq, Eq)]
pub enum CallFault {
    /// The error of the declared type that the function threw.
    Expected(Value),
    /// An unrecoverable fault with the message of the panic.
    Panicked(String),
    Internal(InternalFault),
}

/// The model of how a call failed.
pub enum CallFaultModel {
    Expected(WireValue),
    Panicked(Seq<char>),
    Internal(InternalFault),
}

impl View for CallFault {
    type V = CallFaultModel;

    open spec fn view(&self) -> CallFaultModel {
        match self {
            CallFault::Expected(v) => CallFaultModel::Expected(v@),
            CallFault::Panicked(message) => CallFaultModel::Panicked(message@),
            CallFault::Internal(fault) => CallFaultModel::Internal(*fault),
        }
    }
}

/// The message of a panic that left none.
pub open spec fn default_panic_message() -> Seq<char> {
    "Rust panic"@
}

/// What a call site makes of a status with the code `code` and the buffer
/// `buf`, for a function that throws errors of layout `throws`.
pub open spec fn call_outcome(code: i8, buf: Seq<u8>, throws: Option<Layout>) -> Result<
    (),
    CallFaultModel,
> {
    if code == CALL_SUCCESS {
        Ok(())
    } else if code == CALL_ERROR {
        match throws {
            None => Err(CallFaultModel::Internal(InternalFault::UndeclaredError)),
            Some(layout) => match lifted(layout, NativeModel::Buffer(buf)) {
                Ok(error) => Err(CallFaultModel::Expected(error)),
                Err(e) => Err(CallFaultModel::Internal(InternalFault::BadPayload(e))),
            },
        }
    } else if code == CALL_PANIC {
        if buf.len() == 0 {
            Err(CallFaultModel::Panicked(default_panic_message()))
        } else if valid_utf8(buf) {
            Err(CallFaultModel::Panicked(decode_utf8(buf)))
        } else {
            Err(CallFaultModel::Internal(InternalFault::BadMessage))
        }
    } else {
        Err(CallFaultModel::Internal(InternalFault::UnknownCode(code)))
    }
}

/// What the result of a status check stands for.
pub open spec fn fault_model(r: Result<(), CallFault>) -> Result<(), CallFaultModel> {
    match r {
        Ok(_) => Ok(()),
        Err(fault) => Err(fault@),
    }
}

/// Checks the status of a native call that has returned, for a function
/// that throws errors of layout `throws`.
///
/// A success passes. An error is lifted from the buffer and handed on as
/// the error of the declared type. A panic becomes an unrecoverable fault
/// with the message that the buffer holds.
pub fn check_call_status(status: CallStatus, throws: Option<&Layout>) -> (r: Result<(), CallFault>)
    ensures
        fault_model(r) == call_outcome(
            status.code,
            status.error_buf@,
            match throws {
                Some(layout) => Some(*layout),
                None => None,
            },
        ),
{
    if status.code == CALL_SUCCESS {
        Ok(())
    } else if status.code == CALL_ERROR {
        match throws {
            None => Err(CallFault::Internal(InternalFault::UndeclaredError)),
            Some(layout) => match lift(layout, Native::Buffer(status.error_buf)) {
                Ok(error) => Err(CallFault::Expected(error)),
                Err(e) => Err(CallFault::Internal(InternalFault::BadPayload(e))),
            },
        }
    } else if status.code == CALL_PANIC {
        if status.error_buf.len() == 0 {
            Err(CallFault::Panicked("Rust panic".to_owned()))
        } else {
            match text_from_utf8(status.error_buf) {
                Some(message) => Err(CallFault::Panicked(message)),
                None => Err(CallFault::Internal(InternalFault::BadMessage)),
            }
        }
    } else {
        Err(CallFault::Internal(InternalFault::UnknownCode(status.code)))
    }
}

/// A call that reports an error, with the lowered error in the buffer,
/// throws exactly that error.
pub proof fn lemma_expected_error(error: WireValue, layout: Layout)
    requires
        conforms(error, layout),
        lowerable(error),
        lowered(error) is Buffer,
    ensures
        call_outcome(CALL_ERROR, lowered(error)->Buffer_0, Some(layout)) == Err::<
            (),
            CallFaultModel,
        >(CallFaultModel::Expected(error)),
{
    lemma_lift_lower(error, layout);
}

/// A call that reports a panic, with a message in the buffer, ends in a
/// fault with exactly that message.
pub proof fn lemma_panic_message(message: Seq<char>, throws: Option<Layout>)
    requires
        message.len() > 0,
    ensures
        call_outcome(CALL_PANIC, encode_utf8(message), throws) == Err::<(), CallFaultModel>(
            CallFaultModel::Panicked(message),
        ),
{
    encode_utf8_valid_utf8(message);
    encode_utf8_decode_utf8(message);
    if encode_utf8(message).len() == 0 {
        assert(decode_utf8(encode_utf8(message)).len() == 0);
    }
}

} // verus!
