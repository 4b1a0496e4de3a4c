//! The system-call boundary: the registers that carry a request and its
//! reply, the request numbers, the status codes, and the marshalling that a
//! user process performs on either side of the trap.

use crate::wire::high_half;
use crate::wire::join_halves;
use crate::wire::low_half;
use crate::wire::uuid_as_u64_pair;
use crate::wire::uuid_from_u64_pair;
use vstd::prelude::*;
use vstd::std_specs::convert::FromSpecImpl;
use vstd::std_specs::convert::TryFromSpecImpl;

verus! {

/// Distance between a physical address and the address under which a user
/// process sees it.
pub const USER_PHYS_VIRT_OFFSET: u64 = 0xC000_0000;

/// The general-purpose registers that the system-call convention uses.
///
/// A request carries its number in `rdi` and its arguments in `rsi`, `rdx`,
/// `rcx` and `r8`. A reply carries its status in `rax` and its values in
/// `rdi`, `rsi`, `rdx` and `rcx`.
#[derive(Clone, Copy, Debug, PartialEq, Eq, Structural)]
pub struct RegisterState {
    pub rax: u64,
    pub rdi: u64,
    pub rsi: u64,
    pub rdx: u64,
    pub rcx: u64,
    pub r8: u64,
}

impl RegisterState {
    /// All registers zero.
    pub open spec fn zeroed() -> RegisterState {
        RegisterState { rax: 0, rdi: 0, rsi: 0, rdx: 0, rcx: 0, r8: 0 }
    }

    /// A frame with all registers zero.
    pub fn new() -> (regs: RegisterState)
        ensures
            regs == RegisterState::zeroed(),
    {
        RegisterState { rax: 0, rdi: 0, rsi: 0, rdx: 0, rcx: 0, r8: 0 }
    }
}

/// Why the kernel ends the calling thread or process instead of answering.
#[derive(Clone, Copy, Debug, PartialEq, Eq, Structural)]
pub enum TerminationReason {
    /// An argument is out of range or names no known choice.
    MalformedArgument,
    /// A pointer and length do not describe usable text.
    MalformedAddress,
    /// The payload of the request is invalid.
    MalformedBody,
    /// The device-tree entry referred to does not exist.
    NotFound,
    /// The resource is already registered.
    AlreadyExists,
}

/// Status of a system call as `rax` carries it back. Zero means success and
/// is represented, like every number above 6, by `Other`.
#[derive(Clone, Copy, Debug, PartialEq, Eq, Structural)]
#[must_use]
pub enum SystemCallStatus {
    InvalidRequest,
    MalformedData,
    UnknownRequest,
    Unimplemented,
    Failure,
    DoNothing,
    Other(u64),
}

impl SystemCallStatus {
    /// The status that the number `raw` stands for.
    pub open spec fn of_raw(raw: u64) -> SystemCallStatus {
        if raw == 1 {
            SystemCallStatus::InvalidRequest
        } else if raw == 2 {
            SystemCallStatus::MalformedData
        } else if raw == 3 {
            SystemCallStatus::UnknownRequest
        } else if raw == 4 {
            SystemCallStatus::Unimplemented
        } else if raw == 5 {
            SystemCallStatus::Failure
        } else if raw == 6 {
            SystemCallStatus::DoNothing
        } else {
            SystemCallStatus::Other(raw)
        }
    }

    /// The number that stands for this status.
    pub open spec fn raw(self) -> u64 {
        match self {
            SystemCallStatus::InvalidRequest => 1,
            SystemCallStatus::MalformedData => 2,
            SystemCallStatus::UnknownRequest => 3,
            SystemCallStatus::Unimplemented => 4,
            SystemCallStatus::Failure => 5,
            SystemCallStatus::DoNothing => 6,
            SystemCallStatus::Other(v) => v,
        }
    }

    /// What a reply whose only content is its status means: success for
    /// zero, the status otherwise.
    pub open spec fn outcome_of(raw: u64) -> Result<(), SystemCallStatus> {
        if raw == 0 {
            Ok(())
        } else {
            Err(SystemCallStatus::of_raw(raw))
        }
    }

    /// The payload of a status that carries one.
    pub fn unwrap(self) -> (v: u64)
        requires
            self is Other,
        ensures
            self == SystemCallStatus::Other(v),
    {
        match self {
            SystemCallStatus::Other(v) => v,
            _ => 0,
        }
    }
}

impl From<u64> for SystemCallStatus {
    fn from(raw: u64) -> (status: SystemCallStatus) {
        if raw == 1 {
            SystemCallStatus::InvalidRequest
        } else if raw == 2 {
            SystemCallStatus::MalformedData
        } else if raw == 3 {
            SystemCallStatus::UnknownRequest
        } else if raw == 4 {
            SystemCallStatus::Unimplemented
        } else if raw == 5 {
            SystemCallStatus::Failure
        } else if raw == 6 {
            SystemCallStatus::DoNothing
        } else {
            SystemCallStatus::Other(raw)
        }
    }
}

impl FromSpecImpl<u64> for SystemCallStatus {
    open spec fn obeys_from_spec() -> bool {
        true
    }

    open spec fn from_spec(raw: u64) -> SystemCallStatus {
        SystemCallStatus::of_raw(raw)
    }
}

impl From<SystemCallStatus> for u64 {
    fn from(status: SystemCallStatus) -> (raw: u64) {
        match status {
            SystemCallStatus::InvalidRequest => 1,
            SystemCallStatus::MalformedData => 2,
            SystemCallStatus::UnknownRequest => 3,
            SystemCallStatus::Unimplemented => 4,
            SystemCallStatus::Failure => 5,
            SystemCallStatus::DoNothing => 6,
            SystemCallStatus::Other(v) => v,
        }
    }
}

impl FromSpecImpl<SystemCallStatus> for u64 {
    open spec fn obeys_from_spec() -> bool {
        true
    }

    open spec fn from_spec(status: SystemCallStatus) -> u64 {
        status.raw()
    }
}

/// Reading a status and writing it back gives the number read.
pub proof fn law_status_number_survives(raw: u64)
    ensures
        SystemCallStatus::of_raw(raw).raw() == raw,
{
}

/// Writing a status and reading it back gives the same status, unless it is an
/// `Other` that holds one of the six numbers with a name of their own.
pub proof fn law_status_survives(status: SystemCallStatus)
    requires
        status matches SystemCallStatus::Other(v) ==> !(1 <= v <= 6),
    ensures
        SystemCallStatus::of_raw(status.raw()) == status,
{
}

/// The requests that a user process can make.
#[derive(Clone, Copy, Debug, PartialEq, Eq, Structural)]
pub enum SystemCall {
    KPrint,
    ReceiveMessage,
    SendMessage,
    Exit,
    Skip,
    RegisterProvider,
    GetProvidingProcess,
}

impl SystemCall {
    /// The number that selects this request.
    pub open spec fn number(self) -> u64 {
        match self {
            SystemCall::KPrint => 0,
            SystemCall::ReceiveMessage => 1,
            SystemCall::SendMessage => 2,
            SystemCall::Exit => 3,
            SystemCall::Skip => 4,
            SystemCall::RegisterProvider => 5,
            SystemCall::GetProvidingProcess => 6,
        }
    }

    /// The request that `raw` selects, if any.
    pub open spec fn of_number(raw: u64) -> Result<SystemCall, u64> {
        if raw == 0 {
            Ok(SystemCall::KPrint)
        } else if raw == 1 {
            Ok(SystemCall::ReceiveMessage)
        } else if raw == 2 {
            Ok(SystemCall::SendMessage)
        } else if raw == 3 {
            Ok(SystemCall::Exit)
        } else if raw == 4 {
            Ok(SystemCall::Skip)
        } else if raw == 5 {
            Ok(SystemCall::RegisterProvider)
        } else if raw == 6 {
            Ok(SystemCall::GetProvidingProcess)
        } else {
            Err(raw)
        }
    }
}

impl From<SystemCall> for u64 {
    fn from(call: SystemCall) -> (raw: u64) {
        match call {
            SystemCall::KPrint => 0,
            SystemCall::ReceiveMessage => 1,
            SystemCall::SendMessage => 2,
            SystemCall::Exit => 3,
            SystemCall::Skip => 4,
            SystemCall::RegisterProvider => 5,
            SystemCall::GetProvidingProcess => 6,
        }
    }
}

impl FromSpecImpl<SystemCall> for u64 {
    open spec fn obeys_from_spec() -> bool {
        true
    }

    open spec fn from_spec(call: SystemCall) -> u64 {
        call.number()
    }
}

impl TryFrom<u64> for SystemCall {
    type Error = u64;

    fn try_from(raw: u64) -> (call: Result<SystemCall, u64>) {
        if raw == 0 {
            Ok(SystemCall::KPrint)
        } else if raw == 1 {
            Ok(SystemCall::ReceiveMessage)
        } else if raw == 2 {
            Ok(SystemCall::SendMessage)
        } else if raw == 3 {
            Ok(SystemCall::Exit)
        } else if raw == 4 {
            Ok(SystemCall::Skip)
        } else if raw == 5 {
            Ok(SystemCall::RegisterProvider)
        } else if raw == 6 {
            Ok(SystemCall::GetProvidingProcess)
        } else {
            Err(raw)
        }
    }
}

impl TryFromSpecImpl<u64> for SystemCall {
    open spec fn obeys_try_from_spec() -> bool {
        true
    }

    open spec fn try_from_spec(raw: u64) -> Result<SystemCall, u64> {
        SystemCall::of_number(raw)
    }
}

/// A request number selects the request it was taken from, and only the
/// numbers of requests select one.
pub proof fn law_request_number_round_trip(call: SystemCall, raw: u64)
    ensures
        SystemCall::of_number(call.number()) == Ok::<SystemCall, u64>(call),
        SystemCall::of_number(raw) matches Ok(c) ==> c.number() == raw,
        SystemCall::of_number(raw) is Err <==> raw > 6,
{
}

/// A message as the reply to a receive request describes it.
#[derive(Clone, Copy, Debug, PartialEq, Eq, Structural)]
pub struct ReceivedMessage {
    /// The 128-bit identifier of the sender.
    pub origin: u128,
    /// Address of the payload in the receiver's address space.
    pub ptr: u64,
    /// Length of the payload in bytes.
    pub len: u64,
}

impl SystemCall {
    /// The registers of a request with the given arguments.
    pub open spec fn frame(self, rsi: u64, rdx: u64, rcx: u64, r8: u64) -> RegisterState {
        RegisterState { rax: 0, rdi: self.number(), rsi: rsi, rdx: rdx, rcx: rcx, r8: r8 }
    }

    /// What the reply to a receive request means.
    pub open spec fn message_in(reply: RegisterState) -> Result<
        Option<ReceivedMessage>,
        SystemCallStatus,
    > {
        match SystemCallStatus::of_raw(reply.rax) {
            SystemCallStatus::DoNothing => Ok(None),
            SystemCallStatus::Other(v) => if v == 0 {
                Ok(
                    Some(
                        ReceivedMessage {
                            origin: join_halves(reply.rdi, reply.rsi),
                            ptr: reply.rdx,
                            len: reply.rcx,
                        },
                    ),
                )
            } else {
                Err(SystemCallStatus::Other(v))
            },
            status => Err(status),
        }
    }

    /// What the reply to a request for the process behind a provider means.
    pub open spec fn provider_in(reply: RegisterState) -> Result<u128, SystemCallStatus> {
        if reply.rax == 0 {
            Ok(join_halves(reply.rdi, reply.rsi))
        } else {
            Err(SystemCallStatus::of_raw(reply.rax))
        }
    }

    /// The request that prints the `len` bytes of text at `ptr`.
    pub fn kprint(ptr: u64, len: u64) -> (request: RegisterState)
        ensures
            request == SystemCall::KPrint.frame(ptr, len, 0, 0),
    {
        RegisterState { rax: 0, rdi: SystemCall::KPrint.into(), rsi: ptr, rdx: len, rcx: 0, r8: 0 }
    }

    /// The request for the next message.
    pub fn receive_message() -> (request: RegisterState)
        ensures
            request == SystemCall::ReceiveMessage.frame(0, 0, 0, 0),
    {
        RegisterState {
            rax: 0,
            rdi: SystemCall::ReceiveMessage.into(),
            rsi: 0,
            rdx: 0,
            rcx: 0,
            r8: 0,
        }
    }

    /// The request that sends the `len` bytes at `ptr` to `target`.
    pub fn send_message(target: u128, ptr: u64, len: u64) -> (request: RegisterState)
        ensures
            request == SystemCall::SendMessage.frame(high_half(target), low_half(target), ptr, len),
    {
        let (uuid_hi, uuid_lo) = uuid_as_u64_pair(target);
        RegisterState {
            rax: 0,
            rdi: SystemCall::SendMessage.into(),
            rsi: uuid_hi,
            rdx: uuid_lo,
            rcx: ptr,
            r8: len,
        }
    }

    /// The request that ends the calling thread.
    pub fn exit() -> (request: RegisterState)
        ensures
            request == SystemCall::Exit.frame(0, 0, 0, 0),
    {
        RegisterState { rax: 0, rdi: SystemCall::Exit.into(), rsi: 0, rdx: 0, rcx: 0, r8: 0 }
    }

    /// The request that yields the processor.
    pub fn skip() -> (request: RegisterState)
        ensures
            request == SystemCall::Skip.frame(0, 0, 0, 0),
    {
        RegisterState { rax: 0, rdi: SystemCall::Skip.into(), rsi: 0, rdx: 0, rcx: 0, r8: 0 }
    }

    /// The request that registers the caller as `provider`.
    pub fn register_provider(provider: u128) -> (request: RegisterState)
        ensures
            request == SystemCall::RegisterProvider.frame(
                high_half(provider),
                low_half(provider),
                0,
                0,
            ),
    {
        let (uuid_hi, uuid_lo) = uuid_as_u64_pair(provider);
        RegisterState {
            rax: 0,
            rdi: SystemCall::RegisterProvider.into(),
            rsi: uuid_hi,
            rdx: uuid_lo,
            rcx: 0,
            r8: 0,
        }
    }

    /// The request for the process behind `provider`.
    pub fn get_providing_process(provider: u128) -> (request: RegisterState)
        ensures
            request == SystemCall::GetProvidingProcess.frame(
                high_half(provider),
                low_half(provider),
                0,
                0,
            ),
    {
        let (uuid_hi, uuid_lo) = uuid_as_u64_pair(provider);
        RegisterState {
            rax: 0,
            rdi: SystemCall::GetProvidingProcess.into(),
            rsi: uuid_hi,
            rdx: uuid_lo,
            rcx: 0,
            r8: 0,
        }
    }

    /// Reads a reply that carries only a status: success for zero, the
    /// status otherwise.
    pub fn status_reply(reply: &RegisterState) -> (r: Result<(), SystemCallStatus>)
        ensures
            r == SystemCallStatus::outcome_of(reply.rax),
    {
        if reply.rax == 0 {
            Ok(())
        } else {
            Err(SystemCallStatus::from(reply.rax))
        }
    }

    /// Reads the reply to a receive request: no message for the status
    /// `DoNothing`, a message for zero, and the status otherwise.
    pub fn message_reply(reply: &RegisterState) -> (r: Result<
        Option<ReceivedMessage>,
        SystemCallStatus,
    >)
        ensures
            r == SystemCall::message_in(*reply),
    {
        match SystemCallStatus::from(reply.rax) {
            SystemCallStatus::DoNothing => Ok(None),
            SystemCallStatus::Other(0) => Ok(
                Some(
                    ReceivedMessage {
                        origin: uuid_from_u64_pair(reply.rdi, reply.rsi),
                        ptr: reply.rdx,
                        len: reply.rcx,
                    },
                ),
            ),
            v => Err(v),
        }
    }

    /// Reads the reply to a request for the process behind a provider: its
    /// 128-bit identifier for zero, the status otherwise.
    pub fn provider_reply(reply: &RegisterState) -> (r: Result<u128, SystemCallStatus>)
        ensures
            r == SystemCall::provider_in(*reply),
    {
        if reply.rax == 0 {
            Ok(uuid_from_u64_pair(reply.rdi, reply.rsi))
        } else {
            Err(SystemCallStatus::from(reply.rax))
        }
    }
}

} // verus!
