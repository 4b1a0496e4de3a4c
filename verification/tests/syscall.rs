use kernel_core::syscall::ReceivedMessage;
use kernel_core::syscall::RegisterState;
use kernel_core::syscall::SystemCall;
use kernel_core::syscall::SystemCallStatus;
use kernel_core::syscall::TerminationReason;
use kernel_core::syscall::USER_PHYS_VIRT_OFFSET;

fn reply(rax: u64, rdi: u64, rsi: u64, rdx: u64, rcx: u64) -> RegisterState {
    RegisterState { rax, rdi, rsi, rdx, rcx, r8: 0 }
}

#[test]
fn a_new_frame_is_zero() {
    assert_eq!(RegisterState::new(), reply(0, 0, 0, 0, 0));
}

#[test]
fn status_numbers_are_read_as_named() {
    assert_eq!(SystemCallStatus::from(1), SystemCallStatus::InvalidRequest);
    assert_eq!(SystemCallStatus::from(2), SystemCallStatus::MalformedData);
    assert_eq!(SystemCallStatus::from(3), SystemCallStatus::UnknownRequest);
    assert_eq!(SystemCallStatus::from(4), SystemCallStatus::Unimplemented);
    assert_eq!(SystemCallStatus::from(5), SystemCallStatus::Failure);
    assert_eq!(SystemCallStatus::from(6), SystemCallStatus::DoNothing);
    assert_eq!(SystemCallStatus::from(0), SystemCallStatus::Other(0));
    assert_eq!(SystemCallStatus::from(7), SystemCallStatus::Other(7));
    assert_eq!(SystemCallStatus::from(u64::MAX), SystemCallStatus::Other(u64::MAX));
}

#[test]
fn statuses_are_written_as_numbers() {
    assert_eq!(u64::from(SystemCallStatus::InvalidRequest), 1);
    assert_eq!(u64::from(SystemCallStatus::MalformedData), 2);
    assert_eq!(u64::from(SystemCallStatus::UnknownRequest), 3);
    assert_eq!(u64::from(SystemCallStatus::Unimplemented), 4);
    assert_eq!(u64::from(SystemCallStatus::Failure), 5);
    assert_eq!(u64::from(SystemCallStatus::DoNothing), 6);
    assert_eq!(u64::from(SystemCallStatus::Other(0)), 0);
    assert_eq!(u64::from(SystemCallStatus::Other(3)), 3);
    assert_eq!(u64::from(SystemCallStatus::Other(1234)), 1234);
}

#[test]
fn a_status_number_survives_reading_and_writing() {
    for raw in [0u64, 1, 2, 3, 4, 5, 6, 7, 255, u64::MAX] {
        assert_eq!(u64::from(SystemCallStatus::from(raw)), raw);
    }
}

#[test]
fn unwrap_returns_the_payload() {
    assert_eq!(SystemCallStatus::Other(0).unwrap(), 0);
    assert_eq!(SystemCallStatus::Other(0xDEAD_BEEF).unwrap(), 0xDEAD_BEEF);
    assert_eq!(SystemCallStatus::from(42).unwrap(), 42);
}

#[test]
fn requests_are_numbered_from_zero() {
    assert_eq!(u64::from(SystemCall::KPrint), 0);
    assert_eq!(u64::from(SystemCall::ReceiveMessage), 1);
    assert_eq!(u64::from(SystemCall::SendMessage), 2);
    assert_eq!(u64::from(SystemCall::Exit), 3);
    assert_eq!(u64::from(SystemCall::Skip), 4);
    assert_eq!(u64::from(SystemCall::RegisterProvider), 5);
    assert_eq!(u64::from(SystemCall::GetProvidingProcess), 6);
}

#[test]
fn request_numbers_are_read_back() {
    assert_eq!(SystemCall::try_from(0), Ok(SystemCall::KPrint));
    assert_eq!(SystemCall::try_from(1), Ok(SystemCall::ReceiveMessage));
    assert_eq!(SystemCall::try_from(2), Ok(SystemCall::SendMessage));
    assert_eq!(SystemCall::try_from(3), Ok(SystemCall::Exit));
    assert_eq!(SystemCall::try_from(4), Ok(SystemCall::Skip));
    assert_eq!(SystemCall::try_from(5), Ok(SystemCall::RegisterProvider));
    assert_eq!(SystemCall::try_from(6), Ok(SystemCall::GetProvidingProcess));
    assert_eq!(SystemCall::try_from(7), Err(7));
    assert_eq!(SystemCall::try_from(u64::MAX), Err(u64::MAX));
}

#[test]
fn the_print_request_carries_address_and_length() {
    assert_eq!(
        SystemCall::kprint(0x1000, 11),
        RegisterState { rax: 0, rdi: 0, rsi: 0x1000, rdx: 11, rcx: 0, r8: 0 }
    );
}

#[test]
fn the_requests_without_arguments_carry_their_number() {
    assert_eq!(SystemCall::receive_message(), reply(0, 1, 0, 0, 0));
    assert_eq!(SystemCall::exit(), reply(0, 3, 0, 0, 0));
    assert_eq!(SystemCall::skip(), reply(0, 4, 0, 0, 0));
}

#[test]
fn the_send_request_splits_the_target() {
    let target = uuid::Uuid::parse_str("a1a2a3a4-b1b2-c1c2-d1d2-d3d4d5d6d7d8").unwrap();
    assert_eq!(
        SystemCall::send_message(target.as_u128(), 0x2000, 7),
        RegisterState {
            rax: 0,
            rdi: 2,
            rsi: 0xa1a2a3a4b1b2c1c2,
            rdx: 0xd1d2d3d4d5d6d7d8,
            rcx: 0x2000,
            r8: 7,
        }
    );
    let (hi, lo) = target.as_u64_pair();
    let request = SystemCall::send_message(target.as_u128(), 0, 0);
    assert_eq!((request.rsi, request.rdx), (hi, lo));
}

#[test]
fn the_provider_requests_split_the_provider() {
    let provider = 0x0123456789abcdef_fedcba9876543210u128;
    assert_eq!(
        SystemCall::register_provider(provider),
        reply(0, 5, 0x0123456789abcdef, 0xfedcba9876543210, 0)
    );
    assert_eq!(
        SystemCall::get_providing_process(provider),
        reply(0, 6, 0x0123456789abcdef, 0xfedcba9876543210, 0)
    );
    assert_eq!(SystemCall::register_provider(1), reply(0, 5, 0, 1, 0));
    assert_eq!(SystemCall::register_provider(1 << 64), reply(0, 5, 1, 0, 0));
    assert_eq!(SystemCall::register_provider(u128::MAX), reply(0, 5, u64::MAX, u64::MAX, 0));
}

#[test]
fn a_status_reply_is_success_only_for_zero() {
    assert_eq!(SystemCall::status_reply(&reply(0, 7, 7, 7, 7)), Ok(()));
    assert_eq!(SystemCall::status_reply(&reply(1, 0, 0, 0, 0)), Err(SystemCallStatus::InvalidRequest));
    assert_eq!(SystemCall::status_reply(&reply(2, 0, 0, 0, 0)), Err(SystemCallStatus::MalformedData));
    assert_eq!(SystemCall::status_reply(&reply(3, 0, 0, 0, 0)), Err(SystemCallStatus::UnknownRequest));
    assert_eq!(SystemCall::status_reply(&reply(4, 0, 0, 0, 0)), Err(SystemCallStatus::Unimplemented));
    assert_eq!(SystemCall::status_reply(&reply(5, 0, 0, 0, 0)), Err(SystemCallStatus::Failure));
    assert_eq!(SystemCall::status_reply(&reply(6, 0, 0, 0, 0)), Err(SystemCallStatus::DoNothing));
    assert_eq!(SystemCall::status_reply(&reply(9, 0, 0, 0, 0)), Err(SystemCallStatus::Other(9)));
}

#[test]
fn a_message_reply_joins_the_origin() {
    let origin = uuid::Uuid::from_u64_pair(0xa1a2a3a4b1b2c1c2, 0xd1d2d3d4d5d6d7d8);
    assert_eq!(
        SystemCall::message_reply(&reply(0, 0xa1a2a3a4b1b2c1c2, 0xd1d2d3d4d5d6d7d8, 0x3000, 64)),
        Ok(Some(ReceivedMessage { origin: origin.as_u128(), ptr: 0x3000, len: 64 }))
    );
    assert_eq!(
        SystemCall::message_reply(&reply(0, 0, 1, 0, 0)),
        Ok(Some(ReceivedMessage { origin: 1, ptr: 0, len: 0 }))
    );
    assert_eq!(
        SystemCall::message_reply(&reply(0, 1, 0, 0, 0)),
        Ok(Some(ReceivedMessage { origin: 1 << 64, ptr: 0, len: 0 }))
    );
}

#[test]
fn a_message_reply_with_do_nothing_is_no_message() {
    assert_eq!(SystemCall::message_reply(&reply(6, 1, 2, 3, 4)), Ok(None));
}

#[test]
fn a_message_reply_with_another_status_is_an_error() {
    assert_eq!(SystemCall::message_reply(&reply(1, 0, 0, 0, 0)), Err(SystemCallStatus::InvalidRequest));
    assert_eq!(SystemCall::message_reply(&reply(5, 0, 0, 0, 0)), Err(SystemCallStatus::Failure));
    assert_eq!(SystemCall::message_reply(&reply(7, 0, 0, 0, 0)), Err(SystemCallStatus::Other(7)));
}

#[test]
fn a_provider_reply_joins_the_identifier() {
    assert_eq!(
        SystemCall::provider_reply(&reply(0, 0x0123456789abcdef, 0xfedcba9876543210, 0, 0)),
        Ok(0x0123456789abcdef_fedcba9876543210)
    );
    assert_eq!(SystemCall::provider_reply(&reply(5, 1, 2, 0, 0)), Err(SystemCallStatus::Failure));
    assert_eq!(SystemCall::provider_reply(&reply(8, 1, 2, 0, 0)), Err(SystemCallStatus::Other(8)));
}

#[test]
fn the_termination_reasons_are_distinct() {
    let all = [
        TerminationReason::MalformedArgument,
        TerminationReason::MalformedAddress,
        TerminationReason::MalformedBody,
        TerminationReason::NotFound,
        TerminationReason::AlreadyExists,
    ];
    for (i, a) in all.iter().enumerate() {
        for (j, b) in all.iter().enumerate() {
            assert_eq!(a == b, i == j);
        }
    }
}

#[test]
fn user_space_sees_physical_memory_three_gibibytes_up() {
    assert_eq!(USER_PHYS_VIRT_OFFSET, 0xC000_0000);
}
