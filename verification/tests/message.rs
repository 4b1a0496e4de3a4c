use kernel_core::message::deliver_message;
use kernel_core::message::deliver_nothing;
use kernel_core::message::message_target;
use kernel_core::message::Message;
use kernel_core::message::MessageChannel;
use kernel_core::syscall::ReceivedMessage;
use kernel_core::syscall::RegisterState;
use kernel_core::syscall::SystemCall;
use kernel_core::syscall::SystemCallStatus;

const KEYBOARD: u128 = 0xe8f08fbc_b0a3_4365_b91e_12dbfeec6586;
const SHELL: u128 = 0x00000000_0000_0001_0000_000000000002;

#[test]
fn a_new_channel_has_no_providers() {
    let channel = MessageChannel::new();
    assert!(!channel.is_registered(KEYBOARD));
    assert_eq!(channel.pending(KEYBOARD), 0);
    assert_eq!(channel.receive_message(KEYBOARD), None);
    assert!(channel.can_send());
}

#[test]
fn a_provider_registers_once() {
    let mut channel = MessageChannel::new();
    assert!(channel.register_provider(KEYBOARD));
    assert!(channel.is_registered(KEYBOARD));
    assert!(!channel.register_provider(KEYBOARD));
    assert!(channel.register_provider(SHELL));
    assert!(channel.is_registered(SHELL));
}

#[test]
fn sending_to_an_unregistered_target_fails() {
    let mut channel = MessageChannel::new();
    assert_eq!(channel.send_message(SHELL, KEYBOARD, vec![1]), Err(SystemCallStatus::Failure));
    assert!(channel.register_provider(KEYBOARD));
    assert_eq!(channel.send_message(KEYBOARD, SHELL, vec![1]), Err(SystemCallStatus::Failure));
    assert_eq!(channel.pending(KEYBOARD), 0);
    // A failed send uses up no identifier.
    assert_eq!(channel.send_message(SHELL, KEYBOARD, vec![1]), Ok(1));
}

#[test]
fn receiving_from_an_empty_queue_returns_nothing() {
    let mut channel = MessageChannel::new();
    assert!(channel.register_provider(KEYBOARD));
    assert_eq!(channel.receive_message(KEYBOARD), None);
    assert_eq!(channel.receive_message(SHELL), None);
}

#[test]
fn messages_arrive_in_the_order_sent() {
    let mut channel = MessageChannel::new();
    assert!(channel.register_provider(KEYBOARD));
    assert_eq!(channel.send_message(SHELL, KEYBOARD, vec![1, 2]), Ok(1));
    assert_eq!(channel.send_message(7, KEYBOARD, vec![]), Ok(2));
    assert_eq!(channel.send_message(SHELL, KEYBOARD, vec![9]), Ok(3));
    assert_eq!(channel.pending(KEYBOARD), 3);
    assert_eq!(
        channel.receive_message(KEYBOARD),
        Some(&Message { id: 1, origin: SHELL, payload: vec![1, 2] })
    );
    assert!(channel.ack_message(KEYBOARD, 1));
    assert_eq!(
        channel.receive_message(KEYBOARD),
        Some(&Message { id: 2, origin: 7, payload: vec![] })
    );
    assert!(channel.ack_message(KEYBOARD, 2));
    assert_eq!(
        channel.receive_message(KEYBOARD),
        Some(&Message { id: 3, origin: SHELL, payload: vec![9] })
    );
    assert!(channel.ack_message(KEYBOARD, 3));
    assert_eq!(channel.receive_message(KEYBOARD), None);
}

#[test]
fn an_unacknowledged_message_is_received_again() {
    let mut channel = MessageChannel::new();
    assert!(channel.register_provider(KEYBOARD));
    assert_eq!(channel.send_message(SHELL, KEYBOARD, vec![5]), Ok(1));
    for _ in 0..3 {
        // Between two receives the receiver only yields.
        assert_eq!(
            channel.receive_message(KEYBOARD),
            Some(&Message { id: 1, origin: SHELL, payload: vec![5] })
        );
        assert_eq!(channel.pending(KEYBOARD), 1);
    }
    assert_eq!(channel.send_message(SHELL, KEYBOARD, vec![6]), Ok(2));
    assert_eq!(channel.receive_message(KEYBOARD).map(|m| m.id), Some(1));
}

#[test]
fn acknowledging_twice_changes_nothing_more() {
    let mut channel = MessageChannel::new();
    assert!(channel.register_provider(KEYBOARD));
    assert_eq!(channel.send_message(SHELL, KEYBOARD, vec![5]), Ok(1));
    assert_eq!(channel.send_message(SHELL, KEYBOARD, vec![6]), Ok(2));
    assert!(channel.ack_message(KEYBOARD, 1));
    assert_eq!(channel.pending(KEYBOARD), 1);
    assert!(!channel.ack_message(KEYBOARD, 1));
    assert!(!channel.ack_message(KEYBOARD, 1));
    assert_eq!(channel.pending(KEYBOARD), 1);
    assert_eq!(channel.receive_message(KEYBOARD).map(|m| m.id), Some(2));
}

#[test]
fn a_message_can_be_acknowledged_out_of_order() {
    let mut channel = MessageChannel::new();
    assert!(channel.register_provider(KEYBOARD));
    for expected in 1..=4u64 {
        assert_eq!(channel.send_message(SHELL, KEYBOARD, vec![expected as u8]), Ok(expected));
    }
    assert!(channel.ack_message(KEYBOARD, 3));
    assert_eq!(channel.pending(KEYBOARD), 3);
    assert_eq!(channel.receive_message(KEYBOARD).map(|m| m.id), Some(1));
    assert!(channel.ack_message(KEYBOARD, 1));
    assert_eq!(channel.receive_message(KEYBOARD).map(|m| m.id), Some(2));
    assert!(channel.ack_message(KEYBOARD, 2));
    assert_eq!(channel.receive_message(KEYBOARD).map(|m| m.id), Some(4));
}

#[test]
fn acknowledging_for_another_provider_changes_nothing() {
    let mut channel = MessageChannel::new();
    assert!(channel.register_provider(KEYBOARD));
    assert!(channel.register_provider(SHELL));
    assert_eq!(channel.send_message(SHELL, KEYBOARD, vec![5]), Ok(1));
    assert!(!channel.ack_message(SHELL, 1));
    assert!(!channel.ack_message(77, 1));
    assert!(!channel.ack_message(KEYBOARD, 2));
    assert_eq!(channel.pending(KEYBOARD), 1);
}

#[test]
fn each_provider_has_its_own_queue() {
    let mut channel = MessageChannel::new();
    assert!(channel.register_provider(KEYBOARD));
    assert!(channel.register_provider(SHELL));
    assert_eq!(channel.send_message(SHELL, KEYBOARD, vec![1]), Ok(1));
    assert_eq!(channel.send_message(KEYBOARD, SHELL, vec![2]), Ok(2));
    assert_eq!(channel.send_message(KEYBOARD, SHELL, vec![3]), Ok(3));
    assert_eq!(channel.pending(KEYBOARD), 1);
    assert_eq!(channel.pending(SHELL), 2);
    assert_eq!(channel.receive_message(SHELL).map(|m| m.payload.clone()), Some(vec![2]));
    assert_eq!(channel.receive_message(KEYBOARD).map(|m| m.payload.clone()), Some(vec![1]));
}

#[test]
fn an_unregistered_provider_is_inactive() {
    let mut channel = MessageChannel::new();
    assert!(!channel.unregister_provider(KEYBOARD));
    assert!(channel.register_provider(SHELL));
    assert!(channel.register_provider(KEYBOARD));
    assert_eq!(channel.send_message(SHELL, KEYBOARD, vec![1]), Ok(1));
    assert!(channel.unregister_provider(KEYBOARD));
    assert!(!channel.is_registered(KEYBOARD));
    assert!(channel.is_registered(SHELL));
    assert_eq!(channel.receive_message(KEYBOARD), None);
    assert_eq!(channel.send_message(SHELL, KEYBOARD, vec![2]), Err(SystemCallStatus::Failure));
    assert!(channel.register_provider(KEYBOARD));
    assert_eq!(channel.pending(KEYBOARD), 0);
    assert_eq!(channel.send_message(SHELL, KEYBOARD, vec![3]), Ok(2));
}

#[test]
fn a_delivered_message_is_what_the_receiver_reads() {
    let message = Message { id: 31, origin: KEYBOARD, payload: vec![1, 2, 3, 4, 5] };
    let mut state = RegisterState { rax: 9, rdi: 9, rsi: 9, rdx: 9, rcx: 9, r8: 9 };
    deliver_message(&mut state, &message, 0xC000_2000);
    assert_eq!(
        state,
        RegisterState {
            rax: 0,
            rdi: 0xe8f08fbc_b0a3_4365,
            rsi: 0xb91e_12dbfeec6586,
            rdx: 0xC000_2000,
            rcx: 5,
            r8: 31,
        }
    );
    assert_eq!(
        SystemCall::message_reply(&state),
        Ok(Some(ReceivedMessage { origin: KEYBOARD, ptr: 0xC000_2000, len: 5 }))
    );
}

#[test]
fn an_empty_queue_is_reported_as_do_nothing() {
    let mut state = RegisterState { rax: 9, rdi: 1, rsi: 2, rdx: 3, rcx: 4, r8: 5 };
    deliver_nothing(&mut state);
    assert_eq!(state, RegisterState { rax: 6, rdi: 1, rsi: 2, rdx: 3, rcx: 4, r8: 5 });
    assert_eq!(SystemCall::message_reply(&state), Ok(None));
}

#[test]
fn the_target_of_a_send_request_is_read_from_the_registers() {
    let request = SystemCall::send_message(KEYBOARD, 0x7000, 12);
    assert_eq!(message_target(&request), KEYBOARD);
    let request = SystemCall::send_message(SHELL, 0, 0);
    assert_eq!(message_target(&request), SHELL);
}
