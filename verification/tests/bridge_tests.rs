use symphony_core::bridge;
use symphony_core::bridge::WorkerHandle;
use symphony_core::events_manager::EventsManager;
use symphony_core::extension_client::CoreChannel;
use symphony_core::extension_client::ExtensionClient;
use symphony_core::messaging::ClientMessages;

fn fresh_bridge(handle_present: bool) -> bridge::SandboxBridge {
    bridge::new(
        ExtensionClient::new("sample".to_string()),
        EventsManager::new(),
        WorkerHandle { handle_present, terminated: false },
    )
}

#[test]
fn listen_then_poll_one_reply() {
    let mut b = fresh_bridge(true);
    let id = b.listen_messages("stateUpdated".to_string());

    // Nothing has arrived yet: the poll leaves the registration alone.
    assert_eq!(b.poll_message(&"stateUpdated".to_string(), id), None);

    let delivered = b.events.deliver(
        &"stateUpdated".to_string(),
        id,
        ClientMessages::GetState(1),
    );
    assert!(delivered);

    assert_eq!(
        b.poll_message(&"stateUpdated".to_string(), id),
        Some(ClientMessages::GetState(1))
    );
    // The one reply was taken; the registration went with it.
    assert_eq!(b.poll_message(&"stateUpdated".to_string(), id), None);
}

#[test]
fn giving_up_a_listen_drops_later_replies() {
    let mut b = fresh_bridge(true);
    let id = b.listen_messages("evt".to_string());
    b.unlisten_messages(&"evt".to_string(), id);
    assert!(!b.events.deliver(&"evt".to_string(), id, ClientMessages::GetState(1)));
}

#[test]
fn messages_to_the_core_keep_their_order() {
    let b = fresh_bridge(true);
    let mut channel = CoreChannel::new();
    b.send_message(&mut channel, ClientMessages::GetState(1));
    b.send_message(&mut channel, ClientMessages::ListExtensions(1));

    assert_eq!(channel.take_front(), Some(ClientMessages::GetState(1)));
    assert_eq!(channel.take_front(), Some(ClientMessages::ListExtensions(1)));
    assert_eq!(channel.take_front(), None);
}

#[test]
fn termination_marks_a_live_context() {
    let mut b = fresh_bridge(true);
    b.terminate_main_worker();
    assert!(b.worker.terminated);
}

#[test]
fn termination_without_a_handle_is_a_no_op() {
    let mut b = fresh_bridge(false);
    b.terminate_main_worker();
    assert!(!b.worker.terminated);
}
