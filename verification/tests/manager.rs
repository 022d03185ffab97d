use svled::manager::{
    outgoing, set_color, task_command, transport, Dispatch, LedConfig, LedState, ManagerData,
    Outgoing, RuntimeConfig, Task, Transport, MAX_QUEUE_SIZE,
};
use svled::recorder::Formats;
use svled::transport::{UdpReply, Verdict};
use svled::wire::ColorCommand;

fn led(mode: i8) -> LedConfig {
    LedConfig {
        skip_confirmation: None,
        unity_controls_recording: false,
        no_controller: Some(false),
        port: 8888,
        communication_mode: mode,
        num_led: 300,
        num_strips: 3,
        serial_read_timeout: None,
        udp_read_timeout: None,
        con_fail_limit: None,
        print_send_back: None,
    }
}

fn config(mode: i8, use_queue: Option<bool>) -> RuntimeConfig {
    RuntimeConfig {
        led: led(mode),
        record_data: false,
        record_esp_data: false,
        use_queue,
        queue_size: None,
    }
}

const NO_MARKERS: Formats = Formats { text: false, bytes: false };

#[test]
fn transport_is_selected_by_the_mode() {
    assert_eq!(transport(&led(1)), Transport::Udp);
    assert_eq!(transport(&led(2)), Transport::Serial);
    assert_eq!(transport(&led(0)), Transport::Serial);
}

#[test]
fn datagram_carries_the_global_index() {
    assert_eq!(
        outgoing(&led(1), ColorCommand { index: 250, r: 1, g: 2, b: 3 }),
        Outgoing::Datagram { packet: [250, 0, 1, 2, 3] }
    );
}

#[test]
fn serial_frame_carries_the_local_index() {
    assert_eq!(
        outgoing(&led(2), ColorCommand { index: 250, r: 1, g: 2, b: 3 }),
        Outgoing::Frame { strip: 3, frame: [0xFF, 0xBB, 50, 0, 1, 2, 3] }
    );
    assert_eq!(
        outgoing(&led(2), ColorCommand { index: 99, r: 1, g: 2, b: 3 }),
        Outgoing::Frame { strip: 1, frame: [0xFF, 0xBB, 99, 0, 1, 2, 3] }
    );
}

#[test]
fn index_without_a_strip_goes_out_as_a_datagram_or_not_at_all() {
    assert_eq!(
        outgoing(&led(1), ColorCommand { index: 300, r: 1, g: 2, b: 3 }),
        Outgoing::Datagram { packet: [44, 1, 1, 2, 3] }
    );
    let mut quiet = led(2);
    quiet.no_controller = Some(true);
    assert_eq!(outgoing(&quiet, ColorCommand { index: 300, r: 1, g: 2, b: 3 }), Outgoing::Nothing);
}

#[test]
fn nothing_is_sent_without_a_controller() {
    let mut quiet = led(2);
    quiet.no_controller = Some(true);
    assert_eq!(outgoing(&quiet, ColorCommand { index: 1, r: 1, g: 2, b: 3 }), Outgoing::Nothing);
    let mut unset = led(1);
    unset.no_controller = None;
    assert_eq!(
        outgoing(&unset, ColorCommand { index: 1, r: 1, g: 2, b: 3 }),
        Outgoing::Datagram { packet: [1, 0, 1, 2, 3] }
    );
}

fn direct(dispatch: Dispatch) -> (Vec<u8>, Vec<u8>, Outgoing) {
    match dispatch {
        Dispatch::Direct { text, bytes, send } => (text, bytes, send),
        other => panic!("unexpected {:?}", other),
    }
}

#[test]
fn direct_dispatch_records_and_sends() {
    let mut conf = config(2, Some(false));
    conf.record_data = true;
    conf.record_esp_data = true;
    let mut manager = ManagerData::new(conf);
    let first = direct(set_color(&mut manager, 1000, NO_MARKERS, 250, 1, 2, 3));
    assert_eq!(
        first,
        (vec![], vec![], Outgoing::Frame { strip: 3, frame: [0xFF, 0xBB, 50, 0, 1, 2, 3] })
    );
    let second = direct(set_color(&mut manager, 1400, NO_MARKERS, 1, 2, 3, 4));
    assert_eq!(
        second,
        (
            b"T:400\n1|3|3|4\n".to_vec(),
            b"0xFE, 0xFF, 0xFE, 0x91, 0x01, 0x00, 0x02, 0x03, 0x04, ".to_vec(),
            Outgoing::Frame { strip: 1, frame: [0xFF, 0xBB, 1, 0, 2, 3, 4] }
        )
    );
    assert_eq!(manager.state.recorder.last_call_ms, 1400);
    assert!(!manager.state.workers_spawned);
    assert!(manager.state.led_thread_channels.is_empty());
}

#[test]
fn unset_queueing_means_direct_dispatch() {
    let mut manager = ManagerData::new(config(1, None));
    let dispatch = direct(set_color(&mut manager, 5, NO_MARKERS, 7, 1, 2, 3));
    assert_eq!(dispatch, (vec![], vec![], Outgoing::Datagram { packet: [7, 0, 1, 2, 3] }));
}

#[test]
fn markers_control_recording_where_the_configuration_says_so() {
    let mut conf = config(1, Some(false));
    conf.led.unity_controls_recording = true;
    conf.record_data = true;
    let mut manager = ManagerData::new(conf);
    set_color(&mut manager, 0, NO_MARKERS, 0, 0, 0, 0);
    let (text, bytes, _) = direct(set_color(&mut manager, 10, NO_MARKERS, 0, 0, 0, 0));
    assert!(text.is_empty() && bytes.is_empty());
    let on = set_color(&mut manager, 30, Formats { text: false, bytes: true }, 2, 0, 0, 9);
    let (text, bytes, _) = direct(on);
    assert!(text.is_empty());
    assert_eq!(bytes, b"0xFE, 0x14, 0x02, 0x00, 0x00, 0x00, 0x09, ".to_vec());
}

fn spawn(manager: &mut ManagerData) -> (Vec<crossbeam_channel::Receiver<Task>>, usize) {
    match set_color(manager, 0, NO_MARKERS, 250, 1, 2, 3) {
        Dispatch::SpawnWorkers { queues, queue_size } => (queues, queue_size),
        other => panic!("unexpected {:?}", other),
    }
}

fn task(index: u16, r: u8, g: u8, b: u8) -> Task {
    Task { command: (index, r, g, b), controller_queue_length: None }
}

#[test]
fn first_queued_command_makes_the_queues() {
    let mut manager = ManagerData::new(config(2, Some(true)));
    let (queues, queue_size) = spawn(&mut manager);
    assert_eq!(queues.len(), 3);
    assert_eq!(queue_size, 20);
    assert!(manager.state.workers_spawned);
    assert_eq!(manager.state.led_thread_channels.len(), 3);
    assert!(!manager.state.recorder.started);
    for queue in &queues {
        assert_eq!(queue.capacity(), Some(20));
        assert!(queue.is_empty());
    }
}

#[test]
fn queued_commands_reach_the_queue_of_their_strip_in_order() {
    let mut manager = ManagerData::new(config(2, Some(true)));
    let (queues, _) = spawn(&mut manager);
    for (n, r) in [(250u16, 1u8), (0, 2), (299, 3), (100, 4), (99, 5)] {
        match set_color(&mut manager, 1, NO_MARKERS, n, r, 0, 0) {
            Dispatch::Enqueued { delivered, .. } => assert!(delivered),
            other => panic!("unexpected {:?}", other),
        }
    }
    let drain = |i: usize| -> Vec<Task> { queues[i].try_iter().collect() };
    assert_eq!(drain(0), vec![task(0, 2, 0, 0), task(99, 5, 0, 0)]);
    assert_eq!(drain(1), vec![task(0, 4, 0, 0)]);
    assert_eq!(drain(2), vec![task(50, 1, 0, 0), task(99, 3, 0, 0)]);
}

#[test]
fn enqueued_reports_strip_and_task() {
    let mut manager = ManagerData::new(config(2, Some(true)));
    let (_queues, _) = spawn(&mut manager);
    match set_color(&mut manager, 1, NO_MARKERS, 250, 1, 2, 3) {
        Dispatch::Enqueued { strip, task: sent, delivered } => {
            assert_eq!(strip, 3);
            assert_eq!(sent, task(50, 1, 2, 3));
            assert!(delivered);
            assert_eq!(task_command(sent), ColorCommand { index: 50, r: 1, g: 2, b: 3 });
        }
        other => panic!("unexpected {:?}", other),
    }
    assert!(matches!(set_color(&mut manager, 3, NO_MARKERS, 300, 4, 5, 6), Dispatch::Dropped));
}

#[test]
fn task_for_a_worker_that_is_gone_is_not_delivered() {
    let mut manager = ManagerData::new(config(2, Some(true)));
    let (queues, _) = spawn(&mut manager);
    drop(queues);
    match set_color(&mut manager, 1, NO_MARKERS, 250, 1, 2, 3) {
        Dispatch::Enqueued { strip, delivered, .. } => {
            assert_eq!(strip, 3);
            assert!(!delivered);
        }
        other => panic!("unexpected {:?}", other),
    }
}

#[test]
fn queue_size_is_taken_from_the_configuration() {
    let mut conf = config(2, Some(true));
    conf.queue_size = Some(64);
    let mut manager = ManagerData::new(conf);
    let (queues, queue_size) = spawn(&mut manager);
    assert_eq!(queue_size, 64);
    assert_eq!(queues[0].capacity(), Some(64));
}

#[test]
fn led_state_counts_failures_and_queue_lengths() {
    let mut state = LedState::new();
    assert_eq!(state.note_reply(3, UdpReply::TimedOut), Verdict::Resend);
    assert_eq!(state.note_reply(3, UdpReply::TimedOut), Verdict::Resend);
    assert_eq!(state.failures, 2);
    assert_eq!(state.note_reply(3, UdpReply::Ack), Verdict::Continue);
    assert_eq!(state.failures, 0);
    assert_eq!(state.note_reply(3, UdpReply::TimedOut), Verdict::Resend);
    assert_eq!(state.note_reply(3, UdpReply::TimedOut), Verdict::Resend);
    assert_eq!(state.note_reply(3, UdpReply::TimedOut), Verdict::Terminate);
    assert_eq!(state.failures, 3);
    state.note_queue_length(4);
    state.note_queue_length(6);
    assert_eq!(state.queue_lengths, vec![4, 6]);
    assert_eq!(state.failures, 3);
}

#[test]
fn queue_size_has_a_limit() {
    let mut conf = config(2, Some(true));
    conf.queue_size = Some(MAX_QUEUE_SIZE + 1);
    let mut manager = ManagerData::new(conf);
    for _ in 0..2 {
        match set_color(&mut manager, 0, NO_MARKERS, 1, 2, 3, 4) {
            Dispatch::QueueTooLong { queue_size } => assert_eq!(queue_size, MAX_QUEUE_SIZE + 1),
            other => panic!("unexpected {:?}", other),
        }
        assert!(!manager.state.workers_spawned);
        assert!(manager.state.led_thread_channels.is_empty());
    }
    let mut direct = config(2, Some(false));
    direct.queue_size = Some(MAX_QUEUE_SIZE + 1);
    let mut manager = ManagerData::new(direct);
    assert!(matches!(
        set_color(&mut manager, 0, NO_MARKERS, 1, 2, 3, 4),
        Dispatch::Direct { .. }
    ));
}

#[test]
fn queue_of_no_length_hands_tasks_over_directly() {
    let mut conf = config(2, Some(true));
    conf.queue_size = Some(0);
    let mut manager = ManagerData::new(conf);
    let (queues, queue_size) = spawn(&mut manager);
    assert_eq!(queue_size, 0);
    assert_eq!(queues[2].capacity(), Some(0));
}
