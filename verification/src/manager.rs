//! The device manager: the one place where a color command is turned into
//! what is recorded and what is sent.

use crate::recorder::{
    byte_record, elapsed_since, hex_listing, remembered_after, text_record, Formats, Recorder,
};
use crate::routing::{resolve_strip, routable, routed, strip_address};
use crate::transport::{failure_step, udp_step, UdpReply, Verdict};
use crate::wire::{datagram, datagram_bytes, serial_frame, serial_frame_bytes, ColorCommand};
use vstd::prelude::*;

verus! {

/// The length of a worker's queue where the configuration names none.
pub const DEFAULT_QUEUE_SIZE: usize = 20;

/// The longest queue that can be made.
pub const MAX_QUEUE_SIZE: usize = 0x3FFF_FFFF;

/// The number that the configuration gives to the datagram transport; every
/// other number means the serial transport.
pub const MODE_UDP: i8 = 1;

/// The sending end of a worker's queue.
#[verifier::external_type_specification]
#[verifier::external_body]
#[verifier::reject_recursive_types(T)]
pub struct ExSender<T>(crossbeam_channel::Sender<T>);

/// The receiving end of a worker's queue.
#[verifier::external_type_specification]
#[verifier::external_body]
#[verifier::reject_recursive_types(T)]
pub struct ExReceiver<T>(crossbeam_channel::Receiver<T>);

/// What a worker is handed: a command whose index is local to the worker's
/// strip, and room for the queue depth that the controller reports.
#[derive(Clone, Copy, Debug, PartialEq, Eq)]
pub struct Task {
    pub command: (u16, u8, u8, u8),
    pub controller_queue_length: Option<u8>,
}

/// What a sender of commands needs to know of the configuration.
#[derive(Clone, Copy, Debug, PartialEq, Eq)]
pub struct LedConfig {
    pub skip_confirmation: Option<bool>,
    pub unity_controls_recording: bool,
    pub no_controller: Option<bool>,
    pub port: i32,
    pub communication_mode: i8,
    pub num_led: u32,
    pub num_strips: u32,
    pub serial_read_timeout: Option<u32>,
    pub udp_read_timeout: Option<u32>,
    pub con_fail_limit: Option<u32>,
    pub print_send_back: Option<bool>,
}

/// The configuration of one run; it does not change while the run lasts.
#[derive(Clone, Copy, Debug, PartialEq, Eq)]
pub struct RuntimeConfig {
    pub led: LedConfig,
    pub record_data: bool,
    pub record_esp_data: bool,
    pub use_queue: Option<bool>,
    pub queue_size: Option<usize>,
}

/// What a sender remembers of the replies: the failures in a row, and the
/// queue depths that the controller reported.
#[derive(Debug, PartialEq, Eq)]
pub struct LedState {
    pub failures: u32,
    pub queue_lengths: Vec<u8>,
}

/// What the manager remembers between commands.
#[derive(Debug)]
pub struct ManagerState {
    pub recorder: Recorder,
    pub led_state: LedState,
    /// Whether the queues of the queued mode have been made.
    pub workers_spawned: bool,
    /// The sending ends of the workers' queues: the queue of strip `s`,
    /// counted from 1, stands at `s - 1`.
    pub led_thread_channels: Vec<crossbeam_channel::Sender<Task>>,
}

/// The manager: configuration and state.
#[derive(Debug)]
pub struct ManagerData {
    pub config: RuntimeConfig,
    pub state: ManagerState,
}

/// The two transports.
#[derive(Clone, Copy, Debug, PartialEq, Eq, Structural)]
pub enum Transport {
    Udp,
    Serial,
}

/// What goes on the wire for a command that is sent at once.
#[derive(Clone, Copy, Debug, PartialEq, Eq)]
pub enum Outgoing {
    /// No controller is attached: nothing is sent.
    Nothing,
    /// A datagram, which carries the index as it was given.
    Datagram { packet: [u8; 5] },
    /// A frame for the serial line of `strip`, which carries the local index.
    Frame { strip: u32, frame: [u8; 7] },
}

/// What was done for one command, and what is left for the caller to do.
#[derive(Debug)]
pub enum Dispatch {
    /// Add `text` and `bytes` to the two logs, then send.
    Direct { text: Vec<u8>, bytes: Vec<u8>, send: Outgoing },
    /// The queues were made, each for `queue_size` tasks: start one worker
    /// for each strip and hand it the receiving end of its queue; the end
    /// for strip `s`, counted from 1, stands at `s - 1`. The command itself
    /// is not sent.
    SpawnWorkers { queues: Vec<crossbeam_channel::Receiver<Task>>, queue_size: usize },
    /// The task was put on the queue of the worker of `strip`, after
    /// waiting where the queue was full. `delivered` is false where the
    /// worker is gone.
    Enqueued { strip: u32, task: Task, delivered: bool },
    /// No strip with a queue owns the index: the command is dropped.
    Dropped,
    /// The configuration asks for queues longer than `MAX_QUEUE_SIZE`: none
    /// was made.
    QueueTooLong { queue_size: usize },
}

/// The transport that the configuration selects.
pub open spec fn transport_of(mode: i8) -> Transport {
    if mode == MODE_UDP {
        Transport::Udp
    } else {
        Transport::Serial
    }
}

/// Whether commands go through the workers' queues.
pub open spec fn queued(config: RuntimeConfig) -> bool {
    config.use_queue == Some(true)
}

/// The logs that are written: those that the marker files ask for where
/// the recording is controlled from outside, else the configured ones.
pub open spec fn formats_of(config: RuntimeConfig, markers: Formats) -> Formats {
    if config.led.unity_controls_recording {
        markers
    } else {
        Formats { text: config.record_data, bytes: config.record_esp_data }
    }
}

/// Whether a command for the LED `index` can be sent at once: no
/// controller is attached, or the datagram transport is in use, or a strip
/// owns the LED, so that there is a serial line to send on.
pub open spec fn sendable(config: LedConfig, index: u16) -> bool {
    ||| config.no_controller == Some(true)
    ||| transport_of(config.communication_mode) == Transport::Udp
    ||| routable(config.num_led as nat, config.num_strips as nat, index as nat)
}

/// Whether `send` is what goes on the wire for `command`.
pub open spec fn is_outgoing(config: LedConfig, command: ColorCommand, send: Outgoing) -> bool {
    if config.no_controller == Some(true) {
        send is Nothing
    } else if transport_of(config.communication_mode) == Transport::Udp {
        send matches Outgoing::Datagram { packet } && packet@ == datagram_bytes(command)
    } else {
        match routed(config.num_led, config.num_strips, command.index) {
            Some(address) => send matches Outgoing::Frame { strip, frame } && strip
                == address.strip && frame@ == serial_frame_bytes(
                ColorCommand { index: address.local, r: command.r, g: command.g, b: command.b },
            ),
            None => false,
        }
    }
}

/// Whether `dispatch` is what the caller does for `command` on a manager
/// in the state `before`.
pub open spec fn is_dispatch(
    config: RuntimeConfig,
    before: ManagerState,
    now_ms: u64,
    markers: Formats,
    command: ColorCommand,
    dispatch: Dispatch,
) -> bool {
    if !queued(config) {
        let elapsed = elapsed_since(before.recorder, now_ms);
        let formats = formats_of(config, markers);
        dispatch matches Dispatch::Direct { text, bytes, send } && {
            &&& text@ == if formats.text {
                text_record(elapsed, command)
            } else {
                Seq::<u8>::empty()
            }
            &&& bytes@ == if formats.bytes {
                hex_listing(byte_record(elapsed, command))
            } else {
                Seq::<u8>::empty()
            }
            &&& is_outgoing(config.led, command, send)
        }
    } else if !before.workers_spawned {
        if queue_size_of(config) <= MAX_QUEUE_SIZE {
            dispatch matches Dispatch::SpawnWorkers { queues, queue_size } && queues@.len()
                == config.led.num_strips && queue_size == queue_size_of(config)
        } else {
            dispatch matches Dispatch::QueueTooLong { queue_size } && queue_size == queue_size_of(
                config,
            )
        }
    } else {
        match queue_address(config, before, command.index) {
            Some(address) => dispatch matches Dispatch::Enqueued { strip, task, delivered }
                && strip == address.strip && task == task_for(address.local, command),
            None => dispatch is Dropped,
        }
    }
}

/// The length of a worker's queue.
pub open spec fn queue_size_of(config: RuntimeConfig) -> usize {
    match config.queue_size {
        Some(size) => size,
        None => DEFAULT_QUEUE_SIZE,
    }
}

/// The task that carries a command to the worker of the strip on which its
/// LED has the index `local`.
pub open spec fn task_for(local: u16, command: ColorCommand) -> Task {
    Task { command: (local, command.r, command.g, command.b), controller_queue_length: None }
}

/// The address of an LED whose strip has a queue.
pub open spec fn queue_address(config: RuntimeConfig, state: ManagerState, index: u16) -> Option<
    crate::routing::StripAddress,
> {
    match routed(config.led.num_led, config.led.num_strips, index) {
        Some(address) => if address.strip <= state.led_thread_channels@.len() {
            Some(address)
        } else {
            None
        },
        None => None,
    }
}

/// The state of the manager after a command.
///
/// A command that is sent at once moves the recorder's time. The first
/// command of the queued mode makes one queue for each strip and keeps
/// their sending ends, unless the queues are to be too long. Nothing else
/// changes.
pub open spec fn state_after(
    config: RuntimeConfig,
    before: ManagerState,
    now_ms: u64,
    after: ManagerState,
) -> bool {
    &&& after.led_state == before.led_state
    &&& if !queued(config) {
        &&& after.workers_spawned == before.workers_spawned
        &&& after.led_thread_channels == before.led_thread_channels
        &&& after.recorder.started
        &&& after.recorder.last_call_ms == remembered_after(before.recorder, now_ms)
    } else if !before.workers_spawned && queue_size_of(config) <= MAX_QUEUE_SIZE {
        &&& after.workers_spawned
        &&& after.led_thread_channels@.len() == config.led.num_strips
        &&& after.recorder == before.recorder
    } else {
        &&& after.workers_spawned == before.workers_spawned
        &&& after.led_thread_channels == before.led_thread_channels
        &&& after.recorder == before.recorder
    }
}

/// Calls `crossbeam_channel::bounded`, which makes a queue that holds at
/// most `size` tasks and hands back its two ends. The library panics where
/// it cannot count twice the next power of two above the size, so such
/// sizes are left out. Nothing is claimed of the ends.
#[verifier::external_body]
fn open_queue(size: usize) -> (ends: (
    crossbeam_channel::Sender<Task>,
    crossbeam_channel::Receiver<Task>,
))
    requires
        size <= MAX_QUEUE_SIZE,
{
    crossbeam_channel::bounded(size)
}

/// Calls `Sender::send`, which waits while the queue is full and gives up
/// where the receiving end is gone. Whether the task was taken depends on
/// the other end, so nothing is claimed of the answer.
#[verifier::external_body]
fn send_task(queue: &crossbeam_channel::Sender<Task>, task: Task) -> (delivered: bool) {
    queue.send(task).is_ok()
}

/// Picks the transport that the configuration selects.
pub fn transport(config: &LedConfig) -> (kind: Transport)
    ensures
        kind == transport_of(config.communication_mode),
{
    if config.communication_mode == MODE_UDP {
        Transport::Udp
    } else {
        Transport::Serial
    }
}

/// Builds what goes on the wire for a command that is sent at once.
pub fn outgoing(config: &LedConfig, command: ColorCommand) -> (send: Outgoing)
    requires
        sendable(*config, command.index),
    ensures
        is_outgoing(*config, command, send),
{
    match config.no_controller {
        Some(true) => {
            return Outgoing::Nothing;
        },
        _ => {},
    }
    match transport(config) {
        Transport::Udp => Outgoing::Datagram { packet: datagram(command) },
        Transport::Serial => {
            let address = strip_address(config.num_led, config.num_strips, command.index);
            Outgoing::Frame {
                strip: address.strip,
                frame: serial_frame(
                    ColorCommand {
                        index: address.local,
                        r: command.r,
                        g: command.g,
                        b: command.b,
                    },
                ),
            }
        },
    }
}

impl LedState {
    /// The state of a sender that has sent nothing yet.
    pub fn new() -> (state: LedState)
        ensures
            state.failures == 0,
            state.queue_lengths@.len() == 0,
    {
        LedState { failures: 0, queue_lengths: Vec::new() }
    }

    /// Takes note of the reply to a datagram and tells what to do next.
    pub fn note_reply(&mut self, limit: u32, reply: UdpReply) -> (verdict: Verdict)
        ensures
            final(self).failures == failure_step(old(self).failures, limit, reply).failures,
            verdict == failure_step(old(self).failures, limit, reply).verdict,
            final(self).queue_lengths@ == old(self).queue_lengths@,
    {
        let step = udp_step(self.failures, limit, reply);
        self.failures = step.failures;
        step.verdict
    }

    /// Takes note of a queue depth that the controller reported.
    pub fn note_queue_length(&mut self, depth: u8)
        ensures
            final(self).failures == old(self).failures,
            final(self).queue_lengths@ == old(self).queue_lengths@.push(depth),
    {
        self.queue_lengths.push(depth);
    }
}

impl ManagerData {
    /// A manager before its first command.
    pub fn new(config: RuntimeConfig) -> (manager: ManagerData)
        ensures
            manager.config == config,
            !manager.state.recorder.started,
            !manager.state.workers_spawned,
            manager.state.led_thread_channels@.len() == 0,
            manager.state.led_state.failures == 0,
            manager.state.led_state.queue_lengths@.len() == 0,
    {
        ManagerData {
            config,
            state: ManagerState {
                recorder: Recorder::new(),
                led_state: LedState::new(),
                workers_spawned: false,
                led_thread_channels: Vec::new(),
            },
        }
    }
}

/// Decides what is done for the command that sets LED `n` to a color.
///
/// `now_ms` is the time of the call in milliseconds of the caller's clock.
/// `markers` tells which of the two marker files exist; it counts only
/// where the recording is controlled from outside.
///
/// Without queueing the command is recorded and what is to be sent is
/// handed back; the LED must then be one that can be sent to, see
/// `sendable`. With queueing the first command makes the queues, for the
/// caller to start the workers, and every later one is put on the queue of
/// the strip that owns the LED; a full queue makes the call wait, so that a
/// stalled strip holds the caller back and the backlog stays bounded.
pub fn set_color(manager: &mut ManagerData, now_ms: u64, markers: Formats, n: u16, r: u8, g: u8, b: u8)
    -> (dispatch: Dispatch)
    requires
        queued(old(manager).config) || sendable(old(manager).config.led, n),
    ensures
        final(manager).config == old(manager).config,
        is_dispatch(
            old(manager).config,
            old(manager).state,
            now_ms,
            markers,
            ColorCommand { index: n, r, g, b },
            dispatch,
        ),
        state_after(old(manager).config, old(manager).state, now_ms, final(manager).state),
{
    let command = ColorCommand { index: n, r, g, b };
    let use_queue: bool = match manager.config.use_queue {
        Some(true) => true,
        _ => false,
    };
    if !use_queue {
        let formats = if manager.config.led.unity_controls_recording {
            markers
        } else {
            Formats { text: manager.config.record_data, bytes: manager.config.record_esp_data }
        };
        let added = manager.state.recorder.maybe_record(formats, now_ms, command);
        let send = outgoing(&manager.config.led, command);
        Dispatch::Direct { text: added.text, bytes: added.bytes, send }
    } else if !manager.state.workers_spawned {
        let queue_size: usize = match manager.config.queue_size {
            Some(size) => size,
            None => DEFAULT_QUEUE_SIZE,
        };
        if queue_size > MAX_QUEUE_SIZE {
            return Dispatch::QueueTooLong { queue_size };
        }
        let num_strips: u32 = manager.config.led.num_strips;
        let mut senders: Vec<crossbeam_channel::Sender<Task>> = Vec::new();
        let mut queues: Vec<crossbeam_channel::Receiver<Task>> = Vec::new();
        let mut made: u32 = 0;
        while made < num_strips
            invariant
                queue_size <= MAX_QUEUE_SIZE,
                made <= num_strips,
                senders@.len() == made,
                queues@.len() == made,
            decreases num_strips - made,
        {
            let (sender, receiver) = open_queue(queue_size);
            senders.push(sender);
            queues.push(receiver);
            made = made + 1;
        }
        manager.state.led_thread_channels = senders;
        manager.state.workers_spawned = true;
        Dispatch::SpawnWorkers { queues, queue_size }
    } else {
        match resolve_strip(manager.config.led.num_led, manager.config.led.num_strips, n) {
            Some(address) => {
                if address.strip as usize <= manager.state.led_thread_channels.len() {
                    let task = Task {
                        command: (address.local, r, g, b),
                        controller_queue_length: None,
                    };
                    let delivered = send_task(
                        &manager.state.led_thread_channels[(address.strip - 1) as usize],
                        task,
                    );
                    Dispatch::Enqueued { strip: address.strip, task, delivered }
                } else {
                    Dispatch::Dropped
                }
            },
            None => Dispatch::Dropped,
        }
    }
}

/// The command that a task carries.
pub fn task_command(task: Task) -> (command: ColorCommand)
    ensures
        task.command == (command.index, command.r, command.g, command.b),
{
    let (index, r, g, b) = task.command;
    ColorCommand { index, r, g, b }
}

} // verus!
