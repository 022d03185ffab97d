//! What is recorded in the text log is what playing the log back sends.

use crate::playback::{
    color_of_fields, dispatched, events_of, line_event, log_events, log_lines, strip_return,
    LogError, PlaybackEvent,
};
use crate::recorder::{
    avoid_reserved, color_line, delay_line, text_record, DELAY_COLON, DELAY_LETTER,
    FIELD_SEPARATOR, LINE_END,
};
use crate::text::{
    all_digits, decimal, fields, is_digit, lemma_decimal_number_in, lemma_decimal_reads_back,
    lemma_fields_extend, lemma_fields_separator,
};
use crate::wire::ColorCommand;
use vstd::prelude::*;

verus! {

/// A command as it reaches the recorder: the milliseconds since the command
/// before, and the command.
#[derive(Clone, Copy, Debug, PartialEq, Eq)]
pub struct Step {
    pub elapsed: u64,
    pub command: ColorCommand,
}

/// The text log after a run of commands.
pub open spec fn recorded_text(steps: Seq<Step>) -> Seq<u8>
    decreases steps.len(),
{
    if steps.len() == 0 {
        Seq::<u8>::empty()
    } else {
        recorded_text(steps.drop_last()) + text_record(
            steps.last().elapsed as nat,
            steps.last().command,
        )
    }
}

/// The events that playing back the log of a run of commands gives: for
/// each command that was recorded its delay, then the command as written.
pub open spec fn replayed(steps: Seq<Step>) -> Seq<PlaybackEvent>
    decreases steps.len(),
{
    if steps.len() == 0 {
        Seq::<PlaybackEvent>::empty()
    } else if steps.last().elapsed >= 1 {
        replayed(steps.drop_last()).push(PlaybackEvent::Delay { millis: steps.last().elapsed }).push(
            PlaybackEvent::Show { command: avoid_reserved(steps.last().command) },
        )
    } else {
        replayed(steps.drop_last())
    }
}

/// The commands of a run that the log keeps, as written: those that did
/// not follow the command before within the same millisecond.
pub open spec fn kept_commands(steps: Seq<Step>) -> Seq<ColorCommand>
    decreases steps.len(),
{
    if steps.len() == 0 {
        Seq::<ColorCommand>::empty()
    } else if steps.last().elapsed >= 1 {
        kept_commands(steps.drop_last()).push(avoid_reserved(steps.last().command))
    } else {
        kept_commands(steps.drop_last())
    }
}

/// The lines of the log of a run of commands, without their line ends.
pub open spec fn recorded_lines(steps: Seq<Step>) -> Seq<Seq<u8>>
    decreases steps.len(),
{
    if steps.len() == 0 {
        Seq::<Seq<u8>>::empty()
    } else if steps.last().elapsed >= 1 {
        recorded_lines(steps.drop_last()).push(delay_body(steps.last().elapsed as nat)).push(
            color_body(avoid_reserved(steps.last().command)),
        )
    } else {
        recorded_lines(steps.drop_last())
    }
}

/// A delay line without its line end.
pub open spec fn delay_body(elapsed: nat) -> Seq<u8> {
    seq![DELAY_LETTER, DELAY_COLON] + decimal(elapsed)
}

/// A color line without its line end.
pub open spec fn color_body(command: ColorCommand) -> Seq<u8> {
    decimal(command.index as nat).push(FIELD_SEPARATOR) + decimal(command.r as nat) + seq![
        FIELD_SEPARATOR,
    ] + decimal(command.g as nat) + seq![FIELD_SEPARATOR] + decimal(command.b as nat)
}

/// A text of digits holds no byte that is not a digit.
proof fn lemma_digits_lack(text: Seq<u8>, byte: u8)
    requires
        all_digits(text),
        !is_digit(byte),
    ensures
        !text.contains(byte),
{
}

/// A text without the separator is one field.
proof fn lemma_fields_single(field: Seq<u8>, separator: u8)
    requires
        !field.contains(separator),
    ensures
        fields(field, separator) == seq![field],
{
    let nothing = Seq::<u8>::empty();
    lemma_fields_extend(nothing, field, separator);
    assert(nothing + field =~= field);
    assert(fields(nothing, separator) =~= seq![nothing]);
    assert(seq![nothing].drop_last().push(nothing + field) =~= seq![field]);
}

/// A separator and a text without it add one field.
proof fn lemma_fields_append(text: Seq<u8>, field: Seq<u8>, separator: u8)
    requires
        !field.contains(separator),
    ensures
        fields(text.push(separator) + field, separator) == fields(text, separator).push(field),
{
    lemma_fields_separator(text, separator);
    lemma_fields_extend(text.push(separator), field, separator);
    let opened = fields(text, separator).push(Seq::<u8>::empty());
    assert(opened.drop_last() =~= fields(text, separator));
    assert(opened.last() + field =~= field);
}

/// A line that follows complete lines adds itself to them.
proof fn lemma_lines_append(log: Seq<u8>, lines: Seq<Seq<u8>>, body: Seq<u8>)
    requires
        fields(log, LINE_END) == lines.push(Seq::<u8>::empty()),
        !body.contains(LINE_END),
    ensures
        fields(log + body.push(LINE_END), LINE_END) == lines.push(body).push(Seq::<u8>::empty()),
{
    lemma_fields_extend(log, body, LINE_END);
    lemma_fields_separator(log + body, LINE_END);
    let opened = lines.push(Seq::<u8>::empty());
    assert(opened.drop_last() =~= lines);
    assert(opened.last() + body =~= body);
    assert((log + body).push(LINE_END) =~= log + body.push(LINE_END));
}

/// A delay line reads back as its delay.
pub proof fn lemma_delay_line_reads_back(elapsed: u64)
    ensures
        delay_line(elapsed as nat) == delay_body(elapsed as nat).push(LINE_END),
        !delay_body(elapsed as nat).contains(LINE_END),
        strip_return(delay_body(elapsed as nat)) == delay_body(elapsed as nat),
        line_event(delay_body(elapsed as nat)) == Ok::<PlaybackEvent, crate::playback::ParseError>(
            PlaybackEvent::Delay { millis: elapsed },
        ),
{
    let number = decimal(elapsed as nat);
    let body = delay_body(elapsed as nat);
    lemma_decimal_reads_back(elapsed as nat);
    lemma_decimal_number_in(elapsed as nat, 0xFFFF_FFFF_FFFF_FFFF);
    assert(delay_line(elapsed as nat) =~= body.push(LINE_END));
    assert(body.skip(2) =~= number);
    assert(body[0] == DELAY_LETTER && body[1] == DELAY_COLON);
    assert forall|i: int| 0 <= i < body.len() implies body[i] != LINE_END && body[i]
        != FIELD_SEPARATOR && (i >= 2 ==> is_digit(body[i])) by {
        if i >= 2 {
            assert(body[i] == number[i - 2]);
        }
    }
    assert(is_digit(body.last())) by {
        assert(body.last() == body[body.len() - 1]);
    }
}

/// A color line reads back as its command.
pub proof fn lemma_color_line_reads_back(command: ColorCommand)
    ensures
        color_line(command) == color_body(command).push(LINE_END),
        !color_body(command).contains(LINE_END),
        strip_return(color_body(command)) == color_body(command),
        line_event(color_body(command)) == Ok::<PlaybackEvent, crate::playback::ParseError>(
            PlaybackEvent::Show { command },
        ),
{
    let index = decimal(command.index as nat);
    let r = decimal(command.r as nat);
    let g = decimal(command.g as nat);
    let b = decimal(command.b as nat);
    let bar = FIELD_SEPARATOR;
    let body = color_body(command);
    lemma_decimal_reads_back(command.index as nat);
    lemma_decimal_reads_back(command.r as nat);
    lemma_decimal_reads_back(command.g as nat);
    lemma_decimal_reads_back(command.b as nat);
    lemma_decimal_number_in(command.index as nat, 0xFFFF);
    lemma_decimal_number_in(command.r as nat, 0xFF);
    lemma_decimal_number_in(command.g as nat, 0xFF);
    lemma_decimal_number_in(command.b as nat, 0xFF);
    lemma_digits_lack(index, bar);
    lemma_digits_lack(r, bar);
    lemma_digits_lack(g, bar);
    lemma_digits_lack(b, bar);
    assert(color_line(command) =~= body.push(LINE_END));

    let first = index;
    let second = first.push(bar) + r;
    let third = second.push(bar) + g;
    let fourth = third.push(bar) + b;
    lemma_fields_single(first, bar);
    lemma_fields_append(first, r, bar);
    lemma_fields_append(second, g, bar);
    lemma_fields_append(third, b, bar);
    assert(fourth =~= body);
    let parts = fields(body, bar);
    assert(parts =~= seq![index, r, g, b]);
    assert(color_of_fields(parts) == Some(command));

    assert(body[0] == index[0]);
    assert(is_digit(index[0]));
    assert(body[index.len() as int] == bar);
    assert(body.last() == b.last());
    assert(is_digit(b[b.len() - 1]));
    assert forall|i: int| 0 <= i < body.len() implies body[i] != LINE_END by {
        if i < index.len() {
            assert(body[i] == index[i]);
        } else if i == index.len() {
        } else if i < index.len() + 1 + r.len() {
            assert(body[i] == r[i - index.len() - 1]);
        } else if i == index.len() + 1 + r.len() {
        } else if i < index.len() + 1 + r.len() + 1 + g.len() {
            assert(body[i] == g[i - index.len() - 1 - r.len() - 1]);
        } else if i == index.len() + 1 + r.len() + 1 + g.len() {
        } else {
            assert(body[i] == b[i - index.len() - 1 - r.len() - 1 - g.len() - 1]);
        }
    }
}

/// The log of a run of commands is made of the lines recorded for them.
proof fn lemma_recorded_lines(steps: Seq<Step>)
    ensures
        fields(recorded_text(steps), LINE_END) == recorded_lines(steps).push(Seq::<u8>::empty()),
        forall|i: int|
            0 <= i < recorded_lines(steps).len() ==> strip_return(
                #[trigger] recorded_lines(steps)[i],
            ) == recorded_lines(steps)[i],
        events_of(recorded_lines(steps)) == Ok::<Seq<PlaybackEvent>, LogError>(replayed(steps)),
    decreases steps.len(),
{
    if steps.len() == 0 {
        assert(fields(recorded_text(steps), LINE_END) =~= recorded_lines(steps).push(
            Seq::<u8>::empty(),
        ));
    } else {
        let before = steps.drop_last();
        let last = steps.last();
        lemma_recorded_lines(before);
        if last.elapsed >= 1 {
            let written = avoid_reserved(last.command);
            let delay = delay_body(last.elapsed as nat);
            let color = color_body(written);
            lemma_delay_line_reads_back(last.elapsed);
            lemma_color_line_reads_back(written);
            let log = recorded_text(before);
            lemma_lines_append(log, recorded_lines(before), delay);
            lemma_lines_append(
                log + delay.push(LINE_END),
                recorded_lines(before).push(delay),
                color,
            );
            assert(recorded_text(steps) =~= (log + delay.push(LINE_END)) + color.push(LINE_END));
            let lines = recorded_lines(steps);
            let middle = recorded_lines(before).push(delay);
            assert(lines.drop_last() =~= middle);
            assert(middle.drop_last() =~= recorded_lines(before));
            assert(events_of(middle) == Ok::<Seq<PlaybackEvent>, LogError>(
                replayed(before).push(PlaybackEvent::Delay { millis: last.elapsed }),
            ));
        } else {
            assert(recorded_text(steps) =~= recorded_text(before));
        }
    }
}

/// The commands sent by the events of a recorded run are the commands that
/// the log kept.
proof fn lemma_replayed_commands(steps: Seq<Step>)
    ensures
        dispatched(replayed(steps)) == kept_commands(steps),
    decreases steps.len(),
{
    if steps.len() > 0 {
        let before = steps.drop_last();
        lemma_replayed_commands(before);
        if steps.last().elapsed >= 1 {
            let delayed = replayed(before).push(
                PlaybackEvent::Delay { millis: steps.last().elapsed },
            );
            assert(delayed.drop_last() =~= replayed(before));
            assert(dispatched(delayed) == dispatched(replayed(before)));
            assert(replayed(steps).drop_last() =~= delayed);
            assert(dispatched(replayed(steps)) == dispatched(delayed).push(
                avoid_reserved(steps.last().command),
            ));
        }
    }
}

/// Recording a run of commands to the text log and playing the log back
/// gives, for each command that was recorded, its delay and then the
/// command as written: the reserved command with its red raised by one,
/// every other command unchanged. A command that follows the one before
/// within the same millisecond is not recorded, and so not sent.
pub proof fn lemma_playback_follows_recording(steps: Seq<Step>)
    ensures
        log_events(recorded_text(steps)) == Ok::<Seq<PlaybackEvent>, LogError>(replayed(steps)),
        dispatched(replayed(steps)) == kept_commands(steps),
{
    lemma_recorded_lines(steps);
    lemma_replayed_commands(steps);
    let log = recorded_text(steps);
    let lines = recorded_lines(steps);
    let pieces = fields(log, LINE_END);
    assert(pieces.drop_last() =~= lines);
    assert(log_lines(log) =~= lines);
}

/// Where no command follows the one before within the same millisecond,
/// playing the log back sends every command of the run, in order, as
/// written.
pub proof fn lemma_round_trip(steps: Seq<Step>)
    requires
        forall|i: int| 0 <= i < steps.len() ==> (#[trigger] steps[i]).elapsed >= 1,
    ensures
        log_events(recorded_text(steps)) == Ok::<Seq<PlaybackEvent>, LogError>(replayed(steps)),
        dispatched(replayed(steps)) == Seq::new(
            steps.len(),
            |i: int| avoid_reserved(steps[i].command),
        ),
{
    lemma_playback_follows_recording(steps);
    lemma_all_kept(steps);
}

/// Where every command is recorded, the log keeps them all.
proof fn lemma_all_kept(steps: Seq<Step>)
    requires
        forall|i: int| 0 <= i < steps.len() ==> (#[trigger] steps[i]).elapsed >= 1,
    ensures
        kept_commands(steps) == Seq::new(steps.len(), |i: int| avoid_reserved(steps[i].command)),
    decreases steps.len(),
{
    if steps.len() > 0 {
        let before = steps.drop_last();
        assert forall|i: int| 0 <= i < before.len() implies (#[trigger] before[i]).elapsed
            >= 1 by {
            assert(before[i] == steps[i]);
        }
        lemma_all_kept(before);
        assert(steps.last() == steps[steps.len() - 1]);
    }
    assert(kept_commands(steps) =~= Seq::new(
        steps.len(),
        |i: int| avoid_reserved(steps[i].command),
    ));
}

} // verus!
