//! Random commands for measuring how fast a device takes them.

use crate::wire::ColorCommand;
use vstd::prelude::*;

verus! {

/// The generator of random numbers that belongs to the calling thread.
#[verifier::external_type_specification]
#[verifier::external_body]
pub struct ExThreadRng(rand::rngs::ThreadRng);

/// Calls `rand::Rng::gen_range` with the range from zero up to, and
/// without, `bound`. The library panics on an empty range, so a bound of
/// zero is left out; what it returns lies in the range.
#[verifier::external_body]
fn random_below(generator: &mut rand::rngs::ThreadRng, bound: u16) -> (value: u16)
    requires
        bound > 0,
    ensures
        value < bound,
{
    rand::Rng::gen_range(generator, 0..bound)
}

/// The number of LEDs as the index of a command can count them: the low
/// sixteen bits.
pub open spec fn index_bound(num_led: u32) -> u16 {
    (num_led % 0x1_0000) as u16
}

/// Whether a command may come out of a test on `num_led` LEDs: its index
/// is below the number of LEDs, and no channel is fully lit.
pub open spec fn is_test_command(num_led: u32, command: ColorCommand) -> bool {
    &&& command.index < index_bound(num_led)
    &&& command.r < 255
    &&& command.g < 255
    &&& command.b < 255
}

/// Draws a random command for one of `num_led` LEDs; `None` where there
/// is no LED to pick.
pub fn random_command(generator: &mut rand::rngs::ThreadRng, num_led: u32) -> (command: Option<
    ColorCommand,
>)
    ensures
        command is None <==> index_bound(num_led) == 0,
        command matches Some(drawn) ==> is_test_command(num_led, drawn),
{
    let bound: u16 = (num_led % 0x1_0000) as u16;
    if bound == 0 {
        return None;
    }
    let index = random_below(generator, bound);
    let r = random_below(generator, 255);
    let g = random_below(generator, 255);
    let b = random_below(generator, 255);
    Some(ColorCommand { index, r: r as u8, g: g as u8, b: b as u8 })
}

/// The commands that switch off the first `num_led` LEDs, in order.
pub open spec fn all_dark(num_led: u32) -> Seq<ColorCommand> {
    Seq::new(
        num_led as nat,
        |i: int| ColorCommand { index: (i % 0x1_0000) as u16, r: 0, g: 0, b: 0 },
    )
}

/// Builds the commands that switch off the first `num_led` LEDs. An index
/// holds sixteen bits: past 65535 the count starts again at zero.
pub fn clear_commands(num_led: u32) -> (commands: Vec<ColorCommand>)
    ensures
        commands@ == all_dark(num_led),
{
    let mut commands: Vec<ColorCommand> = Vec::new();
    let mut n: u32 = 0;
    while n < num_led
        invariant
            n <= num_led,
            commands@.len() == n,
            forall|i: int| 0 <= i < n ==> commands@[i] == all_dark(num_led)[i],
        decreases num_led - n,
    {
        commands.push(ColorCommand { index: (n % 0x1_0000) as u16, r: 0, g: 0, b: 0 });
        n = n + 1;
    }
    assert(commands@ =~= all_dark(num_led));
    commands
}

} // verus!
