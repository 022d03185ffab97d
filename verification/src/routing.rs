//! Resolving a global LED index to the strip that owns it.

use vstd::prelude::*;

verus! {

/// The strip that owns an LED and the LED's position inside that strip.
#[derive(Clone, Copy, Debug, PartialEq, Eq, Structural)]
pub struct StripAddress {
    /// Strip number, counted from 1.
    pub strip: u32,
    /// Index sent over the wire: the position of the LED within its strip.
    pub local: u16,
}

/// How many LEDs each strip carries when `num_led` are divided evenly.
pub open spec fn leds_per_strip(num_led: nat, num_strips: nat) -> nat {
    if num_strips == 0 {
        0
    } else {
        num_led / num_strips
    }
}

/// Strip `strip` (counted from 1) owns the global indices
/// `[(strip - 1) * per_strip, strip * per_strip)`.
pub open spec fn strip_owns(per_strip: nat, strip: nat, index: nat) -> bool {
    strip >= 1 && (strip - 1) * per_strip <= index < strip * per_strip
}

/// The position inside strip `strip` of the LED with global index `index`.
pub open spec fn local_index(per_strip: nat, strip: nat, index: nat) -> int {
    index - (strip - 1) * per_strip
}

/// The indices that some strip owns are those below `num_strips * per_strip`.
pub open spec fn routable(num_led: nat, num_strips: nat, index: nat) -> bool {
    index < num_strips * leds_per_strip(num_led, num_strips)
}

/// The address of an index in closed form: the strip is the quotient by the
/// strip length, counted from 1, and the local index is the remainder.
pub open spec fn routed(num_led: u32, num_strips: u32, index: u16) -> Option<StripAddress> {
    let per = leds_per_strip(num_led as nat, num_strips as nat);
    if routable(num_led as nat, num_strips as nat, index as nat) {
        Some(
            StripAddress {
                strip: (index as nat / per + 1) as u32,
                local: (index as nat % per) as u16,
            },
        )
    } else {
        None
    }
}

/// No index belongs to two strips.
pub proof fn lemma_owner_unique(per_strip: nat, a: nat, b: nat, index: nat)
    requires
        strip_owns(per_strip, a, index),
        strip_owns(per_strip, b, index),
    ensures
        a == b,
{
    if a < b {
        assert(a * per_strip <= (b - 1) * per_strip) by (nonlinear_arith)
            requires
                a <= b - 1,
        ;
    } else if b < a {
        assert(b * per_strip <= (a - 1) * per_strip) by (nonlinear_arith)
            requires
                b <= a - 1,
        ;
    }
}

/// No strip up to `num_strips` owns an index at or past the end of the last
/// of them.
pub proof fn lemma_unowned(per_strip: nat, num_strips: nat, index: nat)
    requires
        index >= num_strips * per_strip,
    ensures
        forall|s: nat| 1 <= s <= num_strips ==> !strip_owns(per_strip, s, index),
{
    assert forall|s: nat| 1 <= s <= num_strips implies !strip_owns(per_strip, s, index) by {
        assert(s * per_strip <= num_strips * per_strip) by (nonlinear_arith)
            requires
                s <= num_strips,
        ;
    }
}

/// Finds the strip that owns `index` and the index local to that strip.
///
/// `None` means that no strip owns the index: it lies past the last LED that
/// an even division of `num_led` over `num_strips` reaches. Without strips no
/// index is owned.
pub fn resolve_strip(num_led: u32, num_strips: u32, index: u16) -> (result: Option<StripAddress>)
    ensures
        result == routed(num_led, num_strips, index),
        result is Some <==> routable(num_led as nat, num_strips as nat, index as nat),
        result matches Some(a) ==> {
            &&& 1 <= a.strip <= num_strips
            &&& strip_owns(
                leds_per_strip(num_led as nat, num_strips as nat),
                a.strip as nat,
                index as nat,
            )
            &&& a.local == local_index(
                leds_per_strip(num_led as nat, num_strips as nat),
                a.strip as nat,
                index as nat,
            )
            &&& a.local < leds_per_strip(num_led as nat, num_strips as nat)
        },
        result is None ==> forall|s: nat|
            1 <= s <= num_strips ==> !strip_owns(
                leds_per_strip(num_led as nat, num_strips as nat),
                s,
                index as nat,
            ),
{
    if num_strips == 0 {
        return None;
    }
    let per: u32 = num_led / num_strips;
    let wide: u32 = index as u32;
    if per == 0 {
        proof {
            assert(num_strips as nat * 0 == 0) by (nonlinear_arith);
            lemma_unowned(0, num_strips as nat, index as nat);
        }
        return None;
    }
    let zero_based: u32 = wide / per;
    let within: u32 = wide % per;
    proof {
        vstd::arithmetic::div_mod::lemma_fundamental_div_mod(wide as int, per as int);
        assert(per as int * (wide as int / per as int) == (wide as int / per as int) * per as int)
            by (nonlinear_arith);
    }
    if zero_based >= num_strips {
        proof {
            assert(num_strips as nat * per as nat <= zero_based as nat * per as nat)
                by (nonlinear_arith)
                requires
                    num_strips <= zero_based,
            ;
            lemma_unowned(per as nat, num_strips as nat, index as nat);
        }
        return None;
    }
    proof {
        assert((zero_based as nat + 1) * per as nat == zero_based as nat * per as nat + per as nat)
            by (nonlinear_arith);
        assert((zero_based as nat + 1) * per as nat <= num_strips as nat * per as nat)
            by (nonlinear_arith)
            requires
                zero_based + 1 <= num_strips,
        ;
    }
    Some(StripAddress { strip: zero_based + 1, local: within as u16 })
}

/// Gives the strip that owns `index` and the index local to that strip,
/// for an index that a strip owns.
pub fn strip_address(num_led: u32, num_strips: u32, index: u16) -> (address: StripAddress)
    requires
        routable(num_led as nat, num_strips as nat, index as nat),
    ensures
        routed(num_led, num_strips, index) == Some(address),
        1 <= address.strip <= num_strips,
        strip_owns(
            leds_per_strip(num_led as nat, num_strips as nat),
            address.strip as nat,
            index as nat,
        ),
        address.local == local_index(
            leds_per_strip(num_led as nat, num_strips as nat),
            address.strip as nat,
            index as nat,
        ),
        address.local < leds_per_strip(num_led as nat, num_strips as nat),
{
    proof {
        if num_strips == 0 || num_led / num_strips == 0 {
            assert(num_strips as nat * leds_per_strip(num_led as nat, num_strips as nat) == 0)
                by (nonlinear_arith)
                requires
                    num_strips == 0 || leds_per_strip(num_led as nat, num_strips as nat) == 0,
            ;
        }
    }
    let per: u32 = num_led / num_strips;
    let wide: u32 = index as u32;
    let zero_based: u32 = wide / per;
    let within: u32 = wide % per;
    proof {
        vstd::arithmetic::div_mod::lemma_fundamental_div_mod(wide as int, per as int);
        assert(per as int * (wide as int / per as int) == (wide as int / per as int) * per as int)
            by (nonlinear_arith);
        assert(zero_based < num_strips) by (nonlinear_arith)
            requires
                zero_based as nat * per as nat <= wide,
                wide < num_strips as nat * per as nat,
        ;
        assert((zero_based as nat + 1) * per as nat == zero_based as nat * per as nat + per as nat)
            by (nonlinear_arith);
    }
    StripAddress { strip: zero_based + 1, local: within as u16 }
}

/// Every index below `num_led` is routed when the LEDs divide evenly over the
/// strips: exactly one strip owns it, and the local index is the distance
/// from the start of that strip, smaller than the strip's length.
pub proof fn lemma_even_division_routes_all(num_led: nat, num_strips: nat, index: nat)
    requires
        num_strips > 0,
        num_led % num_strips == 0,
        index < num_led,
    ensures
        routable(num_led, num_strips, index),
        exists|s: nat|
            1 <= s <= num_strips && #[trigger] strip_owns(
                leds_per_strip(num_led, num_strips),
                s,
                index,
            ) && 0 <= local_index(leds_per_strip(num_led, num_strips), s, index)
                < leds_per_strip(num_led, num_strips),
{
    let per = leds_per_strip(num_led, num_strips);
    vstd::arithmetic::div_mod::lemma_fundamental_div_mod(num_led as int, num_strips as int);
    assert(num_strips * per == num_led) by (nonlinear_arith)
        requires
            num_led == num_strips * (num_led / num_strips) + num_led % num_strips,
            num_led % num_strips == 0,
            per == num_led / num_strips,
    ;
    assert(per > 0) by (nonlinear_arith)
        requires
            num_strips * per == num_led,
            index < num_led,
    ;
    let s = index / per + 1;
    vstd::arithmetic::div_mod::lemma_fundamental_div_mod(index as int, per as int);
    assert((s - 1) * per == per * (index / per)) by (nonlinear_arith)
        requires
            s == index / per + 1,
    ;
    assert(s * per == (s - 1) * per + per) by (nonlinear_arith);
    assert(s <= num_strips) by (nonlinear_arith)
        requires
            (s - 1) * per <= index,
            index < num_strips * per,
            per > 0,
            s >= 1,
    ;
    assert(strip_owns(per, s, index));
}

/// Where the LEDs divide evenly over the strips, every index below
/// `num_led` has an address: its strip is one of the strips, and its local
/// index is the distance from the first LED of that strip, smaller than the
/// length of a strip.
pub proof fn lemma_routed_exact(num_led: u32, num_strips: u32, index: u16)
    requires
        num_strips > 0,
        num_led % num_strips == 0,
        index < num_led,
    ensures
        routed(num_led, num_strips, index) matches Some(address) && {
            &&& 1 <= address.strip <= num_strips
            &&& address.local == index - (address.strip - 1) * (num_led / num_strips)
            &&& 0 <= address.local < num_led / num_strips
        },
{
    let per = leds_per_strip(num_led as nat, num_strips as nat);
    lemma_even_division_routes_all(num_led as nat, num_strips as nat, index as nat);
    let owner = choose|s: nat|
        1 <= s <= num_strips && #[trigger] strip_owns(per, s, index as nat) && 0 <= local_index(
            per,
            s,
            index as nat,
        ) < per;
    vstd::arithmetic::div_mod::lemma_fundamental_div_mod(index as int, per as int);
    let zero_based = index as nat / per;
    assert(zero_based * per == per * zero_based) by (nonlinear_arith);
    assert((zero_based + 1) * per == zero_based * per + per) by (nonlinear_arith);
    assert(strip_owns(per, zero_based + 1, index as nat));
    lemma_owner_unique(per, owner, zero_based + 1, index as nat);
}

} // verus!
