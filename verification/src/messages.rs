//! The lines that the simulation writes to the log. Each line has a
//! specification function, named after it with `_line` at the end, that
//! gives its text, and a function that builds it.

use vstd::prelude::*;
use vstd::string::*;
use crate::text::{append_decimal, append_natural, decimal};

verus! {

/// The name given to a foe that has none.
pub open spec fn nameless() -> Seq<char> {
    "foe"@
}

pub open spec fn strike_line(name: Seq<char>, damage: int) -> Seq<char> {
    "You strike "@ + name + " for "@ + decimal(damage)
}

pub open spec fn collapse_line(name: Seq<char>) -> Seq<char> {
    name + " collapses into specter dust."@
}

pub open spec fn claw_line(name: Seq<char>, damage: int) -> Seq<char> {
    name + " claws you for "@ + decimal(damage)
}

pub open spec fn shatter_line() -> Seq<char> {
    "You feel your spectrum shatter."@
}

pub open spec fn activated_line(name: Seq<char>) -> Seq<char> {
    "Activated "@ + name
}

pub open spec fn recovered_line(gained: int) -> Seq<char> {
    "Recovered "@ + decimal(gained) + " HP."@
}

pub open spec fn no_recovery_line() -> Seq<char> {
    "No further vitality restored."@
}

pub open spec fn cleanse_line() -> Seq<char> {
    "Resonance cleansed of spectral grime."@
}

pub open spec fn blink_line(x: int, y: int) -> Seq<char> {
    "Blink to "@ + decimal(x) + ","@ + decimal(y)
}

pub open spec fn fizzle_line() -> Seq<char> {
    "Blink fizzles; nowhere to anchor."@
}

pub open spec fn sear_line(name: Seq<char>, damage: int) -> Seq<char> {
    name + " sears for "@ + decimal(damage) + " damage."@
}

pub open spec fn disintegrate_line(name: Seq<char>) -> Seq<char> {
    name + " disintegrates in prismatic fire."@
}

pub open spec fn harmless_line() -> Seq<char> {
    "Nova crackles harmlessly."@
}

/// A string with the text of `s`.
pub fn owned(s: &str) -> (r: String)
    ensures
        r@ == s@,
{
    String::from_str(s)
}

pub fn strike(name: &str, damage: i64) -> (s: String)
    ensures
        s@ == strike_line(name@, damage as int),
{
    let mut s = String::from_str("You strike ");
    s.append(name);
    s.append(" for ");
    append_decimal(&mut s, damage);
    assert(s@ =~= strike_line(name@, damage as int));
    s
}

pub fn collapse(name: &str) -> (s: String)
    ensures
        s@ == collapse_line(name@),
{
    let mut s = String::from_str(name);
    s.append(" collapses into specter dust.");
    s
}

pub fn claw(name: &str, damage: i64) -> (s: String)
    ensures
        s@ == claw_line(name@, damage as int),
{
    let mut s = String::from_str(name);
    s.append(" claws you for ");
    append_decimal(&mut s, damage);
    s
}

pub fn shatter() -> (s: String)
    ensures
        s@ == shatter_line(),
{
    String::from_str("You feel your spectrum shatter.")
}

pub fn activated(name: &str) -> (s: String)
    ensures
        s@ == activated_line(name@),
{
    let mut s = String::from_str("Activated ");
    s.append(name);
    s
}

pub fn recovered(gained: i64) -> (s: String)
    ensures
        s@ == recovered_line(gained as int),
{
    let mut s = String::from_str("Recovered ");
    append_decimal(&mut s, gained);
    s.append(" HP.");
    s
}

pub fn no_recovery() -> (s: String)
    ensures
        s@ == no_recovery_line(),
{
    String::from_str("No further vitality restored.")
}

pub fn cleanse() -> (s: String)
    ensures
        s@ == cleanse_line(),
{
    String::from_str("Resonance cleansed of spectral grime.")
}

pub fn blink(x: i32, y: i32) -> (s: String)
    ensures
        s@ == blink_line(x as int, y as int),
{
    let mut s = String::from_str("Blink to ");
    append_decimal(&mut s, x as i64);
    s.append(",");
    append_decimal(&mut s, y as i64);
    s
}

pub fn fizzle() -> (s: String)
    ensures
        s@ == fizzle_line(),
{
    String::from_str("Blink fizzles; nowhere to anchor.")
}

pub fn sear(name: &str, damage: i64) -> (s: String)
    ensures
        s@ == sear_line(name@, damage as int),
{
    let mut s = String::from_str(name);
    s.append(" sears for ");
    append_decimal(&mut s, damage);
    s.append(" damage.");
    s
}

pub fn disintegrate(name: &str) -> (s: String)
    ensures
        s@ == disintegrate_line(name@),
{
    let mut s = String::from_str(name);
    s.append(" disintegrates in prismatic fire.");
    s
}

pub fn harmless() -> (s: String)
    ensures
        s@ == harmless_line(),
{
    String::from_str("Nova crackles harmlessly.")
}

pub open spec fn focus_line(world: Seq<char>, notes: Seq<char>) -> Seq<char> {
    world + " focus: "@ + notes
}

pub fn focus(world: &str, notes: &str) -> (s: String)
    ensures
        s@ == focus_line(world@, notes@),
{
    let mut s = String::from_str(world);
    s.append(" focus: ");
    s.append(notes);
    s
}

pub open spec fn stepped_line(x: int, y: int, world: Seq<char>) -> Seq<char> {
    "Stepped to "@ + decimal(x) + ","@ + decimal(y) + " in "@ + world
}

pub fn stepped(x: i32, y: i32, world: &str) -> (s: String)
    ensures
        s@ == stepped_line(x as int, y as int, world@),
{
    let mut s = String::from_str("Stepped to ");
    append_decimal(&mut s, x as i64);
    s.append(",");
    append_decimal(&mut s, y as i64);
    s.append(" in ");
    s.append(world);
    s
}

pub open spec fn blocked_line(x: int, y: int) -> Seq<char> {
    "Blocked at "@ + decimal(x) + ","@ + decimal(y)
}

pub fn blocked(x: i32, y: i32) -> (s: String)
    ensures
        s@ == blocked_line(x as int, y as int),
{
    let mut s = String::from_str("Blocked at ");
    append_decimal(&mut s, x as i64);
    s.append(",");
    append_decimal(&mut s, y as i64);
    s
}

pub open spec fn glimpsed_line(count: int, world: Seq<char>) -> Seq<char> {
    "Glimpsed "@ + decimal(count) + " new tiles in "@ + world
}

pub fn glimpsed(count: u64, world: &str) -> (s: String)
    ensures
        s@ == glimpsed_line(count as int, world@),
{
    let mut s = String::from_str("Glimpsed ");
    append_natural(&mut s, count as u128);
    s.append(" new tiles in ");
    s.append(world);
    s
}

pub open spec fn critical_line() -> Seq<char> {
    "!! Vitality critical !!"@
}

pub fn critical() -> (s: String)
    ensures
        s@ == critical_line(),
{
    String::from_str("!! Vitality critical !!")
}

pub open spec fn stabilized_line() -> Seq<char> {
    "Vitality stabilizes."@
}

pub fn stabilized() -> (s: String)
    ensures
        s@ == stabilized_line(),
{
    String::from_str("Vitality stabilizes.")
}

pub open spec fn empty_slot_line(number: int) -> Seq<char> {
    "Slot "@ + decimal(number) + " is empty."@
}

pub fn empty_slot(number: u128) -> (s: String)
    ensures
        s@ == empty_slot_line(number as int),
{
    let mut s = String::from_str("Slot ");
    append_natural(&mut s, number);
    s.append(" is empty.");
    s
}

pub open spec fn confirm_reset_line() -> Seq<char> {
    "Press R again within 5s to wipe run stats (resets run counter & best depth)."@
}

pub fn confirm_reset() -> (s: String)
    ensures
        s@ == confirm_reset_line(),
{
    String::from_str("Press R again within 5s to wipe run stats (resets run counter & best depth).")
}

pub open spec fn stats_reset_line() -> Seq<char> {
    "Run stats reset. Run counter back to 1."@
}

pub fn stats_reset() -> (s: String)
    ensures
        s@ == stats_reset_line(),
{
    String::from_str("Run stats reset. Run counter back to 1.")
}

pub open spec fn attuned_line(world: Seq<char>, frame: int) -> Seq<char> {
    "Shifted attunement to "@ + world + " on frame "@ + decimal(frame)
}

pub fn attuned(world: &str, frame: u64) -> (s: String)
    ensures
        s@ == attuned_line(world@, frame as int),
{
    let mut s = String::from_str("Shifted attunement to ");
    s.append(world);
    s.append(" on frame ");
    append_natural(&mut s, frame as u128);
    s
}

pub open spec fn surface_line() -> Seq<char> {
    "You already stand on the surface anchor."@
}

pub fn surface() -> (s: String)
    ensures
        s@ == surface_line(),
{
    String::from_str("You already stand on the surface anchor.")
}

pub open spec fn void_line() -> Seq<char> {
    "The void yawns beneath you; no stairs here."@
}

pub fn void() -> (s: String)
    ensures
        s@ == void_line(),
{
    String::from_str("The void yawns beneath you; no stairs here.")
}

pub open spec fn need_down_stair_line() -> Seq<char> {
    "Need to stand on a downward stair (>) to descend."@
}

pub fn need_down_stair() -> (s: String)
    ensures
        s@ == need_down_stair_line(),
{
    String::from_str("Need to stand on a downward stair (>) to descend.")
}

pub open spec fn need_up_stair_line() -> Seq<char> {
    "Need to stand on an upward stair (<) to ascend."@
}

pub fn need_up_stair() -> (s: String)
    ensures
        s@ == need_up_stair_line(),
{
    String::from_str("Need to stand on an upward stair (<) to ascend.")
}

pub open spec fn prism_lock_line() -> Seq<char> {
    "The prism lock refuses to go higher."@
}

pub fn prism_lock() -> (s: String)
    ensures
        s@ == prism_lock_line(),
{
    String::from_str("The prism lock refuses to go higher.")
}

pub open spec fn floor_shaped_line(floor: int) -> Seq<char> {
    "Floor "@ + decimal(floor) + " takes shape."@
}

pub fn floor_shaped(floor: u32) -> (s: String)
    ensures
        s@ == floor_shaped_line(floor as int),
{
    let mut s = String::from_str("Floor ");
    append_natural(&mut s, floor as u128);
    s.append(" takes shape.");
    s
}

pub open spec fn travelled_line(descending: bool, floor: int) -> Seq<char> {
    (if descending {
        "Descended"@
    } else {
        "Ascended"@
    }) + " to floor "@ + decimal(floor)
}

pub fn travelled(descending: bool, floor: u32) -> (s: String)
    ensures
        s@ == travelled_line(descending, floor as int),
{
    let mut s = if descending {
        String::from_str("Descended")
    } else {
        String::from_str("Ascended")
    };
    s.append(" to floor ");
    append_natural(&mut s, floor as u128);
    s
}

pub open spec fn death_line() -> Seq<char> {
    "Your spectrum shatters. Press R to restart or Esc to quit."@
}

pub fn death() -> (s: String)
    ensures
        s@ == death_line(),
{
    String::from_str("Your spectrum shatters. Press R to restart or Esc to quit.")
}

pub open spec fn run_anchored_line(run: int, best: int) -> Seq<char> {
    "Run "@ + decimal(run) + " anchors. Best depth "@ + decimal(best)
}

pub fn run_anchored(run: u32, best: u32) -> (s: String)
    ensures
        s@ == run_anchored_line(run as int, best as int),
{
    let mut s = String::from_str("Run ");
    append_natural(&mut s, run as u128);
    s.append(" anchors. Best depth ");
    append_natural(&mut s, best as u128);
    s
}

} // verus!
