//! Naming rules and small helpers of the weaver.

use vstd::prelude::*;
use vstd::string::*;
use core::ops::Range;
use crate::ast::{App, Context};
use crate::text::{decimal, push_decimal};

verus! {

/// The implementation of the lock of a resource proxy.
#[derive(Clone, Copy, PartialEq, Eq, Structural, Debug)]
pub struct Mutex {
    /// Whether the proxy lives in the `resources` module and keeps its
    /// priority behind a method.
    pub resources_prefix: bool,
    /// The level of the priority ceiling on the executor: the runtime knows
    /// priorities by their level.
    pub ceiling: u8,
    /// The first signal offset of the executor that owns the resource.
    pub start: u8,
    /// The end of the executor's signal offsets.
    pub end: u8,
}

/// The lock of a proxy: it raises the priority to the level `ceiling` on the executor
/// that owns the signals of `range`.
pub fn impl_mutex(resources_prefix: bool, ceiling: u8, range: Range<u8>) -> (m: Mutex)
    ensures
        m == (Mutex { resources_prefix, ceiling, start: range.start, end: range.end }),
{
    Mutex { resources_prefix, ceiling, start: range.start, end: range.end }
}

/// How the inputs of a task are named and grouped.
pub struct Inputs {
    /// The names of the inputs: `_0`, `_1`, and so on.
    pub names: Vec<String>,
    /// Whether the inputs travel as a tuple; a single input travels as it is.
    pub tupled: bool,
}

/// Regroups the inputs of a task that takes `inputs` of them.
pub fn regroup_inputs(inputs: u8) -> (r: Inputs)
    ensures
        r.tupled == (inputs != 1),
        r.names@.len() == inputs,
        forall|i: int| 0 <= i < inputs ==> (#[trigger] r.names@[i])@ == "_"@ + decimal(i as nat),
{
    let mut names: Vec<String> = Vec::new();
    let mut i: u8 = 0;
    while i < inputs
        invariant
            i <= inputs,
            names@.len() == i,
            forall|k: int| 0 <= k < i ==> (#[trigger] names@[k])@ == "_"@ + decimal(k as nat),
        decreases inputs - i,
    {
        let mut s = String::from_str("_");
        push_decimal(&mut s, i);
        names.push(s);
        i += 1;
    }
    Inputs { names, tupled: inputs != 1 }
}

/// The capacity as an unsuffixed literal.
pub fn capacity_literal(capacity: u8) -> (lit: u64)
    ensures
        lit == capacity,
{
    capacity as u64
}

/// The least power of two that is not below `n`.
pub open spec fn next_power_of_two(n: u8) -> int {
    if n <= 1 {
        1
    } else if n <= 2 {
        2
    } else if n <= 4 {
        4
    } else if n <= 8 {
        8
    } else if n <= 16 {
        16
    } else if n <= 32 {
        32
    } else if n <= 64 {
        64
    } else if n <= 128 {
        128
    } else {
        256
    }
}

/// The capacity that a buffer type is named after: `capacity` itself, or
/// the next power of two.
pub open spec fn spec_typenum(capacity: u8, power_of_two: bool) -> int {
    if power_of_two {
        next_power_of_two(capacity)
    } else {
        capacity as int
    }
}

/// The capacity that a buffer type is named after.
pub fn rounded_capacity(capacity: u8, power_of_two: bool) -> (size: u8)
    requires
        power_of_two ==> capacity <= 128,
    ensures
        size == spec_typenum(capacity, power_of_two),
{
    if power_of_two {
        let mut p: u8 = 1;
        while p < capacity
            invariant
                capacity <= 128,
                p == 1 || p == 2 || p == 4 || p == 8 || p == 16 || p == 32 || p == 64 || p == 128,
                p < capacity ==> p < 128,
                next_power_of_two(capacity) >= p,
                p >= capacity ==> next_power_of_two(capacity) == p,
                p > 1 ==> capacity > p / 2,
            decreases 256 - p,
        {
            p = p * 2;
        }
        p
    } else {
        capacity
    }
}

/// The name of the type-level number of a capacity, such as `U4` for 3
/// rounded up to a power of two.
pub fn typenum_capacity(capacity: u8, power_of_two: bool) -> (name: String)
    requires
        power_of_two ==> capacity <= 128,
    ensures
        name@ == "U"@ + decimal(spec_typenum(capacity, power_of_two) as nat),
{
    crate::text::numbered("U", rounded_capacity(capacity, power_of_two))
}

/// e.g. `foo` -> `foo_INPUTS`
pub fn inputs_ident(base: &str) -> (name: String)
    ensures
        name@ == base@ + "_INPUTS"@,
{
    String::from_str(base).concat("_INPUTS")
}

/// e.g. `foo` -> `foo_INSTANTS`
pub fn instants_ident(base: &str) -> (name: String)
    ensures
        name@ == base@ + "_INSTANTS"@,
{
    String::from_str(base).concat("_INSTANTS")
}

/// e.g. `foo` -> `fooLocals`
pub fn locals_ident(ctxt: Context, app: &App) -> (name: String)
    requires
        ctxt.declared(app),
    ensures
        name@ == ctxt.spec_ident(app) + "Locals"@,
{
    String::from_str(ctxt.ident(app).as_str()).concat("Locals")
}

/// e.g. `foo` -> `fooResources`
pub fn resources_ident(ctxt: Context, app: &App) -> (name: String)
    requires
        ctxt.declared(app),
    ensures
        name@ == ctxt.spec_ident(app) + "Resources"@,
{
    String::from_str(ctxt.ident(app).as_str()).concat("Resources")
}

/// e.g. `3` -> `RT3`
pub fn rt_ident(i: u8) -> (name: String)
    ensures
        name@ == "RT"@ + decimal(i as nat),
{
    crate::text::numbered("RT", i)
}

/// e.g. `foo` -> `schedule_foo`
pub fn schedule_ident(task: &str) -> (name: String)
    ensures
        name@ == "schedule_"@ + task@,
{
    String::from_str("schedule_").concat(task)
}

/// e.g. `foo` -> `spawn_foo`
pub fn spawn_ident(task: &str) -> (name: String)
    ensures
        name@ == "spawn_"@ + task@,
{
    String::from_str("spawn_").concat(task)
}

/// e.g. `1` -> `TIMER1`
pub fn timer_ident(sender: u8) -> (name: String)
    ensures
        name@ == "TIMER"@ + decimal(sender as nat),
{
    crate::text::numbered("TIMER", sender)
}

/// e.g. `foo`, `1` -> `foo_S1_FQ`
pub fn fq_ident_(task: &str, sender: u8) -> (name: String)
    ensures
        name@ == task@ + "_S"@ + decimal(sender as nat) + "_FQ"@,
{
    let mut name = String::from_str(task);
    name.append("_S");
    push_decimal(&mut name, sender);
    name.append("_FQ");
    name
}

/// e.g. `1` -> `TID1`
pub fn tid_ident(core: u8) -> (name: String)
    ensures
        name@ == "TID"@ + decimal(core as nat),
{
    crate::text::numbered("TID", core)
}

/// e.g. `1` -> `child1`
pub fn child_ident(core: u8) -> (name: String)
    ensures
        name@ == "child"@ + decimal(core as nat),
{
    crate::text::numbered("child", core)
}

/// e.g. `init` -> `initLateResources`
pub fn late_resources_ident(init: &str) -> (name: String)
    ensures
        name@ == init@ + "LateResources"@,
{
    String::from_str(init).concat("LateResources")
}

/// e.g. `1` -> `B1`
pub fn b_ident(core: u8) -> (name: String)
    ensures
        name@ == "B"@ + decimal(core as nat),
{
    crate::text::numbered("B", core)
}

/// e.g. `0`, `2` -> `R0_T2`
pub fn spawn_t_ident(receiver: u8, priority: u8) -> (name: String)
    ensures
        name@ == "R"@ + decimal(receiver as nat) + "_T"@ + decimal(priority as nat),
{
    let mut name = String::from_str("R");
    push_decimal(&mut name, receiver);
    name.append("_T");
    push_decimal(&mut name, priority);
    name
}

/// e.g. `1` -> `T1`
pub fn schedule_t_ident(sender: u8) -> (name: String)
    ensures
        name@ == "T"@ + decimal(sender as nat),
{
    crate::text::numbered("T", sender)
}

/// e.g. `foo`, `1` -> `foo_S1`
pub fn task_ident(task: &str, sender: u8) -> (name: String)
    ensures
        name@ == task@ + "_S"@ + decimal(sender as nat),
{
    let mut name = String::from_str(task);
    name.append("_S");
    push_decimal(&mut name, sender);
    name
}

/// e.g. `1` -> `TQ1`
pub fn tq_ident(sender: u8) -> (name: String)
    ensures
        name@ == "TQ"@ + decimal(sender as nat),
{
    crate::text::numbered("TQ", sender)
}

} // verus!
