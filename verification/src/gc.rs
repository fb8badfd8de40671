//! Control of the incremental garbage collector: the parameter sets, the
//! mode, and the VM's tunables that a change writes and reads back.

use vstd::prelude::*;

verus! {

/// Parameters of the incremental collector; a parameter left unset is not
/// changed when the set is applied.
#[derive(Debug, Clone, Copy, PartialEq, Eq, Structural)]
pub struct GcIncParams {
    pub goal: Option<u32>,
    pub step_multiplier: Option<u32>,
    pub step_size: Option<u32>,
}

/// Parameters of a generational collector (the VM has none; kept for the
/// mode's shape).
#[derive(Debug, Clone, Copy, PartialEq, Eq, Structural)]
pub struct GcGenParams {
    pub minor_multiplier: u32,
    pub major_multiplier: u32,
}

/// The mode of the collector.
#[derive(Debug, Clone, Copy, PartialEq, Eq, Structural)]
pub enum GcMode {
    /// Incremental collection, the only mode the VM runs.
    Incremental(GcIncParams),
    /// Generational collection: not run by the VM.
    Generational(GcGenParams),
}

impl GcIncParams {
    /// A set with no parameter.
    pub fn new() -> (r: GcIncParams)
        ensures
            r.goal is None && r.step_multiplier is None && r.step_size is None,
    {
        GcIncParams { goal: None, step_multiplier: None, step_size: None }
    }

    /// The set with the heap-growth goal (percent) set to `goal`.
    pub fn goal(self, goal: u32) -> (r: GcIncParams)
        ensures
            r == (GcIncParams { goal: Some(goal), ..self }),
    {
        GcIncParams { goal: Some(goal), ..self }
    }

    /// The set with the step multiplier set to `mul`.
    pub fn step_multiplier(self, mul: u32) -> (r: GcIncParams)
        ensures
            r == (GcIncParams { step_multiplier: Some(mul), ..self }),
    {
        GcIncParams { step_multiplier: Some(mul), ..self }
    }

    /// The set with the step size (KB) set to `size`.
    pub fn step_size(self, size: u32) -> (r: GcIncParams)
        ensures
            r == (GcIncParams { step_size: Some(size), ..self }),
    {
        GcIncParams { step_size: Some(size), ..self }
    }

    /// The goal, if set.
    pub fn get_goal(&self) -> (r: Option<u32>)
        ensures
            r == self.goal,
    {
        self.goal
    }

    /// The step multiplier, if set.
    pub fn get_step_multiplier(&self) -> (r: Option<u32>)
        ensures
            r == self.step_multiplier,
    {
        self.step_multiplier
    }

    /// The step size (KB), if set.
    pub fn get_step_size(&self) -> (r: Option<u32>)
        ensures
            r == self.step_size,
    {
        self.step_size
    }
}

/// The collector's tunables as the VM holds them (C `int`s).
#[derive(Debug, Clone, Copy, PartialEq, Eq, Structural)]
pub struct GcTunables {
    pub goal: i32,
    pub step_multiplier: i32,
    /// The step size in KB.
    pub step_size: i32,
}

/// A C `int` read back as an unsigned parameter: negative values read as 0.
pub open spec fn spec_read_back(v: i32) -> u32 {
    if v < 0 { 0 } else { v as u32 }
}

/// A parameter handed to the VM as a C `int` (two's complement wrap).
pub open spec fn spec_to_c_int(v: u32) -> i32 {
    if v <= i32::MAX { v as i32 } else { (v - 0x1_0000_0000) as i32 }
}

/// The parameter read back as an unsigned value.
fn read_back(v: i32) -> (r: u32)
    ensures
        r == spec_read_back(v),
{
    if v < 0 { 0 } else { v as u32 }
}

/// The parameter handed to the VM as a C `int`.
fn to_c_int(v: u32) -> (r: i32)
    ensures
        r == spec_to_c_int(v),
{
    if v <= 0x7fff_ffff { v as i32 } else { (v as i64 - 0x1_0000_0000i64) as i32 }
}

/// The tunables as a fully set parameter set.
pub open spec fn spec_current(t: GcTunables) -> GcIncParams {
    GcIncParams {
        goal: Some(spec_read_back(t.goal)),
        step_multiplier: Some(spec_read_back(t.step_multiplier)),
        step_size: Some(spec_read_back(t.step_size)),
    }
}

/// The tunables after applying a parameter set.
pub open spec fn spec_applied(t: GcTunables, p: GcIncParams) -> GcTunables {
    GcTunables {
        goal: match p.goal { Some(g) => spec_to_c_int(g), None => t.goal },
        step_multiplier: match p.step_multiplier { Some(m) => spec_to_c_int(m), None => t.step_multiplier },
        step_size: match p.step_size { Some(s) => spec_to_c_int(s), None => t.step_size },
    }
}

impl GcTunables {
    /// The tunables read back as a parameter set.
    pub fn current(&self) -> (r: GcIncParams)
        ensures
            r == spec_current(*self),
    {
        GcIncParams {
            goal: Some(read_back(self.goal)),
            step_multiplier: Some(read_back(self.step_multiplier)),
            step_size: Some(read_back(self.step_size)),
        }
    }

    /// Writes the set parameters and returns the parameters as they were
    /// before.
    pub fn apply(&mut self, p: &GcIncParams) -> (r: GcIncParams)
        ensures
            r == spec_current(*old(self)),
            *final(self) == spec_applied(*old(self), *p),
    {
        let prev = self.current();
        if let Some(goal) = p.goal {
            self.goal = to_c_int(goal);
        }
        if let Some(mul) = p.step_multiplier {
            self.step_multiplier = to_c_int(mul);
        }
        if let Some(sz) = p.step_size {
            self.step_size = to_c_int(sz);
        }
        prev
    }

    /// Applies the parameters of `gc_inc`: a positive argument sets its
    /// parameter, any other leaves it; returns the previous mode.
    pub fn gc_inc(&mut self, pause: i32, step_multiplier: i32, step_size: i32) -> (r: GcMode)
        ensures
            r == GcMode::Incremental(spec_current(*old(self))),
            *final(self) == spec_applied(*old(self), spec_inc_params(pause, step_multiplier, step_size)),
    {
        let p = GcIncParams {
            goal: if pause > 0 { Some(pause as u32) } else { None },
            step_multiplier: if step_multiplier > 0 { Some(step_multiplier as u32) } else { None },
            step_size: if step_size > 0 { Some(step_size as u32) } else { None },
        };
        GcMode::Incremental(self.apply(&p))
    }

    /// Sets the mode: an incremental mode applies its parameters; the
    /// generational mode changes nothing. Returns the previous (incremental)
    /// mode.
    pub fn gc_set_mode(&mut self, mode: GcMode) -> (r: GcMode)
        ensures
            r == GcMode::Incremental(spec_current(*old(self))),
            mode matches GcMode::Incremental(p) ==> *final(self) == spec_applied(*old(self), p),
            mode is Generational ==> *final(self) == *old(self),
    {
        match mode {
            GcMode::Incremental(p) => GcMode::Incremental(self.apply(&p)),
            GcMode::Generational(_) => GcMode::Incremental(self.current()),
        }
    }
}

/// The parameter set of `gc_inc`: positive arguments only.
pub open spec fn spec_inc_params(pause: i32, mul: i32, size: i32) -> GcIncParams {
    GcIncParams {
        goal: if pause > 0 { Some(pause as u32) } else { None },
        step_multiplier: if mul > 0 { Some(mul as u32) } else { None },
        step_size: if size > 0 { Some(size as u32) } else { None },
    }
}

/// Setting a mode and then setting the mode it returned restores the
/// tunables, for parameters that fit a C `int`.
pub proof fn law_gc_set_mode_restores(t: GcTunables, p: GcIncParams)
    requires
        t.goal >= 0,
        t.step_multiplier >= 0,
        t.step_size >= 0,
    ensures
        spec_applied(spec_applied(t, p), spec_current(t)) == t,
{
}

} // verus!
