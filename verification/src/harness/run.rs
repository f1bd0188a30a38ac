//! Where a running test writes back the bytes of the values it saw.
//!
//! The test first says which function it is in, then writes each value by
//! index. Each value may be written once; a second write is recorded as an
//! error and leaves the first one in place.

use vstd::prelude::*;
use crate::harness::report::RunOutput;
use crate::types::TypedProgram;

verus! {

/// The bytes written for one value.
#[derive(Debug)]
pub struct ValBuffer {
    pub bytes: Vec<u8>,
}

/// The values written for one function.
#[derive(Debug)]
pub struct FuncBuffer {
    pub vals: Vec<ValBuffer>,
}

/// Everything one side of a test wrote.
#[derive(Debug)]
pub struct TestBuffer {
    pub funcs: Vec<FuncBuffer>,
    /// The function being written, once one was set.
    pub cur_func: Option<usize>,
    /// Whether a value was written before any function was set.
    pub had_missing_set_func: bool,
    /// The (function, value) pairs written more than once.
    pub had_double_writes: Vec<(usize, usize)>,
}

/// What the writes of a test show went wrong.
#[derive(Debug)]
pub enum RunError {
    /// A value was written before any function was set.
    MissingSetFunc,
    /// A value was written twice.
    DoubleWrite { func: usize, val: usize },
    /// The test's output did not end with its closing message, or held a
    /// line that is not a message.
    InvalidMessages { caller_funcs: TestBuffer, callee_funcs: TestBuffer },
    /// The test's program exited unsuccessfully (with `code`, if it
    /// exited with one); each side's function and value where it stopped.
    BadExit {
        code: Option<i32>,
        caller_func_idx: usize,
        caller_val_idx: usize,
        caller_func: String,
        callee_func_idx: usize,
        callee_val_idx: usize,
        callee_func: String,
    },
}

/// The abstract form of a [`TestBuffer`].
pub struct TestBufferV {
    /// For each function, for each value, its bytes (empty if not written).
    pub funcs: Seq<Seq<Seq<u8>>>,
    pub cur_func: Option<usize>,
    pub had_missing_set_func: bool,
    pub had_double_writes: Seq<(usize, usize)>,
}

/// The abstract form of a function's values.
pub open spec fn func_buffer_view(f: FuncBuffer) -> Seq<Seq<u8>> {
    f.vals@.map_values(|v: ValBuffer| v.bytes@)
}

impl View for TestBuffer {
    type V = TestBufferV;

    open spec fn view(&self) -> TestBufferV {
        TestBufferV {
            funcs: self.funcs@.map_values(|f: FuncBuffer| func_buffer_view(f)),
            cur_func: self.cur_func,
            had_missing_set_func: self.had_missing_set_func,
            had_double_writes: self.had_double_writes@,
        }
    }
}

/// `s` made at least `n` long by appending `fill`.
pub open spec fn grow_to<A>(s: Seq<A>, n: int, fill: A) -> Seq<A> {
    if s.len() >= n { s } else { s + Seq::new((n - s.len()) as nat, |i: int| fill) }
}

/// The buffer after the test says it is in function `func`.
pub open spec fn spec_set_func(b: TestBufferV, func: usize) -> TestBufferV {
    TestBufferV { funcs: grow_to(b.funcs, func + 1, Seq::empty()), cur_func: Some(func), ..b }
}

/// The buffer after the test writes `data` as value `val` of the current function.
pub open spec fn spec_write_val(b: TestBufferV, val: usize, data: Seq<u8>) -> TestBufferV {
    match b.cur_func {
        None => TestBufferV { had_missing_set_func: true, ..b },
        Some(f) => {
            let vals = grow_to(b.funcs[f as int], val + 1, Seq::empty());
            if vals[val as int].len() != 0 {
                TestBufferV {
                    funcs: b.funcs.update(f as int, vals),
                    had_double_writes: b.had_double_writes.push((f, val)),
                    ..b
                }
            } else {
                TestBufferV { funcs: b.funcs.update(f as int, vals.update(val as int, data)), ..b }
            }
        },
    }
}

/// The current function, if set, is one of the buffer's.
pub open spec fn buffer_ok(b: TestBufferV) -> bool {
    b.cur_func matches Some(f) ==> f < b.funcs.len()
}

/// A copy of `data`.
fn copy_bytes(data: &[u8]) -> (r: Vec<u8>)
    ensures
        r@ == data@,
{
    let mut r: Vec<u8> = Vec::new();
    let mut i: usize = 0;
    while i < data.len()
        invariant
            i <= data@.len(),
            r@ == data@.subrange(0, i as int),
        decreases data@.len() - i,
    {
        r.push(data[i]);
        i = i + 1;
        assert(r@ =~= data@.subrange(0, i as int));
    }
    assert(r@ =~= data@);
    r
}

impl TestBuffer {
    /// A buffer with nothing written.
    pub fn new() -> (r: TestBuffer)
        ensures
            r@ == (TestBufferV { funcs: Seq::empty(), cur_func: None, had_missing_set_func: false, had_double_writes: Seq::empty() }),
    {
        let r = TestBuffer { funcs: Vec::new(), cur_func: None, had_missing_set_func: false, had_double_writes: Vec::new() };
        assert(r@.funcs =~= Seq::<Seq<Seq<u8>>>::empty());
        r
    }

    /// The test is now in function `func`.
    pub fn set_func(&mut self, func: u32)
        requires
            func as int + 1 <= usize::MAX,
        ensures
            final(self)@ == spec_set_func(old(self)@, func as usize),
            buffer_ok(final(self)@),
    {
        let idx = func as usize;
        let ghost b0 = self@;
        while self.funcs.len() <= idx
            invariant
                idx + 1 <= usize::MAX,
                b0 == old(self)@,
                self.cur_func == old(self).cur_func,
                self.had_missing_set_func == old(self).had_missing_set_func,
                self.had_double_writes@ == old(self).had_double_writes@,
                old(self)@.funcs.len() <= self@.funcs.len(),
                self@.funcs.len() > old(self)@.funcs.len() ==> self@.funcs.len() <= idx + 1,
                self@.funcs.len() <= old(self)@.funcs.len() ==> self@.funcs == b0.funcs,
                self@.funcs.len() > old(self)@.funcs.len() ==> self@.funcs
                    =~= grow_to(b0.funcs, self@.funcs.len() as int, Seq::empty()),
            decreases idx + 1 - self.funcs@.len(),
        {
            let ghost before = self@.funcs;
            let f = FuncBuffer { vals: Vec::new() };
            assert(func_buffer_view(f) =~= Seq::<Seq<u8>>::empty());
            self.funcs.push(f);
            assert(self@.funcs =~= before.push(Seq::empty()));
        }
        self.cur_func = Some(idx);
        proof {
            if self@.funcs.len() > b0.funcs.len() {
                assert(self@.funcs =~= grow_to(b0.funcs, idx + 1, Seq::empty()));
            } else {
                assert(grow_to(b0.funcs, idx + 1, Seq::empty()) == b0.funcs);
            }
        }
    }

    /// The test writes `data` as value `val_idx` of the current function.
    pub fn write_val(&mut self, val_idx: u32, data: &[u8])
        requires
            buffer_ok(old(self)@),
            val_idx as int + 1 <= usize::MAX,
        ensures
            final(self)@ == spec_write_val(old(self)@, val_idx as usize, data@),
            buffer_ok(final(self)@),
    {
        let func_idx = match self.cur_func {
            None => {
                self.had_missing_set_func = true;
                return;
            },
            Some(f) => f,
        };
        let val_idx = val_idx as usize;
        let ghost b0 = self@;
        let mut func = self.funcs.remove(func_idx);
        let ghost vals0 = func_buffer_view(func);
        assert(vals0 == b0.funcs[func_idx as int]);
        while func.vals.len() <= val_idx
            invariant
                val_idx + 1 <= usize::MAX,
                vals0.len() <= func_buffer_view(func).len(),
                func_buffer_view(func).len() > vals0.len() ==> func_buffer_view(func).len() <= val_idx + 1,
                func_buffer_view(func).len() <= vals0.len() ==> func_buffer_view(func) == vals0,
                func_buffer_view(func).len() > vals0.len() ==> func_buffer_view(func)
                    =~= grow_to(vals0, func_buffer_view(func).len() as int, Seq::empty()),
            decreases val_idx + 1 - func.vals@.len(),
        {
            let ghost before = func_buffer_view(func);
            func.vals.push(ValBuffer { bytes: Vec::new() });
            assert(func_buffer_view(func) =~= before.push(Seq::empty()));
        }
        let ghost vals1 = func_buffer_view(func);
        proof {
            if vals1.len() > vals0.len() {
                assert(vals1 =~= grow_to(vals0, val_idx + 1, Seq::empty()));
            } else {
                assert(grow_to(vals0, val_idx + 1, Seq::empty()) == vals0);
            }
        }
        let mut already = false;
        if func.vals[val_idx].bytes.len() != 0 {
            already = true;
        } else {
            let mut v = func.vals.remove(val_idx);
            v.bytes = copy_bytes(data);
            func.vals.insert(val_idx, v);
            assert(func_buffer_view(func) =~= vals1.update(val_idx as int, data@));
        }
        let ghost fv = func_buffer_view(func);
        self.funcs.insert(func_idx, func);
        assert(self@.funcs =~= b0.funcs.update(func_idx as int, fv));
        if already {
            self.had_double_writes.push((func_idx, val_idx));
        }
    }

    /// The error that the writes show, if any: a missing function first,
    /// then the first double write.
    pub fn finish_tests(&self) -> (r: Result<(), RunError>)
        ensures
            r is Ok <==> buffer_clean(self@),
            r matches Err(e) ==> e == first_misuse(self@),
            self@.had_missing_set_func ==> r matches Err(RunError::MissingSetFunc),
            !self@.had_missing_set_func && self@.had_double_writes.len() > 0 ==>
                (r matches Err(RunError::DoubleWrite { func, val })
                && (func, val) == self@.had_double_writes[0]),
            !self@.had_missing_set_func && self@.had_double_writes.len() == 0 ==> r is Ok,
    {
        if self.had_missing_set_func {
            return Err(RunError::MissingSetFunc);
        }
        if self.had_double_writes.len() > 0 {
            let (func, val) = self.had_double_writes[0];
            return Err(RunError::DoubleWrite { func, val });
        }
        Ok(())
    }
}

/// A value is written once: after a write to an empty slot, a second write
/// of the same value leaves the bytes of the first and records the pair.
pub proof fn lemma_write_once(b: TestBufferV, val: usize, first: Seq<u8>, second: Seq<u8>)
    requires
        buffer_ok(b),
        b.cur_func is Some,
        first.len() > 0,
        grow_to(b.funcs[b.cur_func->0 as int], val + 1, Seq::empty())[val as int].len() == 0,
    ensures
        spec_write_val(b, val, first).funcs[b.cur_func->0 as int][val as int] == first,
        spec_write_val(spec_write_val(b, val, first), val, second).funcs
            == spec_write_val(b, val, first).funcs,
        spec_write_val(spec_write_val(b, val, first), val, second).had_double_writes
            == b.had_double_writes.push((b.cur_func->0, val)),
{
    let f = b.cur_func->0;
    let b1 = spec_write_val(b, val, first);
    let vals = grow_to(b.funcs[f as int], val + 1, Seq::empty());
    assert(b1.funcs[f as int] == vals.update(val as int, first));
    let vals1 = grow_to(b1.funcs[f as int], val + 1, Seq::empty());
    assert(vals1 == b1.funcs[f as int]);
    assert(b1.funcs.update(f as int, vals1) =~= b1.funcs);
}


/// No value was written before a function was set, and none twice.
pub open spec fn buffer_clean(b: TestBufferV) -> bool {
    !b.had_missing_set_func && b.had_double_writes.len() == 0
}

/// The first misuse of a buffer that is not clean: a value written before
/// any function, else the first value written twice.
pub open spec fn first_misuse(b: TestBufferV) -> RunError {
    if b.had_missing_set_func {
        RunError::MissingSetFunc
    } else {
        RunError::DoubleWrite { func: b.had_double_writes[0].0, val: b.had_double_writes[0].1 }
    }
}

/// A buffer nothing was written to.
pub open spec fn empty_buffer() -> TestBufferV {
    TestBufferV { funcs: Seq::empty(), cur_func: None, had_missing_set_func: false, had_double_writes: Seq::empty() }
}

/// Which side of a test a message is from.
#[derive(Debug, Clone, Copy, PartialEq, Eq, Structural)]
pub enum HarnessSide {
    Caller,
    Callee,
}

/// What a running test reports, one message per line of its output.
#[derive(Debug)]
pub enum HarnessMessage {
    /// The side is now in function `func`.
    Func { id: HarnessSide, func: u32 },
    /// The side saw `bytes` for value `val` of its current function.
    Val { id: HarnessSide, val: u32, bytes: Vec<u8> },
    /// The test finished.
    Done,
}

/// What both sides of a test have written so far, and whether the output
/// so far ends cleanly.
#[derive(Debug)]
pub struct RunState {
    pub caller_funcs: TestBuffer,
    pub callee_funcs: TestBuffer,
    pub finished_clean: bool,
}

/// The buffers after the side `id` says it is in function `func`.
pub open spec fn spec_on_func(caller: TestBufferV, callee: TestBufferV, id: HarnessSide, func: usize) -> (TestBufferV, TestBufferV) {
    match id {
        HarnessSide::Caller => (spec_set_func(caller, func), callee),
        HarnessSide::Callee => (caller, spec_set_func(callee, func)),
    }
}

/// The buffers after the side `id` writes `bytes` as value `val`.
pub open spec fn spec_on_val(caller: TestBufferV, callee: TestBufferV, id: HarnessSide, val: usize, bytes: Seq<u8>) -> (TestBufferV, TestBufferV) {
    match id {
        HarnessSide::Caller => (spec_write_val(caller, val, bytes), callee),
        HarnessSide::Callee => (caller, spec_write_val(callee, val, bytes)),
    }
}

impl RunState {
    /// Nothing written yet.
    pub fn new() -> (r: RunState)
        ensures
            r.caller_funcs@ == empty_buffer(),
            r.callee_funcs@ == empty_buffer(),
            !r.finished_clean,
            buffer_ok(r.caller_funcs@),
            buffer_ok(r.callee_funcs@),
    {
        RunState { caller_funcs: TestBuffer::new(), callee_funcs: TestBuffer::new(), finished_clean: false }
    }

    /// Takes in one line of the test's output: a message, or `None` for a
    /// line that is not one (which marks the output as not clean).
    pub fn take_line(&mut self, line: Option<HarnessMessage>)
        requires
            buffer_ok(old(self).caller_funcs@),
            buffer_ok(old(self).callee_funcs@),
            line matches Some(HarnessMessage::Func { func, .. }) ==> func as int + 1 <= usize::MAX,
            line matches Some(HarnessMessage::Val { val, .. }) ==> val as int + 1 <= usize::MAX,
        ensures
            buffer_ok(final(self).caller_funcs@),
            buffer_ok(final(self).callee_funcs@),
            match line {
                None => final(self).caller_funcs@ == old(self).caller_funcs@
                    && final(self).callee_funcs@ == old(self).callee_funcs@ && !final(self).finished_clean,
                Some(HarnessMessage::Func { id, func }) =>
                    (final(self).caller_funcs@, final(self).callee_funcs@)
                        == spec_on_func(old(self).caller_funcs@, old(self).callee_funcs@, id, func as usize)
                    && final(self).finished_clean == old(self).finished_clean,
                Some(HarnessMessage::Val { id, val, bytes }) =>
                    (final(self).caller_funcs@, final(self).callee_funcs@)
                        == spec_on_val(old(self).caller_funcs@, old(self).callee_funcs@, id, val as usize, bytes@)
                    && final(self).finished_clean == old(self).finished_clean,
                Some(HarnessMessage::Done) => final(self).caller_funcs@ == old(self).caller_funcs@
                    && final(self).callee_funcs@ == old(self).callee_funcs@ && final(self).finished_clean,
            },
    {
        match line {
            None => {
                self.finished_clean = false;
            },
            Some(HarnessMessage::Func { id, func }) => match id {
                HarnessSide::Caller => self.caller_funcs.set_func(func),
                HarnessSide::Callee => self.callee_funcs.set_func(func),
            },
            Some(HarnessMessage::Val { id, val, bytes }) => match id {
                HarnessSide::Caller => self.caller_funcs.write_val(val, bytes.as_slice()),
                HarnessSide::Callee => self.callee_funcs.write_val(val, bytes.as_slice()),
            },
            Some(HarnessMessage::Done) => {
                self.finished_clean = true;
            },
        }
    }

    /// What the test's whole output shows: both sides' values if it
    /// finished cleanly and neither side misused its buffer, else the first
    /// problem (an unclean end, then the caller's buffer, then the callee's).
    pub fn finish(self) -> (r: Result<RunOutput, RunError>)
        ensures
            !self.finished_clean ==> (r matches Err(RunError::InvalidMessages { caller_funcs, callee_funcs })
                && caller_funcs@ == self.caller_funcs@ && callee_funcs@ == self.callee_funcs@),
            self.finished_clean ==> match r {
                Ok(out) => out.caller_funcs@ == self.caller_funcs@ && out.callee_funcs@ == self.callee_funcs@
                    && buffer_clean(self.caller_funcs@) && buffer_clean(self.callee_funcs@),
                Err(e) => e == first_misuse(self.caller_funcs@)
                    || (buffer_clean(self.caller_funcs@) && e == first_misuse(self.callee_funcs@)),
            },
            self.finished_clean && buffer_clean(self.caller_funcs@) && buffer_clean(self.callee_funcs@) ==> r is Ok,
            self.finished_clean && !buffer_clean(self.caller_funcs@) ==> r == Err::<RunOutput, RunError>(first_misuse(self.caller_funcs@)),
    {
        if !self.finished_clean {
            return Err(RunError::InvalidMessages { caller_funcs: self.caller_funcs, callee_funcs: self.callee_funcs });
        }
        if let Err(e) = self.caller_funcs.finish_tests() {
            return Err(e);
        }
        if let Err(e) = self.callee_funcs.finish_tests() {
            return Err(e);
        }
        Ok(RunOutput { caller_funcs: self.caller_funcs, callee_funcs: self.callee_funcs })
    }
}


/// The function a side was last in (the first if it never said).
pub open spec fn last_func(b: TestBufferV) -> usize {
    match b.cur_func {
        Some(f) => f,
        None => 0,
    }
}

/// Where a side stopped: the function it was last in (the first if it
/// never said), the last value slot it has there (the first if none), and
/// that function's name.
pub fn best_vals(types: &TypedProgram, vals: &TestBuffer) -> (r: (usize, usize, String))
    requires
        last_func(vals@) < types@.funcs.len(),
    ensures
        r.0 == last_func(vals@),
        r.1 == if last_func(vals@) < vals@.funcs.len() && vals@.funcs[last_func(vals@) as int].len() > 0 {
            vals@.funcs[last_func(vals@) as int].len() - 1
        } else {
            0
        },
        r.2@ == types@.funcs[last_func(vals@) as int].name.text(),
{
    let func_idx = match vals.cur_func {
        Some(f) => f,
        None => 0,
    };
    let val_idx = if func_idx < vals.funcs.len() {
        assert(vals@.funcs[func_idx as int] == func_buffer_view(vals.funcs@[func_idx as int]));
        let n = vals.funcs[func_idx].vals.len();
        if n > 0 { n - 1 } else { 0 }
    } else {
        0
    };
    let func_name = types.realize_func(func_idx).name.val.value.clone();
    (func_idx, val_idx, func_name)
}

/// The last value slot a side has in the function it was last in (the
/// first if none).
pub open spec fn last_val(b: TestBufferV) -> usize {
    if last_func(b) < b.funcs.len() && b.funcs[last_func(b) as int].len() > 0 {
        (b.funcs[last_func(b) as int].len() - 1) as usize
    } else {
        0
    }
}

impl RunState {
    /// The outcome of a test program that has exited, successfully or not
    /// as `exit_ok` says, having printed what this state took in: if it
    /// failed, where each side stopped (see [`best_vals`]) with its exit
    /// code; else what [`RunState::finish`] makes of the output.
    pub fn finish_exit(self, exit_ok: bool, code: Option<i32>, types: &TypedProgram) -> (r: Result<RunOutput, RunError>)
        requires
            last_func(self.caller_funcs@) < types@.funcs.len(),
            last_func(self.callee_funcs@) < types@.funcs.len(),
        ensures
            !exit_ok ==> (r matches Err(RunError::BadExit { code: c, caller_func_idx, caller_val_idx, caller_func,
                    callee_func_idx, callee_val_idx, callee_func })
                && c == code
                && caller_func_idx == last_func(self.caller_funcs@) && caller_val_idx == last_val(self.caller_funcs@)
                && caller_func@ == types@.funcs[last_func(self.caller_funcs@) as int].name.text()
                && callee_func_idx == last_func(self.callee_funcs@) && callee_val_idx == last_val(self.callee_funcs@)
                && callee_func@ == types@.funcs[last_func(self.callee_funcs@) as int].name.text()),
            exit_ok ==> !self.finished_clean ==> (r matches Err(RunError::InvalidMessages { caller_funcs, callee_funcs })
                && caller_funcs@ == self.caller_funcs@ && callee_funcs@ == self.callee_funcs@),
            exit_ok && self.finished_clean ==> match r {
                Ok(out) => out.caller_funcs@ == self.caller_funcs@ && out.callee_funcs@ == self.callee_funcs@
                    && buffer_clean(self.caller_funcs@) && buffer_clean(self.callee_funcs@),
                Err(e) => e == first_misuse(self.caller_funcs@)
                    || (buffer_clean(self.caller_funcs@) && e == first_misuse(self.callee_funcs@)),
            },
            exit_ok && self.finished_clean && buffer_clean(self.caller_funcs@) && buffer_clean(self.callee_funcs@) ==> r is Ok,
    {
        if !exit_ok {
            let (caller_func_idx, caller_val_idx, caller_func) = best_vals(types, &self.caller_funcs);
            let (callee_func_idx, callee_val_idx, callee_func) = best_vals(types, &self.callee_funcs);
            return Err(RunError::BadExit {
                code,
                caller_func_idx,
                caller_val_idx,
                caller_func,
                callee_func_idx,
                callee_val_idx,
                callee_func,
            });
        }
        self.finish()
    }
}

} // verus!
