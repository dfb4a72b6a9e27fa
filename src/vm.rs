//! The stack machine that runs a chunk.
use vstd::prelude::*;
use vstd::array::*;
use vstd::slice::slice_subrange;
use crate::chunk::{Chunk, ChunkView, OpCode, spec_line_at};
use crate::errors::{ErrorKind, ReloxError};
use crate::value::{ArithOp, Value, spec_binary, spec_negate};

verus! {

/// The number of slots of the operand stack.
pub const STACK_MAX: usize = 256;

/// A fixed-capacity stack over a flat array and a top-of-stack index.
#[derive(Debug)]
pub struct VmStack<T> {
    stack: [T; STACK_MAX],
    stack_top: usize,
}

impl<T> View for VmStack<T> {
    type V = Seq<T>;

    /// The values below the top, oldest first.
    closed spec fn view(&self) -> Seq<T> {
        self.stack@.subrange(0, self.stack_top as int)
    }
}

impl<T> VmStack<T> {
    /// Every slot of the underlying array, including those above the top.
    pub closed spec fn slots(&self) -> Seq<T> {
        self.stack@
    }

    pub closed spec fn wf(&self) -> bool {
        self.stack_top <= STACK_MAX
    }

    proof fn lemma_view(&self)
        requires
            self.wf(),
        ensures
            self@.len() == self.stack_top,
            self.slots().len() == STACK_MAX,
            forall|i: int| 0 <= i < self@.len() ==> self@[i] == self.slots()[i],
    {
    }
}

impl<T: Default + Copy> VmStack<T> {
    pub fn new() -> (r: Self)
        ensures
            r.wf(),
            r@ == Seq::<T>::empty(),
    {
        let r = Self { stack: array_fill_for_copy_types(T::default()), stack_top: 0 };
        assert(r@ =~= Seq::<T>::empty());
        r
    }

    /// The number of values on the stack.
    pub fn len(&self) -> (r: usize)
        requires
            self.wf(),
        ensures
            r == self@.len(),
    {
        proof { self.lemma_view(); }
        self.stack_top
    }

    /// Pushes a value; a full stack is a `StackOverFlow` runtime error and is
    /// left unchanged.
    pub fn push(&mut self, val: T) -> (r: Result<(), ReloxError>)
        requires
            old(self).wf(),
        ensures
            final(self).wf(),
            r is Ok <==> old(self)@.len() < STACK_MAX,
            r is Ok ==> final(self)@ == old(self)@.push(val),
            r matches Err(e) ==> {
                &&& e is RuntimeError
                &&& e->RuntimeError_0.kind == ErrorKind::StackOverFlow
                &&& e->RuntimeError_0.line == 0
                &&& final(self)@ == old(self)@
            },
    {
        proof { self.lemma_view(); }
        if self.stack_top >= STACK_MAX {
            return Err(
                ReloxError::new_runtime_error(
                    0,
                    "StackOverflow bro".to_string(),
                    ErrorKind::StackOverFlow,
                ),
            );
        }
        let top = self.stack_top;
        self.stack[top] = val;
        self.stack_top = top + 1;
        assert(self@ =~= old(self)@.push(val));
        Ok(())
    }

    /// Pops the top value; popping an empty stack is a fatal error.
    pub fn pop(&mut self) -> (r: Result<T, ReloxError>)
        requires
            old(self).wf(),
        ensures
            final(self).wf(),
            r is Ok <==> old(self)@.len() > 0,
            r matches Ok(v) ==> {
                &&& v == old(self)@.last()
                &&& final(self)@ == old(self)@.drop_last()
            },
            r matches Err(e) ==> e is FatalError && final(self)@ == old(self)@,
    {
        proof { self.lemma_view(); }
        if self.stack_top == 0 {
            return Err(
                ReloxError::new_fatal_error(
                    "Tried to pop invalid index from instruction stack".to_string(),
                ),
            );
        }
        self.stack_top = self.stack_top - 1;
        let val = self.stack[self.stack_top];
        assert(self@ =~= old(self)@.drop_last());
        Ok(val)
    }

    /// The slots `from..to` of the underlying array.
    pub fn stack_slice(&self, from: usize, to: usize) -> (r: &[T])
        requires
            from <= to <= STACK_MAX,
            self.wf(),
        ensures
            r@ == self.slots().subrange(from as int, to as int),
            to <= self@.len() ==> r@ == self@.subrange(from as int, to as int),
    {
        proof { self.lemma_view(); }
        let r = slice_subrange(array_as_slice(&self.stack), from, to);
        assert(to <= self@.len() ==> r@ =~= self@.subrange(from as int, to as int));
        r
    }
}

/// How a run ends.
pub enum RunOutcome {
    /// `Return` popped this value.
    Returned(Value),
    /// A runtime error of this kind, attributed to this line.
    Runtime { line: usize, kind: ErrorKind },
    /// An internal error: a malformed chunk.
    Fatal,
}

/// What one instruction does to the stack.
pub enum Step {
    /// Go on with the next instruction and this stack.
    Continue(Seq<Value>),
    /// The run ends here.
    Stop(RunOutcome),
}

/// The instruction behind an arithmetic opcode.
pub open spec fn arith_of(op: OpCode) -> Option<ArithOp> {
    match op {
        OpCode::Add => Some(ArithOp::Add),
        OpCode::Substract => Some(ArithOp::Subtract),
        OpCode::Multiply => Some(ArithOp::Multiply),
        OpCode::Divide => Some(ArithOp::Divide),
        _ => None,
    }
}

/// Pushing `v` onto `stack`, which overflows past `STACK_MAX` values.
pub open spec fn push_step(stack: Seq<Value>, v: Value) -> Step {
    if stack.len() >= STACK_MAX {
        Step::Stop(RunOutcome::Runtime { line: 0, kind: ErrorKind::StackOverFlow })
    } else {
        Step::Continue(stack.push(v))
    }
}

/// The effect of the instruction at `ip`, which exists, on `stack`.
pub open spec fn step(c: ChunkView, ip: int, stack: Seq<Value>) -> Step {
    let line = spec_line_at(c, ip) as usize;
    match c.code[ip] {
        OpCode::Constant { constant_offset } => {
            if (constant_offset as int) < c.constants.len() {
                push_step(stack, c.constants[constant_offset as int])
            } else {
                Step::Stop(RunOutcome::Fatal)
            }
        },
        OpCode::Negate => {
            if stack.len() == 0 {
                Step::Stop(RunOutcome::Fatal)
            } else {
                match spec_negate(stack.last()) {
                    Some(v) => push_step(stack.drop_last(), v),
                    None => Step::Stop(RunOutcome::Runtime { line, kind: ErrorKind::VmError }),
                }
            }
        },
        OpCode::Return => {
            if stack.len() == 0 {
                Step::Stop(RunOutcome::Fatal)
            } else {
                Step::Stop(RunOutcome::Returned(stack.last()))
            }
        },
        OpCode::Nil => push_step(stack, Value::Nil),
        OpCode::True => push_step(stack, Value::Bool(true)),
        OpCode::False => push_step(stack, Value::Bool(false)),
        op => {
            let aop = arith_of(op)->Some_0;
            if stack.len() < 2 {
                Step::Stop(RunOutcome::Fatal)
            } else {
                match spec_binary(aop, stack[stack.len() - 2], stack.last()) {
                    Some(v) => push_step(stack.drop_last().drop_last(), v),
                    None => Step::Stop(RunOutcome::Runtime { line, kind: ErrorKind::VmError }),
                }
            }
        },
    }
}

/// How running `c` from instruction `ip` with `stack` ends.
pub open spec fn spec_run(c: ChunkView, ip: int, stack: Seq<Value>) -> RunOutcome
    decreases c.code.len() - ip,
{
    if ip < 0 || ip >= c.code.len() {
        RunOutcome::Fatal
    } else {
        match step(c, ip, stack) {
            Step::Continue(s) => spec_run(c, ip + 1, s),
            Step::Stop(o) => o,
        }
    }
}

/// How running a whole chunk ends.
pub open spec fn chunk_outcome(c: ChunkView) -> RunOutcome {
    spec_run(c, 0, Seq::empty())
}

/// `r` is the result that stands for outcome `o`.
pub open spec fn result_matches(r: Result<Value, ReloxError>, o: RunOutcome) -> bool {
    match (r, o) {
        (Ok(v), RunOutcome::Returned(w)) => v == w,
        (Err(ReloxError::RuntimeError(e)), RunOutcome::Runtime { line, kind }) => {
            e.line == line && e.kind == kind
        },
        (Err(ReloxError::FatalError(_)), RunOutcome::Fatal) => true,
        _ => false,
    }
}

/// The state of a machine, as values.
pub struct VmView {
    pub chunk: ChunkView,
    pub ip: int,
    pub stack: Seq<Value>,
    pub debug_mode: bool,
}

/// A stack machine that owns the chunk it runs.
#[derive(Debug)]
pub struct Vm {
    chunk: Chunk,
    ip: usize,
    value_stack: VmStack<Value>,
    debug_mode: bool,
}

impl View for Vm {
    type V = VmView;

    closed spec fn view(&self) -> VmView {
        VmView {
            chunk: self.chunk@,
            ip: self.ip as int,
            stack: self.value_stack@,
            debug_mode: self.debug_mode,
        }
    }
}

impl Vm {
    pub closed spec fn wf(&self) -> bool {
        &&& self.value_stack.wf()
        &&& self.ip <= self.chunk@.code.len()
    }

    /// Runs `chunk` on a fresh machine.
    pub fn run_with(chunk: Chunk, debug_mode: bool) -> (r: Result<Value, ReloxError>)
        ensures
            result_matches(r, chunk_outcome(chunk@)),
    {
        let mut vm = Self::new(chunk, debug_mode);
        vm.run()
    }

    pub fn new(chunk: Chunk, debug_mode: bool) -> (r: Self)
        ensures
            r.wf(),
            r@.chunk == chunk@,
            r@.ip == 0,
            r@.stack == Seq::<Value>::empty(),
            r@.debug_mode == debug_mode,
    {
        Self { chunk, debug_mode, ip: 0, value_stack: VmStack::new() }
    }

    pub fn chunk(&self) -> (r: &Chunk)
        ensures
            r@ == self@.chunk,
    {
        &self.chunk
    }

    pub fn ip(&self) -> (r: usize)
        ensures
            r == self@.ip,
    {
        self.ip
    }

    pub fn debug_mode(&self) -> (r: bool)
        ensures
            r == self@.debug_mode,
    {
        self.debug_mode
    }

    pub fn value_stack(&self) -> (r: &VmStack<Value>)
        requires
            self.wf(),
        ensures
            r.wf(),
            r@ == self@.stack,
    {
        &self.value_stack
    }

    /// Runs instructions until one ends the run.
    pub fn run(&mut self) -> (r: Result<Value, ReloxError>)
        requires
            old(self).wf(),
        ensures
            final(self).wf(),
            final(self)@.chunk == old(self)@.chunk,
            result_matches(r, spec_run(old(self)@.chunk, old(self)@.ip, old(self)@.stack)),
    {
        loop
            invariant
                self.wf(),
                self@.chunk == old(self)@.chunk,
                spec_run(self@.chunk, self@.ip, self@.stack) == spec_run(
                    old(self)@.chunk,
                    old(self)@.ip,
                    old(self)@.stack,
                ),
            decreases self@.chunk.code.len() - self@.ip,
        {
            match self.step() {
                Ok(Some(value)) => return Ok(value),
                Ok(None) => {},
                Err(e) => return Err(e),
            }
        }
    }

    /// Executes one instruction: `Some` with the result once `Return` ran,
    /// `None` to go on.
    pub fn step(&mut self) -> (r: Result<Option<Value>, ReloxError>)
        requires
            old(self).wf(),
        ensures
            final(self).wf(),
            final(self)@.chunk == old(self)@.chunk,
            final(self)@.debug_mode == old(self)@.debug_mode,
            ({
                let c = old(self)@.chunk;
                let ip = old(self)@.ip;
                let s = old(self)@.stack;
                if ip >= c.code.len() {
                    r matches Err(e) && e is FatalError
                } else {
                    match step(c, ip, s) {
                        Step::Continue(s2) => r == Ok::<Option<Value>, ReloxError>(None)
                            && final(self)@.ip == ip + 1 && final(self)@.stack == s2,
                        Step::Stop(o) => match r {
                            Ok(Some(v)) => result_matches(Ok(v), o),
                            Ok(None) => false,
                            Err(e) => result_matches(Err(e), o),
                        },
                    }
                }
            }),
    {
        let ip = self.ip;
        let count = self.chunk.len();
        let instruction = match self.chunk.instruction_at(ip) {
            Some(instruction) => *instruction,
            None => {
                return Err(ReloxError::new_fatal_error("Read wrong instruction".to_string()));
            },
        };
        assert(ip < count);
        self.ip = ip + 1;
        match instruction {
            OpCode::Constant { constant_offset } => {
                let the_constant = match self.chunk.read_constant(constant_offset) {
                    Some(v) => *v,
                    None => {
                        return Err(ReloxError::new_fatal_error("Constant not set".to_string()));
                    },
                };
                self.value_stack.push(the_constant)?;
            },
            OpCode::Negate => {
                let value = self.value_stack.pop()?;
                match value.neg() {
                    Ok(neg_value) => self.value_stack.push(neg_value)?,
                    Err(error) => {
                        return Err(self.runtime_error(ip, error));
                    },
                }
            },
            OpCode::Add => self.binary_op(ArithOp::Add, ip)?,
            OpCode::Substract => self.binary_op(ArithOp::Subtract, ip)?,
            OpCode::Divide => self.binary_op(ArithOp::Divide, ip)?,
            OpCode::Multiply => self.binary_op(ArithOp::Multiply, ip)?,
            OpCode::Return => {
                let value = self.value_stack.pop()?;
                return Ok(Some(value));
            },
            OpCode::Nil => self.value_stack.push(Value::Nil)?,
            OpCode::True => self.value_stack.push(Value::Bool(true))?,
            OpCode::False => self.value_stack.push(Value::Bool(false))?,
        }
        Ok(None)
    }

    /// A `VmError` at the line of instruction `ip`, carrying the message of `error`.
    fn runtime_error(&self, ip: usize, error: ReloxError) -> (r: ReloxError)
        ensures
            r is RuntimeError,
            r->RuntimeError_0.line == spec_line_at(self@.chunk, ip as int) as usize,
            r->RuntimeError_0.kind == ErrorKind::VmError,
    {
        let line_num = self.chunk.line_at(ip);
        let message = error.message().clone();
        ReloxError::new_runtime_error(line_num as usize, message, ErrorKind::VmError)
    }

    /// Pops the right operand, then the left one, and pushes `left op right`.
    fn binary_op(&mut self, op: ArithOp, ip: usize) -> (r: Result<(), ReloxError>)
        requires
            old(self).wf(),
            (ip as int) < old(self)@.chunk.code.len(),
            old(self).ip == ip + 1,
        ensures
            final(self).wf(),
            final(self)@.chunk == old(self)@.chunk,
            final(self)@.ip == old(self)@.ip,
            final(self)@.debug_mode == old(self)@.debug_mode,
            ({
                let s = old(self)@.stack;
                let line = spec_line_at(old(self)@.chunk, ip as int) as usize;
                if s.len() < 2 {
                    r matches Err(e) && e is FatalError
                } else {
                    match spec_binary(op, s[s.len() - 2], s.last()) {
                        Some(v) => match push_step(s.drop_last().drop_last(), v) {
                            Step::Continue(s2) => r is Ok && final(self)@.stack == s2,
                            Step::Stop(o) => r matches Err(e) && result_matches(Err(e), o),
                        },
                        None => r matches Err(e) && result_matches(
                            Err(e),
                            RunOutcome::Runtime { line, kind: ErrorKind::VmError },
                        ),
                    }
                }
            }),
    {
        let x = self.value_stack.pop()?;
        let y = self.value_stack.pop()?;
        match y.binary(op, x) {
            Ok(value) => self.value_stack.push(value),
            Err(error) => Err(self.runtime_error(ip, error)),
        }
    }
}

} // verus!
