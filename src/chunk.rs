//! The bytecode container: instructions, their source lines, and a bounded
//! constant pool.
use vstd::prelude::*;
use crate::errors::ReloxError;
use crate::value::Value;

verus! {

/// One instruction of the stack machine.
#[derive(Debug, PartialEq, Eq, Clone, Copy, Structural)]
pub enum OpCode {
    Constant { constant_offset: u8 },
    Negate,
    Return,
    Add,
    Substract,
    Divide,
    Multiply,
    Nil,
    True,
    False,
}

/// The largest number of constants one chunk can hold: a `Constant`
/// instruction addresses the pool with one byte.
pub const CONSTANT_POOL_MAX: usize = 255;

/// The contents of a chunk, as sequences.
pub struct ChunkView {
    pub code: Seq<OpCode>,
    pub lines: Seq<u16>,
    pub constants: Seq<Value>,
}

/// An append-only sequence of instructions, with a parallel table of source
/// lines and the constants the instructions refer to.
#[derive(Debug, Clone)]
pub struct Chunk {
    code: Vec<OpCode>,
    constant_pool: Vec<Value>,
    lines: Vec<u16>,
}

impl View for Chunk {
    type V = ChunkView;

    closed spec fn view(&self) -> ChunkView {
        ChunkView { code: self.code@, lines: self.lines@, constants: self.constant_pool@ }
    }
}

impl Chunk {
    /// One line per instruction, and no more constants than a byte can address.
    pub open spec fn wf(&self) -> bool {
        &&& self@.code.len() == self@.lines.len()
        &&& self@.constants.len() <= CONSTANT_POOL_MAX
    }

    pub fn new() -> (r: Self)
        ensures
            r.wf(),
            r@.code == Seq::<OpCode>::empty(),
            r@.lines == Seq::<u16>::empty(),
            r@.constants == Seq::<Value>::empty(),
    {
        Self { code: Vec::new(), constant_pool: Vec::new(), lines: Vec::new() }
    }

    pub fn is_empty(&self) -> (r: bool)
        ensures
            r == (self@.code.len() == 0),
    {
        self.code.len() == 0
    }

    /// The number of instructions.
    pub fn len(&self) -> (r: usize)
        ensures
            r == self@.code.len(),
    {
        self.code.len()
    }

    /// The number of constants in the pool.
    pub fn constant_count(&self) -> (r: usize)
        ensures
            r == self@.constants.len(),
    {
        self.constant_pool.len()
    }

    pub fn instruction_at(&self, index: usize) -> (r: Option<&OpCode>)
        ensures
            index < self@.code.len() ==> r == Some(&self@.code[index as int]),
            index >= self@.code.len() ==> r is None,
    {
        if index < self.code.len() {
            Some(&self.code[index])
        } else {
            None
        }
    }

    /// The line of the instruction at `index`, or 0 where there is none.
    pub fn line_at(&self, index: usize) -> (r: u16)
        ensures
            r == spec_line_at(self@, index as int),
    {
        if index < self.lines.len() {
            self.lines[index]
        } else {
            0
        }
    }

    pub fn read_constant(&self, index: u8) -> (r: Option<&Value>)
        ensures
            (index as int) < self@.constants.len() ==> r == Some(&self@.constants[index as int]),
            (index as int) >= self@.constants.len() ==> r is None,
    {
        if (index as usize) < self.constant_pool.len() {
            Some(&self.constant_pool[index as usize])
        } else {
            None
        }
    }

    /// Appends one instruction with its source line.
    pub fn write_bytecode(&mut self, op_code: OpCode, line: u16)
        ensures
            final(self)@.code == old(self)@.code.push(op_code),
            final(self)@.lines == old(self)@.lines.push(line),
            final(self)@.constants == old(self)@.constants,
            old(self).wf() ==> final(self).wf(),
    {
        self.code.push(op_code);
        self.lines.push(line);
    }

    /// Appends a constant to the pool together with the instruction that
    /// pushes it; fails, changing nothing, once the pool is full.
    pub fn add_constant(&mut self, constant: Value, line: u16) -> (r: Result<(), ReloxError>)
        requires
            old(self).wf(),
        ensures
            final(self).wf(),
            r is Ok <==> old(self)@.constants.len() < CONSTANT_POOL_MAX,
            r is Ok ==> {
                &&& final(self)@.constants == old(self)@.constants.push(constant)
                &&& final(self)@.code == old(self)@.code.push(
                    OpCode::Constant { constant_offset: old(self)@.constants.len() as u8 },
                )
                &&& final(self)@.lines == old(self)@.lines.push(line)
            },
            r matches Err(e) ==> e is FatalError && final(self)@ == old(self)@,
    {
        if self.constant_pool.len() >= CONSTANT_POOL_MAX {
            return Err(ReloxError::new_fatal_error("Constant Pool max reached".to_string()));
        }
        self.constant_pool.push(constant);
        let offset = (self.constant_pool.len() - 1) as u8;
        self.write_bytecode(OpCode::Constant { constant_offset: offset }, line);
        Ok(())
    }
}

/// The line recorded for instruction `index`, or 0 where there is none.
pub open spec fn spec_line_at(c: ChunkView, index: int) -> u16 {
    if 0 <= index < c.lines.len() {
        c.lines[index]
    } else {
        0
    }
}

} // verus!
