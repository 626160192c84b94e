//! The block/statement model shared by decoded containers and parsed scripts,
//! with a mathematical view of each type.
use vstd::prelude::*;

use crate::object::Vec3;

verus! {

#[derive(Clone, Copy, Debug, PartialEq, Eq, Structural)]
pub enum LoopingMethod {
    Cache,
    /// Written `NONE`.
    Off,
    Stream,
}

/// A duration in milliseconds; `-1` is written `INDEFINITE`.
#[derive(Clone, Copy, Debug, PartialEq, Eq, Structural)]
pub struct Duration {
    pub value: i32,
}

#[derive(Clone, Copy, Debug, PartialEq, Eq, Structural)]
pub enum PaletteManagement {
    /// Written `NONE`.
    Off,
}

#[derive(Clone, Copy, Debug, PartialEq, Eq, Structural)]
pub enum Transparency {
    Yes,
    Fast,
}

/// An enumerated value of the script language.
#[derive(Clone, Copy, Debug, PartialEq, Eq, Structural)]
pub enum Definition {
    LoopingMethod(LoopingMethod),
    Duration(Duration),
    PaletteManagement(PaletteManagement),
    Transparency(Transparency),
}

/// A call form: a name and string arguments.
#[derive(Debug)]
pub struct Function {
    pub name: String,
    pub args: Vec<String>,
}

/// The value of an assignment.
#[derive(Debug)]
pub enum RValue {
    String(String),
    Integer(i32),
    /// A vector of doubles, as decoded from a container.
    Vec3(Vec3),
    /// A vector as written in a script: its three decimal literals.
    Coords(String, String, String),
    Definition(Definition),
    Function(Function),
}

#[derive(Debug)]
pub enum Statement {
    Assignment(String, RValue),
    /// A bare name: a reference to a block defined elsewhere.
    Declaration(String),
}

#[derive(Clone, Copy, Debug, PartialEq, Eq, Structural)]
pub enum BlockType {
    DefineSettings,
    DefineObject,
    DefineSound,
    DefineEvent,
    DefineAnim,
    ParallelAction,
    DefineStill,
    SerialAction,
}

#[derive(Debug)]
pub struct Block {
    pub id: u32,
    pub block_type: BlockType,
    pub name: String,
    pub is_weave: bool,
    pub statements: Vec<Statement>,
}

/// What a value is, with strings as character sequences.
pub enum ValueV {
    Str(Seq<char>),
    Int(i32),
    Vec3(Vec3),
    Coords(Seq<char>, Seq<char>, Seq<char>),
    Def(Definition),
    Call(Seq<char>, Seq<Seq<char>>),
}

pub enum StatementV {
    Assign(Seq<char>, ValueV),
    Declare(Seq<char>),
}

pub struct BlockV {
    pub id: u32,
    pub block_type: BlockType,
    pub name: Seq<char>,
    pub is_weave: bool,
    pub statements: Seq<StatementV>,
}

pub open spec fn strings_view(v: Seq<String>) -> Seq<Seq<char>> {
    v.map_values(|s: String| s@)
}

impl View for RValue {
    type V = ValueV;

    open spec fn view(&self) -> ValueV {
        match self {
            RValue::String(s) => ValueV::Str(s@),
            RValue::Integer(i) => ValueV::Int(*i),
            RValue::Vec3(v) => ValueV::Vec3(*v),
            RValue::Coords(x, y, z) => ValueV::Coords(x@, y@, z@),
            RValue::Definition(d) => ValueV::Def(*d),
            RValue::Function(f) => ValueV::Call(f.name@, strings_view(f.args@)),
        }
    }
}

impl View for Statement {
    type V = StatementV;

    open spec fn view(&self) -> StatementV {
        match self {
            Statement::Assignment(n, v) => StatementV::Assign(n@, v@),
            Statement::Declaration(n) => StatementV::Declare(n@),
        }
    }
}

pub open spec fn statements_view(v: Seq<Statement>) -> Seq<StatementV> {
    v.map_values(|s: Statement| s@)
}

impl View for Block {
    type V = BlockV;

    open spec fn view(&self) -> BlockV {
        BlockV {
            id: self.id,
            block_type: self.block_type,
            name: self.name@,
            is_weave: self.is_weave,
            statements: statements_view(self.statements@),
        }
    }
}

pub open spec fn blocks_view(v: Seq<Block>) -> Seq<BlockV> {
    v.map_values(|b: Block| b@)
}

/// Appends one statement.
pub fn push_statement(v: &mut Vec<Statement>, s: Statement)
    ensures
        statements_view(final(v)@) == statements_view(old(v)@).push(s@),
{
    v.push(s);
    assert(statements_view(v@) =~= statements_view(old(v)@).push(s@));
}

/// Moves the blocks of `more` to the end of `v`.
pub fn append_blocks(v: &mut Vec<Block>, more: Vec<Block>)
    ensures
        blocks_view(final(v)@) == blocks_view(old(v)@) + blocks_view(more@),
{
    let mut more = more;
    let ghost tail = more@;
    let ghost head = v@;
    v.append(&mut more);
    assert(v@ == head + tail);
    assert(blocks_view(v@) =~= blocks_view(head) + blocks_view(tail));
}

/// Appends one block.
pub fn push_block(v: &mut Vec<Block>, b: Block)
    ensures
        blocks_view(final(v)@) == blocks_view(old(v)@).push(b@),
{
    v.push(b);
    assert(blocks_view(v@) =~= blocks_view(old(v)@).push(b@));
}

} // verus!
