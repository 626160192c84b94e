//! Script text of the block/statement model.
//!
//! Text is produced as a sequence of fragments: pieces of text, and doubles
//! given by their bit patterns, which the caller prints in Rust's shortest
//! round-trip decimal form. Joined in order, they are the script.
use vstd::prelude::*;
use vstd::string::StringExecFns;

use crate::order::Text;
use crate::text::{
    Block, BlockType, BlockV, Definition, Function, LoopingMethod, RValue, Statement, StatementV,
    Transparency, ValueV,
};

verus! {

#[derive(Debug)]
pub enum Fragment {
    Text(String),
    /// A double, by its bit pattern.
    Double(u64),
}

pub enum FragmentV {
    Text(Seq<char>),
    Double(u64),
}

impl View for Fragment {
    type V = FragmentV;

    open spec fn view(&self) -> FragmentV {
        match self {
            Fragment::Text(s) => FragmentV::Text(s@),
            Fragment::Double(b) => FragmentV::Double(*b),
        }
    }
}

pub open spec fn frags_view(v: Seq<Fragment>) -> Seq<FragmentV> {
    v.map_values(|f: Fragment| f@)
}

pub open spec fn t(s: Seq<char>) -> Seq<FragmentV> {
    seq![FragmentV::Text(s)]
}

pub open spec fn digit_char(d: int) -> char {
    (d + 48) as char
}

/// The decimal digits of a natural number.
pub open spec fn digits(n: nat) -> Seq<char>
    decreases n,
{
    if n < 10 {
        seq![digit_char(n as int)]
    } else {
        digits(n / 10).push(digit_char((n % 10) as int))
    }
}

/// An integer in decimal, with a leading `-` when negative.
pub open spec fn decimal(n: int) -> Seq<char> {
    if n < 0 {
        seq!['-'] + digits((-n) as nat)
    } else {
        digits(n as nat)
    }
}

/// Relies on the `Display` of `i32`: the integer in decimal, `-` first when negative.
#[verifier::external_body]
fn decimal_text(n: i32) -> (r: String)
    ensures
        r@ == decimal(n as int),
{
    n.to_string()
}

pub open spec fn block_type_name(b: BlockType) -> Seq<char> {
    match b {
        BlockType::DefineSettings => "defineSettings"@,
        BlockType::DefineObject => "defineObject"@,
        BlockType::DefineSound => "defineSound"@,
        BlockType::DefineEvent => "defineEvent"@,
        BlockType::DefineAnim => "defineAnim"@,
        BlockType::ParallelAction => "parallelAction"@,
        BlockType::DefineStill => "defineStill"@,
        BlockType::SerialAction => "serialAction"@,
    }
}

pub open spec fn definition_text(d: Definition) -> Seq<char> {
    match d {
        Definition::LoopingMethod(LoopingMethod::Cache) => "CACHE"@,
        Definition::LoopingMethod(LoopingMethod::Off) => "NONE"@,
        Definition::LoopingMethod(LoopingMethod::Stream) => "STREAM"@,
        Definition::Duration(x) => if x.value == -1 {
            "INDEFINITE"@
        } else {
            decimal(x.value as int)
        },
        Definition::PaletteManagement(_) => "NONE"@,
        Definition::Transparency(Transparency::Yes) => "YES"@,
        Definition::Transparency(Transparency::Fast) => "FAST"@,
    }
}

/// Arguments separated by `, `.
pub open spec fn args_frags(args: Seq<Seq<char>>) -> Seq<FragmentV>
    decreases args.len(),
{
    if args.len() == 0 {
        seq![]
    } else if args.len() == 1 {
        t(args[0])
    } else {
        args_frags(args.drop_last()) + t(", "@) + t(args.last())
    }
}

pub open spec fn value_frags(v: ValueV) -> Seq<FragmentV> {
    match v {
        ValueV::Str(s) => t("\""@) + t(s) + t("\""@),
        ValueV::Int(i) => t(decimal(i as int)),
        ValueV::Vec3(v) => t("("@) + seq![FragmentV::Double(v.x)] + t(", "@) + seq![
            FragmentV::Double(v.y),
        ] + t(", "@) + seq![FragmentV::Double(v.z)] + t(")"@),
        ValueV::Coords(x, y, z) => t("("@) + t(x) + t(", "@) + t(y) + t(", "@) + t(z) + t(")"@),
        ValueV::Def(d) => t(definition_text(d)),
        ValueV::Call(n, args) => t(n) + t("("@) + args_frags(args) + t(")"@),
    }
}

pub open spec fn statement_frags(s: StatementV) -> Seq<FragmentV> {
    match s {
        StatementV::Assign(n, v) => t(n) + t(" = "@) + value_frags(v),
        StatementV::Declare(n) => t(n),
    }
}

/// Each statement on its own line, indented by a tab and ended by `;`.
pub open spec fn statements_frags(ss: Seq<StatementV>) -> Seq<FragmentV>
    decreases ss.len(),
{
    if ss.len() == 0 {
        seq![]
    } else {
        statements_frags(ss.drop_last()) + t("\t"@) + statement_frags(ss.last()) + t(";\n"@)
    }
}

pub open spec fn block_frags(b: BlockV) -> Seq<FragmentV> {
    t(block_type_name(b.block_type)) + t(" "@) + t(b.name) + (if b.is_weave {
        t(" Weave"@)
    } else {
        seq![]
    }) + t(" {\n"@) + statements_frags(b.statements) + t("}\n\n"@)
}

pub open spec fn blocks_frags(bs: Seq<BlockV>) -> Seq<FragmentV>
    decreases bs.len(),
{
    if bs.len() == 0 {
        seq![]
    } else {
        blocks_frags(bs.drop_last()) + block_frags(bs.last())
    }
}

/// The text of a document: its settings block, then its other blocks.
pub open spec fn text_frags(settings: BlockV, blocks: Seq<BlockV>) -> Seq<FragmentV> {
    block_frags(settings) + blocks_frags(blocks)
}

fn push_str(out: &mut Vec<Fragment>, s: &str)
    ensures
        frags_view(final(out)@) == frags_view(old(out)@) + t(s@),
{
    out.push(Fragment::Text(String::from_str(s)));
    assert(frags_view(out@) =~= frags_view(old(out)@) + t(s@));
}

fn push_string(out: &mut Vec<Fragment>, s: &String)
    ensures
        frags_view(final(out)@) == frags_view(old(out)@) + t(s@),
{
    out.push(Fragment::Text(s.clone()));
    assert(frags_view(out@) =~= frags_view(old(out)@) + t(s@));
}

fn push_double(out: &mut Vec<Fragment>, b: u64)
    ensures
        frags_view(final(out)@) == frags_view(old(out)@) + seq![FragmentV::Double(b)],
{
    out.push(Fragment::Double(b));
    assert(frags_view(out@) =~= frags_view(old(out)@) + seq![FragmentV::Double(b)]);
}

impl BlockType {
    pub fn name(&self) -> (r: &'static str)
        ensures
            r@ == block_type_name(*self),
    {
        match self {
            BlockType::DefineSettings => "defineSettings",
            BlockType::DefineObject => "defineObject",
            BlockType::DefineSound => "defineSound",
            BlockType::DefineEvent => "defineEvent",
            BlockType::DefineAnim => "defineAnim",
            BlockType::ParallelAction => "parallelAction",
            BlockType::DefineStill => "defineStill",
            BlockType::SerialAction => "serialAction",
        }
    }
}

impl Definition {
    pub fn to_text(&self) -> (r: String)
        ensures
            r@ == definition_text(*self),
    {
        match self {
            Definition::LoopingMethod(LoopingMethod::Cache) => String::from_str("CACHE"),
            Definition::LoopingMethod(LoopingMethod::Off) => String::from_str("NONE"),
            Definition::LoopingMethod(LoopingMethod::Stream) => String::from_str("STREAM"),
            Definition::Duration(x) => if x.value == -1 {
                String::from_str("INDEFINITE")
            } else {
                decimal_text(x.value)
            },
            Definition::PaletteManagement(_) => String::from_str("NONE"),
            Definition::Transparency(Transparency::Yes) => String::from_str("YES"),
            Definition::Transparency(Transparency::Fast) => String::from_str("FAST"),
        }
    }
}

impl Function {
    pub fn render(&self, out: &mut Vec<Fragment>)
        ensures
            frags_view(final(out)@) == frags_view(old(out)@) + t(self.name@) + t("("@)
                + args_frags(crate::text::strings_view(self.args@)) + t(")"@),
    {
        let ghost start = frags_view(out@);
        let ghost args = crate::text::strings_view(self.args@);
        push_string(out, &self.name);
        push_str(out, "(");
        let ghost mid = frags_view(out@);
        let n = self.args.len();
        let mut i: usize = 0;
        while i < n
            invariant
                n == self.args@.len(),
                args == crate::text::strings_view(self.args@),
                i <= n,
                frags_view(out@) == mid + args_frags(args.subrange(0, i as int)),
            decreases n - i,
        {
            if i > 0 {
                push_str(out, ", ");
            }
            push_string(out, &self.args[i]);
            proof {
                let pre = args.subrange(0, i + 1);
                assert(pre.drop_last() =~= args.subrange(0, i as int));
                assert(pre.last() == self.args@[i as int]@);
                if i == 0 {
                    assert(args.subrange(0, 0) =~= Seq::<Seq<char>>::empty());
                }
            }
            i = i + 1;
        }
        assert(args.subrange(0, n as int) =~= args);
        push_str(out, ")");
    }
}

impl RValue {
    pub fn render(&self, out: &mut Vec<Fragment>)
        ensures
            frags_view(final(out)@) == frags_view(old(out)@) + value_frags(self@),
    {
        let ghost start = frags_view(out@);
        match self {
            RValue::String(s) => {
                push_str(out, "\"");
                push_string(out, s);
                push_str(out, "\"");
            },
            RValue::Integer(i) => {
                let s = decimal_text(*i);
                push_string(out, &s);
            },
            RValue::Vec3(v) => {
                push_str(out, "(");
                push_double(out, v.x);
                push_str(out, ", ");
                push_double(out, v.y);
                push_str(out, ", ");
                push_double(out, v.z);
                push_str(out, ")");
            },
            RValue::Coords(x, y, z) => {
                push_str(out, "(");
                push_string(out, x);
                push_str(out, ", ");
                push_string(out, y);
                push_str(out, ", ");
                push_string(out, z);
                push_str(out, ")");
            },
            RValue::Definition(d) => {
                let s = d.to_text();
                push_string(out, &s);
            },
            RValue::Function(f) => {
                f.render(out);
            },
        }
        assert(frags_view(out@) =~= start + value_frags(self@));
    }
}

impl Statement {
    pub fn render(&self, out: &mut Vec<Fragment>)
        ensures
            frags_view(final(out)@) == frags_view(old(out)@) + statement_frags(self@),
    {
        let ghost start = frags_view(out@);
        match self {
            Statement::Assignment(n, v) => {
                push_string(out, n);
                push_str(out, " = ");
                v.render(out);
            },
            Statement::Declaration(n) => {
                push_string(out, n);
            },
        }
        assert(frags_view(out@) =~= start + statement_frags(self@));
    }
}

impl Block {
    pub fn render(&self, out: &mut Vec<Fragment>)
        ensures
            frags_view(final(out)@) == frags_view(old(out)@) + block_frags(self@),
    {
        let ghost start = frags_view(out@);
        push_str(out, self.block_type.name());
        push_str(out, " ");
        push_string(out, &self.name);
        if self.is_weave {
            push_str(out, " Weave");
        }
        push_str(out, " {\n");
        let ghost mid = frags_view(out@);
        let ghost ss = crate::text::statements_view(self.statements@);
        let n = self.statements.len();
        let mut i: usize = 0;
        while i < n
            invariant
                n == self.statements@.len(),
                ss == crate::text::statements_view(self.statements@),
                i <= n,
                frags_view(out@) == mid + statements_frags(ss.subrange(0, i as int)),
            decreases n - i,
        {
            push_str(out, "\t");
            self.statements[i].render(out);
            push_str(out, ";\n");
            proof {
                let pre = ss.subrange(0, i + 1);
                assert(pre.drop_last() =~= ss.subrange(0, i as int));
            }
            i = i + 1;
        }
        assert(ss.subrange(0, n as int) =~= ss);
        push_str(out, "}\n\n");
        assert(frags_view(out@) =~= start + block_frags(self@));
    }
}

impl Text {
    /// The document's text: the settings block, then every other block in order.
    pub fn collect(&self) -> (r: Vec<Fragment>)
        ensures
            frags_view(r@) == text_frags(self.settings@, crate::text::blocks_view(self.blocks@)),
    {
        let mut out: Vec<Fragment> = Vec::new();
        assert(frags_view(out@) =~= seq![]);
        self.settings.render(&mut out);
        let ghost mid = frags_view(out@);
        let ghost bs = crate::text::blocks_view(self.blocks@);
        let n = self.blocks.len();
        let mut i: usize = 0;
        while i < n
            invariant
                n == self.blocks@.len(),
                bs == crate::text::blocks_view(self.blocks@),
                i <= n,
                frags_view(out@) == mid + blocks_frags(bs.subrange(0, i as int)),
            decreases n - i,
        {
            self.blocks[i].render(&mut out);
            proof {
                let pre = bs.subrange(0, i + 1);
                assert(pre.drop_last() =~= bs.subrange(0, i as int));
            }
            i = i + 1;
        }
        assert(bs.subrange(0, n as int) =~= bs);
        assert(frags_view(out@) =~= text_frags(self.settings@, bs));
        out
    }
}

} // verus!
