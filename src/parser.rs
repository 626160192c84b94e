//! The grammar of script text, after preprocessing.
//!
//! ```text
//! file       := (ws block ws)* end
//! block      := ws type ws ident ws ("Weave" ws)? "{" ws (ws statement ws)* "}"
//! statement  := ws ident ws "=" ws value ws ";" | ws ident ws ";"
//! value      := string | integer | vector | definition | call
//! vector     := ws "(" ws float ws "," ws float ws "," ws float ")"
//! call       := ws ident ws "(" (ws string ws)? (ws "," ws ws string ws)* ")"
//! ```
//!
//! Alternatives are tried in order and the first that matches is taken, as
//! in a parsing expression grammar. Identifiers and white space are ASCII.
use vstd::prelude::*;

use crate::order::Text;
use crate::preprocessor::{PreprocessError, Preprocessor};
use crate::text::{
    push_block, push_statement, statements_view, Block, BlockType, BlockV, Definition, Duration,
    Function, LoopingMethod, RValue, Statement, StatementV, Transparency, ValueV,
};

verus! {

pub open spec fn is_ws(c: char) -> bool {
    c == ' ' || c == '\t' || c == '\n' || c == '\r' || c == '\x0b' || c == '\x0c'
}

pub open spec fn is_digit(c: char) -> bool {
    '0' <= c <= '9'
}

pub open spec fn is_ident_start(c: char) -> bool {
    ('a' <= c <= 'z') || ('A' <= c <= 'Z') || c == '_'
}

pub open spec fn is_ident_continue(c: char) -> bool {
    is_ident_start(c) || is_digit(c)
}

/// The position after the white space at `i`.
pub open spec fn ws(s: Seq<char>, i: int) -> int
    decreases s.len() - i,
{
    if 0 <= i < s.len() && is_ws(s[i]) {
        ws(s, i + 1)
    } else {
        i
    }
}

/// The position after the run of digits at `i`.
pub open spec fn digits_end(s: Seq<char>, i: int) -> int
    decreases s.len() - i,
{
    if 0 <= i < s.len() && is_digit(s[i]) {
        digits_end(s, i + 1)
    } else {
        i
    }
}

/// The position after the identifier characters at `i`.
pub open spec fn word_end(s: Seq<char>, i: int) -> int
    decreases s.len() - i,
{
    if 0 <= i < s.len() && is_ident_continue(s[i]) {
        word_end(s, i + 1)
    } else {
        i
    }
}

/// The text `w` stands at `i`.
pub open spec fn lit(s: Seq<char>, i: int, w: Seq<char>) -> bool {
    0 <= i && i + w.len() <= s.len() && s.subrange(i, i + w.len()) == w
}

pub open spec fn ident_end(s: Seq<char>, i: int) -> Option<int> {
    if 0 <= i < s.len() && is_ident_start(s[i]) {
        Some(word_end(s, i + 1))
    } else {
        None
    }
}

/// The value of a run of decimal digits.
pub open spec fn digits_value(d: Seq<char>) -> int
    decreases d.len(),
{
    if d.len() == 0 {
        0
    } else {
        digits_value(d.drop_last()) * 10 + (d.last() as int - '0' as int)
    }
}

/// An optional `-`, then `0` or a digit run without a leading zero.
pub open spec fn int_end(s: Seq<char>, i: int) -> Option<int> {
    let j = if lit(s, i, seq!['-']) {
        i + 1
    } else {
        i
    };
    if 0 <= j < s.len() && s[j] == '0' {
        Some(j + 1)
    } else if 0 <= j < s.len() && '1' <= s[j] <= '9' {
        Some(digits_end(s, j + 1))
    } else {
        None
    }
}

pub open spec fn int_value(s: Seq<char>, i: int, e: int) -> int {
    if lit(s, i, seq!['-']) {
        -digits_value(s.subrange(i + 1, e))
    } else {
        digits_value(s.subrange(i, e))
    }
}

/// A decimal integer that fits in `i32`, and the position after it.
pub open spec fn p_integer(s: Seq<char>, i: int) -> Option<(i32, int)> {
    match int_end(s, i) {
        Some(e) => if i32::MIN <= int_value(s, i, e) <= i32::MAX {
            Some((int_value(s, i, e) as i32, e))
        } else {
            None
        },
        None => None,
    }
}

/// The first `"` at or after `i`.
pub open spec fn quote_from(s: Seq<char>, i: int) -> Option<int>
    decreases s.len() - i,
{
    if i < 0 || i >= s.len() {
        None
    } else if s[i] == '"' {
        Some(i)
    } else {
        quote_from(s, i + 1)
    }
}

/// A string in double quotes, without escapes: its contents.
pub open spec fn p_string(s: Seq<char>, i: int) -> Option<(Seq<char>, int)> {
    if lit(s, i, seq!['"']) {
        match quote_from(s, i + 1) {
            Some(q) => Some((s.subrange(i + 1, q), q + 1)),
            None => None,
        }
    } else {
        None
    }
}

/// After the mantissa, an optional exponent: `e` or `E`, a sign, digits.
pub open spec fn exp_end(s: Seq<char>, e: int) -> int {
    if 0 <= e < s.len() && (s[e] == 'e' || s[e] == 'E') {
        let k = if e + 1 < s.len() && (s[e + 1] == '+' || s[e + 1] == '-') {
            e + 2
        } else {
            e + 1
        };
        if digits_end(s, k) > k {
            digits_end(s, k)
        } else {
            e
        }
    } else {
        e
    }
}

/// A decimal number: an integer, an optional fraction, an optional exponent.
pub open spec fn float_end(s: Seq<char>, i: int) -> Option<int> {
    match p_integer(s, i) {
        None => None,
        Some((_, e)) => {
            let f = if lit(s, e, seq!['.']) && digits_end(s, e + 1) > e + 1 {
                digits_end(s, e + 1)
            } else {
                e
            };
            Some(exp_end(s, f))
        },
    }
}

/// Three numbers in parentheses, kept as written.
pub open spec fn p_vec3(s: Seq<char>, i: int) -> Option<(ValueV, int)> {
    let o = ws(s, i);
    if !lit(s, o, seq!['(']) {
        None
    } else {
        let a = ws(s, o + 1);
        match float_end(s, a) {
            None => None,
            Some(ea) => {
                let ca = ws(s, ea);
                if !lit(s, ca, seq![',']) {
                    None
                } else {
                    let b = ws(s, ca + 1);
                    match float_end(s, b) {
                        None => None,
                        Some(eb) => {
                            let cb = ws(s, eb);
                            if !lit(s, cb, seq![',']) {
                                None
                            } else {
                                let c = ws(s, cb + 1);
                                match float_end(s, c) {
                                    None => None,
                                    Some(ec) => if lit(s, ec, seq![')']) {
                                        Some(
                                            (
                                                ValueV::Coords(
                                                    s.subrange(a, ea),
                                                    s.subrange(b, eb),
                                                    s.subrange(c, ec),
                                                ),
                                                ec + 1,
                                            ),
                                        )
                                    } else {
                                        None
                                    },
                                }
                            }
                        },
                    }
                }
            },
        }
    }
}

/// The keywords of enumerated values; an integer stands for a duration.
pub open spec fn p_definition(s: Seq<char>, i: int) -> Option<(Definition, int)> {
    if lit(s, i, "CACHE"@) {
        Some((Definition::LoopingMethod(LoopingMethod::Cache), i + "CACHE"@.len()))
    } else if lit(s, i, "NONE"@) {
        Some((Definition::LoopingMethod(LoopingMethod::Off), i + "NONE"@.len()))
    } else if lit(s, i, "STREAM"@) {
        Some((Definition::LoopingMethod(LoopingMethod::Stream), i + "STREAM"@.len()))
    } else if lit(s, i, "INDEFINITE"@) {
        Some((Definition::Duration(Duration { value: -1i32 }), i + "INDEFINITE"@.len()))
    } else if let Some((v, e)) = p_integer(s, i) {
        Some((Definition::Duration(Duration { value: v }), e))
    } else if lit(s, i, "YES"@) {
        Some((Definition::Transparency(Transparency::Yes), i + "YES"@.len()))
    } else if lit(s, i, "FAST"@) {
        Some((Definition::Transparency(Transparency::Fast), i + "FAST"@.len()))
    } else {
        None
    }
}

/// One `, "arg"` item of an argument list, and the position after it.
pub open spec fn p_more_arg(s: Seq<char>, k: int) -> Option<(Seq<char>, int)> {
    let c = ws(s, k);
    if !lit(s, c, seq![',']) {
        None
    } else {
        match p_string(s, ws(s, c + 1)) {
            Some((x, e)) => Some((x, ws(s, e))),
            None => None,
        }
    }
}

/// The `, "arg"` items from `k` on, as many as match.
pub open spec fn p_more_args(s: Seq<char>, k: int) -> (Seq<Seq<char>>, int)
    decreases s.len() - k,
{
    match p_more_arg(s, k) {
        Some((x, e)) => if k < e <= s.len() {
            (seq![x] + p_more_args(s, e).0, p_more_args(s, e).1)
        } else {
            (seq![], k)
        },
        None => (seq![], k),
    }
}

pub open spec fn p_function(s: Seq<char>, i: int) -> Option<(ValueV, int)> {
    let a = ws(s, i);
    match ident_end(s, a) {
        None => None,
        Some(e) => {
            let b = ws(s, e);
            if !lit(s, b, seq!['(']) {
                None
            } else {
                let (first, k) = match p_string(s, ws(s, b + 1)) {
                    Some((x, f)) => (seq![x], ws(s, f)),
                    None => (seq![], b + 1),
                };
                let (rest, m) = p_more_args(s, k);
                if lit(s, m, seq![')']) {
                    Some((ValueV::Call(s.subrange(a, e), first + rest), m + 1))
                } else {
                    None
                }
            }
        },
    }
}

pub open spec fn p_value(s: Seq<char>, i: int) -> Option<(ValueV, int)> {
    if let Some((x, e)) = p_string(s, i) {
        Some((ValueV::Str(x), e))
    } else if let Some((v, e)) = p_integer(s, i) {
        Some((ValueV::Int(v), e))
    } else if let Some((v, e)) = p_vec3(s, i) {
        Some((v, e))
    } else if let Some((d, e)) = p_definition(s, i) {
        Some((ValueV::Def(d), e))
    } else {
        p_function(s, i)
    }
}

pub open spec fn p_statement(s: Seq<char>, i: int) -> Option<(StatementV, int)> {
    let a = ws(s, i);
    match ident_end(s, a) {
        None => None,
        Some(e) => {
            let b = ws(s, e);
            if lit(s, b, seq!['=']) {
                match p_value(s, ws(s, b + 1)) {
                    Some((v, d)) => if lit(s, ws(s, d), seq![';']) {
                        Some((StatementV::Assign(s.subrange(a, e), v), ws(s, d) + 1))
                    } else {
                        None
                    },
                    None => None,
                }
            } else if lit(s, b, seq![';']) {
                Some((StatementV::Declare(s.subrange(a, e)), b + 1))
            } else {
                None
            }
        },
    }
}

/// Statements from `i` on, as many as match, each with white space around.
pub open spec fn p_statements(s: Seq<char>, i: int) -> (Seq<StatementV>, int)
    decreases s.len() - i,
{
    match p_statement(s, ws(s, i)) {
        Some((st, e)) => if i < ws(s, e) <= s.len() {
            (seq![st] + p_statements(s, ws(s, e)).0, p_statements(s, ws(s, e)).1)
        } else {
            (seq![], i)
        },
        None => (seq![], i),
    }
}

pub open spec fn block_keyword(t: BlockType) -> Seq<char> {
    match t {
        BlockType::DefineSettings => "defineSettings"@,
        BlockType::DefineObject => "defineObject"@,
        BlockType::DefineSound => "defineSound"@,
        BlockType::DefineEvent => "defineEvent"@,
        BlockType::DefineAnim => "defineAnim"@,
        BlockType::ParallelAction => "parallelAction"@,
        BlockType::DefineStill => "defineStill"@,
        BlockType::SerialAction => "serialAction"@,
    }
}

pub open spec fn block_types() -> Seq<BlockType> {
    seq![
        BlockType::DefineSettings,
        BlockType::DefineObject,
        BlockType::DefineSound,
        BlockType::DefineEvent,
        BlockType::DefineAnim,
        BlockType::ParallelAction,
        BlockType::DefineStill,
        BlockType::SerialAction,
    ]
}

/// The first of the block keywords from the `k`-th on that stands at `i`.
pub open spec fn p_block_type_from(s: Seq<char>, i: int, k: int) -> Option<(BlockType, int)>
    decreases 8 - k,
{
    if k < 0 || k >= 8 {
        None
    } else if lit(s, i, block_keyword(block_types()[k])) {
        Some((block_types()[k], i + block_keyword(block_types()[k]).len()))
    } else {
        p_block_type_from(s, i, k + 1)
    }
}

pub open spec fn p_block_type(s: Seq<char>, i: int) -> Option<(BlockType, int)> {
    p_block_type_from(s, i, 0)
}

pub open spec fn p_block(s: Seq<char>, i: int) -> Option<(BlockV, int)> {
    match p_block_type(s, ws(s, i)) {
        None => None,
        Some((t, e)) => {
            let b = ws(s, e);
            match ident_end(s, b) {
                None => None,
                Some(f) => {
                    let c = ws(s, f);
                    let weave = lit(s, c, "Weave"@);
                    let d = if weave {
                        ws(s, c + "Weave"@.len())
                    } else {
                        c
                    };
                    if !lit(s, d, seq!['{']) {
                        None
                    } else {
                        let (ss, h) = p_statements(s, ws(s, d + 1));
                        if lit(s, h, seq!['}']) {
                            Some(
                                (
                                    BlockV {
                                        id: 0,
                                        block_type: t,
                                        name: s.subrange(b, f),
                                        is_weave: weave,
                                        statements: ss,
                                    },
                                    h + 1,
                                ),
                            )
                        } else {
                            None
                        }
                    }
                },
            }
        },
    }
}

/// Blocks from `i` on, as many as match, each with white space around.
pub open spec fn p_blocks(s: Seq<char>, i: int) -> (Seq<BlockV>, int)
    decreases s.len() - i,
{
    match p_block(s, ws(s, i)) {
        Some((b, e)) => if i < ws(s, e) <= s.len() {
            (seq![b] + p_blocks(s, ws(s, e)).0, p_blocks(s, ws(s, e)).1)
        } else {
            (seq![], i)
        },
        None => (seq![], i),
    }
}

} // verus!

verus! {

fn is_ws_char(c: char) -> (r: bool)
    ensures
        r == is_ws(c),
{
    c == ' ' || c == '\t' || c == '\n' || c == '\r' || c == '\x0b' || c == '\x0c'
}

fn skip_ws(s: &Vec<char>, i: usize) -> (r: usize)
    requires
        i <= s@.len(),
    ensures
        r == ws(s@, i as int),
        i <= r <= s@.len(),
{
    let mut j = i;
    while j < s.len() && is_ws_char(s[j])
        invariant
            i <= j <= s@.len(),
            ws(s@, j as int) == ws(s@, i as int),
        decreases s@.len() - j,
    {
        j = j + 1;
    }
    j
}

fn skip_digits(s: &Vec<char>, i: usize) -> (r: usize)
    requires
        i <= s@.len(),
    ensures
        r == digits_end(s@, i as int),
        i <= r <= s@.len(),
{
    let mut j = i;
    while j < s.len() && '0' <= s[j] && s[j] <= '9'
        invariant
            i <= j <= s@.len(),
            digits_end(s@, j as int) == digits_end(s@, i as int),
        decreases s@.len() - j,
    {
        j = j + 1;
    }
    j
}

fn is_ident_start_char(c: char) -> (r: bool)
    ensures
        r == is_ident_start(c),
{
    ('a' <= c && c <= 'z') || ('A' <= c && c <= 'Z') || c == '_'
}

pub fn ident(s: &Vec<char>, i: usize) -> (r: Option<usize>)
    requires
        i <= s@.len(),
    ensures
        r matches Some(e) ==> ident_end(s@, i as int) == Some(e as int) && i < e <= s@.len(),
        r is None ==> ident_end(s@, i as int) is None,
{
    let len = s.len();
    if i < s.len() && is_ident_start_char(s[i]) {
        let mut j = i + 1;
        while j < s.len() && (is_ident_start_char(s[j]) || ('0' <= s[j] && s[j] <= '9'))
            invariant
                i < j <= s@.len(),
                word_end(s@, j as int) == word_end(s@, i + 1),
            decreases s@.len() - j,
        {
            j = j + 1;
        }
        Some(j)
    } else {
        None
    }
}

fn char_at(s: &Vec<char>, i: usize, c: char) -> (r: bool)
    ensures
        r == lit(s@, i as int, seq![c]),
{
    if i < s.len() && s[i] == c {
        assert(s@.subrange(i as int, i + 1) =~= seq![c]);
        true
    } else {
        proof {
            if i < s@.len() {
                assert(s@.subrange(i as int, i + 1)[0] == s@[i as int]);
            }
        }
        false
    }
}

fn word_at(s: &Vec<char>, i: usize, w: &str) -> (r: Option<usize>)
    requires
        i <= s@.len(),
    ensures
        r is Some == lit(s@, i as int, w@),
        r matches Some(e) ==> e == i + w@.len() && e <= s@.len(),
{
    let len = s.len();
    let wc = crate::preprocessor::chars_of(w);
    if wc.len() == 0 {
        assert(s@.subrange(i as int, i as int) =~= w@);
        return Some(i);
    }
    if crate::preprocessor::same_at(&wc, s, i) {
        Some(i + wc.len())
    } else {
        None
    }
}

/// The characters `s[a..b]` as a string.
fn text_between(s: &Vec<char>, a: usize, b: usize) -> (r: String)
    requires
        a <= b <= s@.len(),
    ensures
        r@ == s@.subrange(a as int, b as int),
{
    let len = s.len();
    let mut v: Vec<char> = Vec::new();
    let mut k = a;
    while k < b
        invariant
            a <= k <= b <= s@.len(),
            v@ == s@.subrange(a as int, k as int),
        decreases b - k,
    {
        v.push(s[k]);
        k = k + 1;
        assert(v@ =~= s@.subrange(a as int, k as int));
    }
    crate::preprocessor::string_of(&v)
}

pub proof fn lemma_digits_value_grows(d: Seq<char>, k: int)
    requires
        0 <= k <= d.len(),
        forall|j: int| 0 <= j < d.len() ==> is_digit(#[trigger] d[j]),
    ensures
        digits_value(d) >= digits_value(d.subrange(0, k)) >= 0,
    decreases d.len(),
{
    if d.len() > 0 {
        if k == d.len() {
            assert(d.subrange(0, k) =~= d);
            lemma_digits_value_grows(d.drop_last(), 0);
        } else {
            lemma_digits_value_grows(d.drop_last(), k);
            assert(d.drop_last().subrange(0, k) =~= d.subrange(0, k));
        }
    } else {
        assert(d.subrange(0, k) =~= d);
    }
}

pub proof fn lemma_digits_end(s: Seq<char>, i: int)
    requires
        0 <= i <= s.len(),
    ensures
        i <= digits_end(s, i) <= s.len(),
        forall|j: int| i <= j < digits_end(s, i) ==> is_digit(#[trigger] s[j]),
    decreases s.len() - i,
{
    if i < s.len() && is_digit(s[i]) {
        lemma_digits_end(s, i + 1);
    }
}

/// A decimal integer that fits in `i32`.
fn integer_at(s: &Vec<char>, i: usize) -> (r: Option<(i32, usize)>)
    requires
        i <= s@.len(),
    ensures
        r matches Some((v, e)) ==> p_integer(s@, i as int) == Some((v, e as int)) && i < e <= s@.len(),
        r is None ==> p_integer(s@, i as int) is None,
{
    let len = s.len();
    let neg = char_at(s, i, '-');
    let j = if neg {
        i + 1
    } else {
        i
    };
    let e = if j < s.len() && s[j] == '0' {
        j + 1
    } else if j < s.len() && '1' <= s[j] && s[j] <= '9' {
        skip_digits(s, j + 1)
    } else {
        return None;
    };
    assert(int_end(s@, i as int) == Some(e as int));
    proof {
        lemma_digits_end(s@, j + 1);
    }
    let ghost d = s@.subrange(j as int, e as int);
    assert forall|k: int| 0 <= k < d.len() implies is_digit(#[trigger] d[k]) by {
        assert(d[k] == s@[j + k]);
    }
    let mut val: i64 = 0;
    let mut k = j;
    while k < e
        invariant
            j <= k <= e <= s@.len(),
            j == (if neg { i + 1 } else { i as int }),
            neg == lit(s@, i as int, seq!['-']),
            int_end(s@, i as int) == Some(e as int),
            d == s@.subrange(j as int, e as int),
            forall|m: int| 0 <= m < d.len() ==> is_digit(#[trigger] d[m]),
            val == digits_value(s@.subrange(j as int, k as int)),
            0 <= val <= 0x8000_0000,
        decreases e - k,
    {
        assert(s@[k as int] == d[k - j]);
        assert(is_digit(s@[k as int]));
        let digit = (s[k] as u32 - 48) as i64;
        proof {
            assert(s@.subrange(j as int, k + 1).drop_last() =~= s@.subrange(j as int, k as int));
        }
        let next = val * 10 + digit;
        proof {
            lemma_digits_value_grows(d, k + 1 - j);
            assert(d.subrange(0, k + 1 - j) =~= s@.subrange(j as int, k + 1));
        }
        if next > 0x8000_0000 {
            proof {
                assert(d =~= s@.subrange(j as int, e as int));
                if neg {
                    assert(s@.subrange(i + 1, e as int) =~= d);
                } else {
                    assert(s@.subrange(i as int, e as int) =~= d);
                }
            }
            return None;
        }
        val = next;
        k = k + 1;
    }
    proof {
        if neg {
            assert(s@.subrange(i + 1, e as int) =~= s@.subrange(j as int, k as int));
        } else {
            assert(s@.subrange(i as int, e as int) =~= s@.subrange(j as int, k as int));
        }
    }
    if neg {
        Some(((-val) as i32, e))
    } else if val <= 0x7fff_ffff {
        Some((val as i32, e))
    } else {
        None
    }
}

fn quote_at(s: &Vec<char>, i: usize) -> (r: Option<usize>)
    requires
        i <= s@.len(),
    ensures
        r matches Some(q) ==> quote_from(s@, i as int) == Some(q as int) && i <= q < s@.len(),
        r is None ==> quote_from(s@, i as int) is None,
{
    let len = s.len();
    let mut j = i;
    while j < s.len()
        invariant
            i <= j <= s@.len(),
            quote_from(s@, j as int) == quote_from(s@, i as int),
        decreases s@.len() - j,
    {
        if s[j] == '"' {
            return Some(j);
        }
        j = j + 1;
    }
    None
}

fn string_at(s: &Vec<char>, i: usize) -> (r: Option<(String, usize)>)
    requires
        i <= s@.len(),
    ensures
        r matches Some((x, e)) ==> p_string(s@, i as int) == Some((x@, e as int)) && i < e <= s@.len(),
        r is None ==> p_string(s@, i as int) is None,
{
    let len = s.len();
    if !char_at(s, i, '"') {
        return None;
    }
    match quote_at(s, i + 1) {
        Some(q) => Some((text_between(s, i + 1, q), q + 1)),
        None => None,
    }
}

fn float_at(s: &Vec<char>, i: usize) -> (r: Option<usize>)
    requires
        i <= s@.len(),
    ensures
        r matches Some(e) ==> float_end(s@, i as int) == Some(e as int) && i < e <= s@.len(),
        r is None ==> float_end(s@, i as int) is None,
{
    let len = s.len();
    let e = match integer_at(s, i) {
        Some((_, e)) => e,
        None => return None,
    };
    let f = if char_at(s, e, '.') && skip_digits(s, e + 1) > e + 1 {
        skip_digits(s, e + 1)
    } else {
        e
    };
    let g = if f < s.len() && (s[f] == 'e' || s[f] == 'E') {
        let k = if f + 1 < s.len() && (s[f + 1] == '+' || s[f + 1] == '-') {
            f + 2
        } else {
            f + 1
        };
        let d = skip_digits(s, k);
        if d > k {
            d
        } else {
            f
        }
    } else {
        f
    };
    Some(g)
}

} // verus!

verus! {

pub open spec fn value_result(s: Seq<char>, i: int, r: Option<(RValue, usize)>, spec_r: Option<(ValueV, int)>) -> bool {
    match spec_r {
        Some((v, e)) => r matches Some((x, k)) && x@ == v && k == e && i <= e <= s.len(),
        None => r is None,
    }
}

fn vec3_at(s: &Vec<char>, i: usize) -> (r: Option<(RValue, usize)>)
    requires
        i <= s@.len(),
    ensures
        value_result(s@, i as int, r, p_vec3(s@, i as int)),
{
    let len = s.len();
    let o = skip_ws(s, i);
    if !char_at(s, o, '(') {
        return None;
    }
    let a = skip_ws(s, o + 1);
    let ea = float_at(s, a)?;
    let ca = skip_ws(s, ea);
    if !char_at(s, ca, ',') {
        return None;
    }
    let b = skip_ws(s, ca + 1);
    let eb = float_at(s, b)?;
    let cb = skip_ws(s, eb);
    if !char_at(s, cb, ',') {
        return None;
    }
    let c = skip_ws(s, cb + 1);
    let ec = float_at(s, c)?;
    if !char_at(s, ec, ')') {
        return None;
    }
    Some((RValue::Coords(text_between(s, a, ea), text_between(s, b, eb), text_between(s, c, ec)), ec + 1))
}

fn definition_at(s: &Vec<char>, i: usize) -> (r: Option<(Definition, usize)>)
    requires
        i <= s@.len(),
    ensures
        r matches Some((d, e)) ==> p_definition(s@, i as int) == Some((d, e as int)) && i <= e <= s@.len(),
        r is None ==> p_definition(s@, i as int) is None,
{
    if let Some(e) = word_at(s, i, "CACHE") {
        return Some((Definition::LoopingMethod(LoopingMethod::Cache), e));
    }
    if let Some(e) = word_at(s, i, "NONE") {
        return Some((Definition::LoopingMethod(LoopingMethod::Off), e));
    }
    if let Some(e) = word_at(s, i, "STREAM") {
        return Some((Definition::LoopingMethod(LoopingMethod::Stream), e));
    }
    if let Some(e) = word_at(s, i, "INDEFINITE") {
        return Some((Definition::Duration(Duration { value: -1 }), e));
    }
    if let Some((v, e)) = integer_at(s, i) {
        return Some((Definition::Duration(Duration { value: v }), e));
    }
    if let Some(e) = word_at(s, i, "YES") {
        return Some((Definition::Transparency(Transparency::Yes), e));
    }
    if let Some(e) = word_at(s, i, "FAST") {
        return Some((Definition::Transparency(Transparency::Fast), e));
    }
    None
}

fn more_arg_at(s: &Vec<char>, k: usize) -> (r: Option<(String, usize)>)
    requires
        k <= s@.len(),
    ensures
        r matches Some((x, e)) ==> p_more_arg(s@, k as int) == Some((x@, e as int)) && k < e <= s@.len(),
        r is None ==> p_more_arg(s@, k as int) is None,
{
    let len = s.len();
    let c = skip_ws(s, k);
    if !char_at(s, c, ',') {
        return None;
    }
    let b = skip_ws(s, c + 1);
    let (x, e) = string_at(s, b)?;
    Some((x, skip_ws(s, e)))
}

fn function_at(s: &Vec<char>, i: usize) -> (r: Option<(RValue, usize)>)
    requires
        i <= s@.len(),
    ensures
        value_result(s@, i as int, r, p_function(s@, i as int)),
{
    let len = s.len();
    let a = skip_ws(s, i);
    let e = ident(s, a)?;
    let b = skip_ws(s, e);
    if !char_at(s, b, '(') {
        return None;
    }
    let mut args: Vec<String> = Vec::new();
    let mut k: usize = match string_at(s, skip_ws(s, b + 1)) {
        Some((x, f)) => {
            args.push(x);
            skip_ws(s, f)
        },
        None => b + 1,
    };
    let ghost k0 = k as int;
    let ghost first = crate::text::strings_view(args@);
    assert(first =~= (match p_string(s@, ws(s@, b + 1)) {
        Some((x, f)) => seq![x],
        None => Seq::<Seq<char>>::empty(),
    }));
    loop
        invariant
            k0 <= k <= s@.len(),
            p_more_args(s@, k0).1 == p_more_args(s@, k as int).1,
            p_more_args(s@, k0).0 == crate::text::strings_view(args@).subrange(first.len() as int, args@.len() as int) + p_more_args(s@, k as int).0,
            first == crate::text::strings_view(args@).subrange(0, first.len() as int),
            first.len() <= args@.len(),
        ensures
            k0 <= k <= s@.len(),
            p_more_args(s@, k0).1 == k,
            p_more_args(s@, k0).0 == crate::text::strings_view(args@).subrange(first.len() as int, args@.len() as int),
            first == crate::text::strings_view(args@).subrange(0, first.len() as int),
            first.len() <= args@.len(),
        decreases s@.len() - k,
    {
        match more_arg_at(s, k) {
            Some((x, f)) => {
                let ghost before = crate::text::strings_view(args@);
                args.push(x);
                proof {
                    let now = crate::text::strings_view(args@);
                    assert(now =~= before.push(x@));
                    assert(now.subrange(first.len() as int, now.len() as int) =~= before.subrange(first.len() as int, before.len() as int).push(x@));
                    assert(now.subrange(0, first.len() as int) =~= before.subrange(0, first.len() as int));
                    assert(seq![x@] + p_more_args(s@, f as int).0 == p_more_args(s@, k as int).0);
                }
                k = f;
            },
            None => {
                assert(p_more_args(s@, k as int).0 =~= Seq::<Seq<char>>::empty());
                assert(crate::text::strings_view(args@).subrange(first.len() as int, args@.len() as int) + Seq::<Seq<char>>::empty() =~= crate::text::strings_view(args@).subrange(first.len() as int, args@.len() as int));
                break;
            },
        }
    }
    assert(crate::text::strings_view(args@) =~= first + p_more_args(s@, k0).0);
    if !char_at(s, k, ')') {
        return None;
    }
    let name = text_between(s, a, e);
    Some((RValue::Function(Function { name, args }), k + 1))
}

fn value_at(s: &Vec<char>, i: usize) -> (r: Option<(RValue, usize)>)
    requires
        i <= s@.len(),
    ensures
        value_result(s@, i as int, r, p_value(s@, i as int)),
{
    if let Some((x, e)) = string_at(s, i) {
        return Some((RValue::String(x), e));
    }
    if let Some((v, e)) = integer_at(s, i) {
        return Some((RValue::Integer(v), e));
    }
    if let Some((v, e)) = vec3_at(s, i) {
        return Some((v, e));
    }
    if let Some((d, e)) = definition_at(s, i) {
        return Some((RValue::Definition(d), e));
    }
    function_at(s, i)
}

fn statement_at(s: &Vec<char>, i: usize) -> (r: Option<(Statement, usize)>)
    requires
        i <= s@.len(),
    ensures
        match p_statement(s@, i as int) {
            Some((v, e)) => r matches Some((x, k)) && x@ == v && k == e && i < e <= s@.len(),
            None => r is None,
        },
{
    let len = s.len();
    let a = skip_ws(s, i);
    let e = ident(s, a)?;
    let b = skip_ws(s, e);
    if char_at(s, b, '=') {
        let (v, d) = value_at(s, skip_ws(s, b + 1))?;
        let f = skip_ws(s, d);
        if char_at(s, f, ';') {
            Some((Statement::Assignment(text_between(s, a, e), v), f + 1))
        } else {
            None
        }
    } else if char_at(s, b, ';') {
        Some((Statement::Declaration(text_between(s, a, e)), b + 1))
    } else {
        None
    }
}

fn statements_at(s: &Vec<char>, i: usize) -> (r: (Vec<Statement>, usize))
    requires
        i <= s@.len(),
    ensures
        statements_view(r.0@) == p_statements(s@, i as int).0,
        r.1 == p_statements(s@, i as int).1,
        i <= r.1 <= s@.len(),
{
    let mut out: Vec<Statement> = Vec::new();
    let mut k = i;
    loop
        invariant
            i <= k <= s@.len(),
            p_statements(s@, i as int).1 == p_statements(s@, k as int).1,
            p_statements(s@, i as int).0 == statements_view(out@) + p_statements(s@, k as int).0,
        decreases s@.len() - k,
    {
        let a = skip_ws(s, k);
        match statement_at(s, a) {
            Some((st, e)) => {
                let f = skip_ws(s, e);
                let ghost before = statements_view(out@);
                push_statement(&mut out, st);
                assert(before.push(st@) + p_statements(s@, f as int).0 =~= before + p_statements(s@, k as int).0);
                k = f;
            },
            None => {
                assert(statements_view(out@) + p_statements(s@, k as int).0 =~= statements_view(out@));
                return (out, k);
            },
        }
    }
}

impl BlockType {
    fn keyword(&self) -> (r: &'static str)
        ensures
            r@ == block_keyword(*self),
    {
        match self {
            BlockType::DefineSettings => "defineSettings",
            BlockType::DefineObject => "defineObject",
            BlockType::DefineSound => "defineSound",
            BlockType::DefineEvent => "defineEvent",
            BlockType::DefineAnim => "defineAnim",
            BlockType::ParallelAction => "parallelAction",
            BlockType::DefineStill => "defineStill",
            BlockType::SerialAction => "serialAction",
        }
    }
}

fn block_type_at(s: &Vec<char>, i: usize) -> (r: Option<(BlockType, usize)>)
    requires
        i <= s@.len(),
    ensures
        r matches Some((t, e)) ==> p_block_type(s@, i as int) == Some((t, e as int)) && i <= e <= s@.len(),
        r is None ==> p_block_type(s@, i as int) is None,
{
    let types: [BlockType; 8] = [
        BlockType::DefineSettings,
        BlockType::DefineObject,
        BlockType::DefineSound,
        BlockType::DefineEvent,
        BlockType::DefineAnim,
        BlockType::ParallelAction,
        BlockType::DefineStill,
        BlockType::SerialAction,
    ];
    assert(types@ =~= block_types());
    let mut k: usize = 0;
    while k < 8
        invariant
            k <= 8,
            i <= s@.len(),
            types@ == block_types(),
            p_block_type_from(s@, i as int, k as int) == p_block_type(s@, i as int),
        decreases 8 - k,
    {
        let t = types[k];
        if let Some(e) = word_at(s, i, t.keyword()) {
            return Some((t, e));
        }
        k = k + 1;
    }
    None
}

fn block_at(s: &Vec<char>, i: usize) -> (r: Option<(Block, usize)>)
    requires
        i <= s@.len(),
    ensures
        match p_block(s@, i as int) {
            Some((v, e)) => r matches Some((x, k)) && x@ == v && k == e && i < e <= s@.len(),
            None => r is None,
        },
{
    let len = s.len();
    let (t, e) = block_type_at(s, skip_ws(s, i))?;
    let b = skip_ws(s, e);
    let f = ident(s, b)?;
    let c = skip_ws(s, f);
    let (weave, d) = match word_at(s, c, "Weave") {
        Some(w) => (true, skip_ws(s, w)),
        None => (false, c),
    };
    if !char_at(s, d, '{') {
        return None;
    }
    let (statements, h) = statements_at(s, skip_ws(s, d + 1));
    if !char_at(s, h, '}') {
        return None;
    }
    Some((Block { id: 0, block_type: t, name: text_between(s, b, f), is_weave: weave, statements }, h + 1))
}

/// Why script text could not be parsed.
#[derive(Debug)]
pub enum ParseError {
    Preprocess(PreprocessError),
    /// The blocks stop matching the grammar at this character position.
    Syntax(usize),
    /// No block is a settings block.
    NoSettings,
}

/// The blocks of a whole file, in file order, and where they stop.
fn blocks_at(s: &Vec<char>) -> (r: (Vec<Block>, usize))
    ensures
        crate::text::blocks_view(r.0@) == p_blocks(s@, 0).0,
        r.1 == p_blocks(s@, 0).1,
        r.1 <= s@.len(),
{
    let mut out: Vec<Block> = Vec::new();
    let mut k: usize = 0;
    loop
        invariant
            k <= s@.len(),
            p_blocks(s@, 0).1 == p_blocks(s@, k as int).1,
            p_blocks(s@, 0).0 == crate::text::blocks_view(out@) + p_blocks(s@, k as int).0,
        decreases s@.len() - k,
    {
        let a = skip_ws(s, k);
        match block_at(s, a) {
            Some((b, e)) => {
                let f = skip_ws(s, e);
                let ghost before = crate::text::blocks_view(out@);
                push_block(&mut out, b);
                assert(before.push(b@) + p_blocks(s@, f as int).0 =~= before + p_blocks(s@, k as int).0);
                k = f;
            },
            None => {
                assert(crate::text::blocks_view(out@) + p_blocks(s@, k as int).0 =~= crate::text::blocks_view(out@));
                return (out, k);
            },
        }
    }
}

/// The index of the first settings block.
pub open spec fn first_settings(bs: Seq<BlockV>, k: int) -> Option<int>
    decreases k,
{
    if k <= 0 || k > bs.len() {
        None
    } else {
        match first_settings(bs, k - 1) {
            Some(j) => Some(j),
            None => if bs[k - 1].block_type == BlockType::DefineSettings {
                Some(k - 1)
            } else {
                None
            },
        }
    }
}

/// What parsing preprocessed text gives: the settings block (the first block
/// of that type, wherever it stands) and the other blocks in file order.
pub open spec fn parsed(s: Seq<char>) -> Result<(BlockV, Seq<BlockV>), int> {
    let (bs, e) = p_blocks(s, 0);
    if e != s.len() {
        Err(e)
    } else {
        match first_settings(bs, bs.len() as int) {
            Some(j) => Ok((bs[j], bs.remove(j))),
            None => Err(-1),
        }
    }
}

pub proof fn lemma_first_settings(bs: Seq<BlockV>, k: int)
    requires
        0 <= k <= bs.len(),
    ensures
        first_settings(bs, k) matches Some(j) ==> 0 <= j < k,
    decreases k,
{
    if k > 0 {
        lemma_first_settings(bs, k - 1);
    }
}

impl Text {
    /// Parses preprocessed script text.
    pub fn parser(text: &str) -> (r: Result<Text, ParseError>)
        ensures
            match parsed(text@) {
                Ok((settings, blocks)) => r matches Ok(t) && t.settings@ == settings
                    && crate::text::blocks_view(t.blocks@) == blocks,
                Err(e) => r matches Err(x) && (if e == -1 {
                    x is NoSettings
                } else {
                    x == ParseError::Syntax(e as usize)
                }),
            },
    {
        let s = crate::preprocessor::chars_of(text);
        let (mut blocks, e) = blocks_at(&s);
        if e != s.len() {
            return Err(ParseError::Syntax(e));
        }
        let ghost bs = crate::text::blocks_view(blocks@);
        let n = blocks.len();
        let mut k: usize = 0;
        while k < n
            invariant
                n == blocks@.len(),
                bs == crate::text::blocks_view(blocks@),
                s@ == text@,
                bs == p_blocks(s@, 0).0,
                p_blocks(s@, 0).1 == s@.len(),
                k <= n,
                first_settings(bs, k as int) is None,
            decreases n - k,
        {
            if blocks[k].block_type == BlockType::DefineSettings {
                assert(first_settings(bs, k + 1) == Some(k as int));
                proof {
                    lemma_first_settings_stable(bs, k + 1, n as int);
                }
                let settings = blocks.remove(k);
                assert(settings@ == bs[k as int]);
                assert(crate::text::blocks_view(blocks@) =~= bs.remove(k as int));
                return Ok(Text { settings, blocks });
            }
            k = k + 1;
        }
        Err(ParseError::NoSettings)
    }

    /// Preprocesses script text, then parses it.
    pub fn parse(file: &str) -> (r: Result<Text, ParseError>)
        ensures
            match crate::preprocessor::preprocessed(Seq::empty(), file@) {
                Ok((out, _)) => match parsed(out) {
                    Ok((settings, blocks)) => r matches Ok(t) && t.settings@ == settings
                        && crate::text::blocks_view(t.blocks@) == blocks,
                    Err(e) => r matches Err(x) && (if e == -1 {
                        x is NoSettings
                    } else {
                        x == ParseError::Syntax(e as usize)
                    }),
                },
                Err(_) => r matches Err(x) && x is Preprocess,
            },
    {
        let mut pp = Preprocessor::new();
        match pp.preprocess(file) {
            Ok(out) => Text::parser(out.as_str()),
            Err(e) => Err(ParseError::Preprocess(e)),
        }
    }
}

pub proof fn lemma_first_settings_stable(bs: Seq<BlockV>, k: int, m: int)
    requires
        0 <= k <= m <= bs.len(),
        first_settings(bs, k) is Some,
    ensures
        first_settings(bs, m) == first_settings(bs, k),
    decreases m - k,
{
    if m > k {
        lemma_first_settings_stable(bs, k, m - 1);
    }
}

} // verus!
