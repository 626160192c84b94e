//! The macro preprocessor of the script language: a character-level state
//! machine that strips comments, records `#define` substitutions, consumes
//! `#include` directives, and expands defined names in the remaining text.
//!
//! Where several defined names match at one position, the longest wins.
use vstd::prelude::*;

verus! {

#[derive(Clone, Copy, Debug, PartialEq, Eq, Structural)]
pub enum PreprocessorState {
    Expecting,
    Slash,
    SkipLine,
    SkipComment,
    EndComment,
    Directive,
    DirectiveParameter,
    DirectiveString,
}

#[derive(Clone, Copy, Debug, PartialEq, Eq, Structural)]
pub enum Directive {
    Define,
    Include,
}

#[derive(Debug)]
pub enum PreprocessError {
    /// A character that the current state does not allow, with its line and column.
    UnexpectedToken(char, usize, usize),
    /// The input ended inside a comment or a directive.
    UnexpectedEndState(PreprocessorState),
    /// A directive name other than `define` and `include`, with where it started.
    UnknownDirective(String, usize, usize),
    NoParams(Directive, usize, usize),
    TooManyParameters(Directive, usize, usize),
}

pub enum PreprocessErrorV {
    UnexpectedToken(char, int, int),
    UnexpectedEndState(PreprocessorState),
    UnknownDirective(Seq<char>, int, int),
    NoParams(Directive, int, int),
    TooManyParameters(Directive, int, int),
}

impl View for PreprocessError {
    type V = PreprocessErrorV;

    open spec fn view(&self) -> PreprocessErrorV {
        match self {
            PreprocessError::UnexpectedToken(c, l, k) => PreprocessErrorV::UnexpectedToken(
                *c,
                *l as int,
                *k as int,
            ),
            PreprocessError::UnexpectedEndState(s) => PreprocessErrorV::UnexpectedEndState(*s),
            PreprocessError::UnknownDirective(d, l, k) => PreprocessErrorV::UnknownDirective(
                d@,
                *l as int,
                *k as int,
            ),
            PreprocessError::NoParams(d, l, k) => PreprocessErrorV::NoParams(*d, *l as int, *k as int),
            PreprocessError::TooManyParameters(d, l, k) => PreprocessErrorV::TooManyParameters(
                *d,
                *l as int,
                *k as int,
            ),
        }
    }
}

pub type Defs = Seq<(Seq<char>, Seq<char>)>;

/// The whole state of the machine between two characters.
pub struct PpV {
    pub state: PreprocessorState,
    pub previous: PreprocessorState,
    pub line: int,
    pub column: int,
    pub name: Seq<char>,
    pub directive: Directive,
    pub params: Seq<Seq<char>>,
    pub delimiter: char,
    pub directive_line: int,
    pub directive_column: int,
    pub out: Seq<char>,
    pub defs: Defs,
}

/// A defined name matches the input at `i`.
pub open spec fn name_at(key: Seq<char>, chars: Seq<char>, i: int) -> bool {
    key.len() > 0 && i + key.len() <= chars.len() && chars.subrange(i, i + key.len()) == key
}

/// Among the first `k` definitions, the one with the longest name that
/// matches at `i` (the first such, on equal lengths).
pub open spec fn longest_match(defs: Defs, chars: Seq<char>, i: int, k: int) -> Option<int>
    decreases k,
{
    if k <= 0 || k > defs.len() {
        None
    } else {
        let b = longest_match(defs, chars, i, k - 1);
        if name_at(defs[k - 1].0, chars, i) && (b is None || defs[k - 1].0.len() > defs[b->0].0.len()) {
            Some(k - 1)
        } else {
            b
        }
    }
}

/// The index of the first definition among the first `k` whose name is `key`.
pub open spec fn find_def(defs: Defs, key: Seq<char>, k: int) -> Option<int>
    decreases k,
{
    if k <= 0 || k > defs.len() {
        None
    } else {
        match find_def(defs, key, k - 1) {
            Some(j) => Some(j),
            None => if defs[k - 1].0 == key {
                Some(k - 1)
            } else {
                None
            },
        }
    }
}

/// Definitions after `#define key value`: a name defined before gets the new value.
pub open spec fn define(defs: Defs, key: Seq<char>, value: Seq<char>) -> Defs {
    match find_def(defs, key, defs.len() as int) {
        Some(j) => defs.update(j, (key, value)),
        None => defs.push((key, value)),
    }
}

pub open spec fn directive_of(name: Seq<char>) -> Option<Directive> {
    if name == seq!['d', 'e', 'f', 'i', 'n', 'e'] {
        Some(Directive::Define)
    } else if name == seq!['i', 'n', 'c', 'l', 'u', 'd', 'e'] {
        Some(Directive::Include)
    } else {
        None
    }
}

/// One character consumed, the column advanced.
pub open spec fn advance(s: PpV, i: int) -> Result<(PpV, int), PreprocessErrorV> {
    Ok((PpV { column: s.column + 1, ..s }, i + 1))
}

pub open spec fn token_error(s: PpV, c: char) -> Result<(PpV, int), PreprocessErrorV> {
    Err(PreprocessErrorV::UnexpectedToken(c, s.line, s.column))
}

/// The directive's parameter list ends at a newline: the directive takes effect.
pub open spec fn end_directive(s: PpV) -> Result<PpV, PreprocessErrorV> {
    let ps = if s.params.last().len() == 0 {
        s.params.drop_last()
    } else {
        s.params
    };
    let done = PpV { params: ps, state: s.previous, ..s };
    if ps.len() == 0 {
        Err(PreprocessErrorV::NoParams(s.directive, s.directive_line, s.directive_column))
    } else if s.directive == Directive::Define && ps.len() == 1 {
        Ok(PpV { defs: define(s.defs, ps[0], seq![]), ..done })
    } else if s.directive == Directive::Define && ps.len() == 2 {
        Ok(PpV { defs: define(s.defs, ps[0], ps[1]), ..done })
    } else if s.directive == Directive::Include && ps.len() == 1 {
        Ok(done)
    } else {
        Err(PreprocessErrorV::TooManyParameters(s.directive, s.directive_line, s.directive_column))
    }
}

/// The machine's move on the character at `i`: the next state and position.
pub open spec fn step(s: PpV, chars: Seq<char>, i: int) -> Result<(PpV, int), PreprocessErrorV> {
    let c = chars[i];
    if c == '\r' {
        advance(s, i)
    } else {
        match s.state {
            PreprocessorState::Expecting => if c == '/' {
                advance(PpV { previous: s.state, state: PreprocessorState::Slash, ..s }, i)
            } else if c == '#' {
                advance(
                    PpV {
                        previous: s.state,
                        state: PreprocessorState::Directive,
                        name: seq![],
                        directive_line: s.line,
                        directive_column: s.column,
                        ..s
                    },
                    i,
                )
            } else if c == '\n' {
                Ok((PpV { column: 0, line: s.line + 1, out: s.out.push(c), ..s }, i + 1))
            } else {
                match longest_match(s.defs, chars, i, s.defs.len() as int) {
                    Some(j) => Ok(
                        (PpV { out: s.out + s.defs[j].1, ..s }, i + s.defs[j].0.len()),
                    ),
                    None => advance(PpV { out: s.out.push(c), ..s }, i),
                }
            },
            PreprocessorState::Slash => if c == '/' {
                advance(PpV { state: PreprocessorState::SkipLine, ..s }, i)
            } else if c == '*' {
                advance(PpV { state: PreprocessorState::SkipComment, ..s }, i)
            } else {
                token_error(s, c)
            },
            PreprocessorState::SkipLine => if c == '\n' {
                Ok(
                    (
                        PpV {
                            state: s.previous,
                            column: 0,
                            line: s.line + 1,
                            out: s.out.push(c),
                            ..s
                        },
                        i + 1,
                    ),
                )
            } else {
                advance(s, i)
            },
            PreprocessorState::SkipComment => if c == '*' {
                advance(PpV { state: PreprocessorState::EndComment, ..s }, i)
            } else {
                advance(s, i)
            },
            PreprocessorState::EndComment => if c == '/' {
                advance(PpV { state: s.previous, ..s }, i)
            } else {
                token_error(s, c)
            },
            PreprocessorState::Directive => if c == ' ' || c == '\t' || c == '"' || c == '<' {
                match directive_of(s.name) {
                    None => Err(
                        PreprocessErrorV::UnknownDirective(
                            s.name,
                            s.directive_line,
                            s.directive_column,
                        ),
                    ),
                    Some(d) => {
                        let n = PpV {
                            directive: d,
                            state: PreprocessorState::DirectiveParameter,
                            params: seq![seq![]],
                            ..s
                        };
                        if c == ' ' || c == '\t' {
                            advance(n, i)
                        } else {
                            Ok((n, i))
                        }
                    },
                }
            } else if c == '\n' {
                token_error(s, c)
            } else {
                advance(PpV { name: s.name.push(c), ..s }, i)
            },
            PreprocessorState::DirectiveParameter => if c == '"' || c == '<' {
                advance(
                    PpV {
                        delimiter: c,
                        state: PreprocessorState::DirectiveString,
                        params: s.params.update(s.params.len() - 1, s.params.last().push(c)),
                        ..s
                    },
                    i,
                )
            } else if c == '\n' {
                match end_directive(s) {
                    Ok(n) => advance(n, i),
                    Err(e) => Err(e),
                }
            } else if c == ' ' || c == '\t' {
                if s.params.last().len() > 0 {
                    advance(PpV { params: s.params.push(seq![]), ..s }, i)
                } else {
                    advance(s, i)
                }
            } else {
                advance(
                    PpV { params: s.params.update(s.params.len() - 1, s.params.last().push(c)), ..s },
                    i,
                )
            },
            PreprocessorState::DirectiveString => if c == s.delimiter {
                advance(
                    PpV {
                        state: PreprocessorState::DirectiveParameter,
                        params: s.params.update(s.params.len() - 1, s.params.last().push(c)).push(
                            seq![],
                        ),
                        ..s
                    },
                    i,
                )
            } else if c == '\n' {
                token_error(s, c)
            } else {
                advance(
                    PpV { params: s.params.update(s.params.len() - 1, s.params.last().push(c)), ..s },
                    i,
                )
            },
        }
    }
}

/// No name is defined twice.
pub open spec fn unique_names(defs: Defs) -> bool {
    forall|i: int, j: int| 0 <= i < j < defs.len() ==> defs[i].0 != defs[j].0
}

/// Defining a name keeps names unique.
pub proof fn lemma_define_unique(defs: Defs, key: Seq<char>, value: Seq<char>)
    requires
        unique_names(defs),
    ensures
        unique_names(define(defs, key, value)),
        forall|j: int| 0 <= j < define(defs, key, value).len() ==> (define(defs, key, value)[j].0 == key
            || exists|k: int| 0 <= k < defs.len() && defs[k].0 == define(defs, key, value)[j].0),
{
    lemma_find_def(defs, key, defs.len() as int);
    let d = define(defs, key, value);
    assert forall|j: int| 0 <= j < d.len() implies (d[j].0 == key || exists|k: int| 0 <= k < defs.len() && defs[k].0 == d[j].0) by {
        if d[j].0 != key {
            assert(defs[j].0 == d[j].0);
        }
    }
}

/// The machine is in a state it can be in: parameters exist while they are
/// read, defined names are not empty, and the counters trail the position.
pub open spec fn pp_wf(s: PpV, i: int) -> bool {
    &&& (s.state == PreprocessorState::DirectiveParameter || s.state
        == PreprocessorState::DirectiveString) ==> s.params.len() > 0
    &&& forall|j: int| 0 <= j < s.params.len() - 1 ==> #[trigger] s.params[j].len() > 0
    &&& forall|j: int| 0 <= j < s.defs.len() ==> #[trigger] s.defs[j].0.len() > 0
    &&& unique_names(s.defs)
    &&& 0 <= s.line <= i
    &&& 0 <= s.column <= i
    &&& 0 <= s.directive_line <= i
    &&& 0 <= s.directive_column <= i
    &&& s.previous == PreprocessorState::Expecting
}

/// Where the machine moves on each character stays in a state it can be in.
pub proof fn lemma_step_wf(s: PpV, chars: Seq<char>, i: int)
    requires
        0 <= i < chars.len(),
        pp_wf(s, i),
    ensures
        step(s, chars, i) matches Ok((n, j)) ==> pp_wf(n, j) && i <= j <= chars.len() && (j == i
            ==> s.state == PreprocessorState::Directive && n.state
            == PreprocessorState::DirectiveParameter),
{
    let c = chars[i];
    if c != '\r' && s.state == PreprocessorState::Expecting && c != '/' && c != '#' && c != '\n' {
        lemma_longest_match(s.defs, chars, i, s.defs.len() as int);
    }
    if c != '\r' && s.state == PreprocessorState::DirectiveParameter && c == '\n' {
        lemma_end_directive_wf(s, i);
    }
}

pub proof fn lemma_longest_match(defs: Defs, chars: Seq<char>, i: int, k: int)
    requires
        0 <= k <= defs.len(),
    ensures
        longest_match(defs, chars, i, k) matches Some(j) ==> 0 <= j < k && name_at(
            defs[j].0,
            chars,
            i,
        ),
    decreases k,
{
    if k > 0 {
        lemma_longest_match(defs, chars, i, k - 1);
    }
}

pub proof fn lemma_find_def(defs: Defs, key: Seq<char>, k: int)
    requires
        0 <= k <= defs.len(),
    ensures
        find_def(defs, key, k) matches Some(j) ==> 0 <= j < k && defs[j].0 == key,
        find_def(defs, key, k) is None ==> forall|j: int| 0 <= j < k ==> defs[j].0 != key,
    decreases k,
{
    if k > 0 {
        lemma_find_def(defs, key, k - 1);
    }
}

pub proof fn lemma_end_directive_wf(s: PpV, i: int)
    requires
        pp_wf(s, i),
        s.state == PreprocessorState::DirectiveParameter,
    ensures
        end_directive(s) matches Ok(n) ==> pp_wf(n, i),
{
    let ps = if s.params.last().len() == 0 {
        s.params.drop_last()
    } else {
        s.params
    };
    if ps.len() > 0 {
        lemma_find_def(s.defs, ps[0], s.defs.len() as int);
        if s.params.len() > 1 {
            assert(s.params[0].len() > 0);
        }
        assert(ps[0].len() > 0);
        lemma_define_unique(s.defs, ps[0], seq![]);
        if ps.len() > 1 {
            lemma_define_unique(s.defs, ps[0], ps[1]);
        }
    }
}

} // verus!

verus! {

/// The machine run from position `i` to the end of the input.
pub open spec fn run(s: PpV, chars: Seq<char>, i: int) -> Result<PpV, PreprocessErrorV>
    decreases chars.len() - i, if s.state == PreprocessorState::Directive {
        1int
    } else {
        0int
    },
{
    if i < 0 || i >= chars.len() {
        Ok(s)
    } else {
        match step(s, chars, i) {
            Err(e) => Err(e),
            Ok((n, j)) => if i < j <= chars.len() {
                run(n, chars, j)
            } else if j == i && s.state == PreprocessorState::Directive && n.state
                != PreprocessorState::Directive {
                run(n, chars, j)
            } else {
                Ok(n)
            },
        }
    }
}

pub open spec fn initial(defs: Defs) -> PpV {
    PpV {
        state: PreprocessorState::Expecting,
        previous: PreprocessorState::Expecting,
        line: 0,
        column: 0,
        name: seq![],
        directive: Directive::Define,
        params: seq![],
        delimiter: '"',
        directive_line: 0,
        directive_column: 0,
        out: seq![],
        defs,
    }
}

/// What preprocessing `chars` with definitions `defs` gives: the expanded
/// text and the definitions afterwards, or the first error. The input may
/// end in plain text or in a line comment, not inside another construct.
pub open spec fn preprocessed(defs: Defs, chars: Seq<char>) -> Result<(Seq<char>, Defs), PreprocessErrorV> {
    match run(initial(defs), chars, 0) {
        Err(e) => Err(e),
        Ok(s) => if s.state == PreprocessorState::Expecting || s.state == PreprocessorState::SkipLine {
            Ok((s.out, s.defs))
        } else {
            Err(PreprocessErrorV::UnexpectedEndState(s.state))
        },
    }
}

pub open spec fn lines_view(v: Seq<Vec<char>>) -> Seq<Seq<char>> {
    v.map_values(|p: Vec<char>| p@)
}

pub open spec fn defs_view(v: Seq<(Vec<char>, Vec<char>)>) -> Defs {
    v.map_values(|d: (Vec<char>, Vec<char>)| (d.0@, d.1@))
}

/// Relies on `str::chars`, collected: the characters of the string in order.
#[verifier::external_body]
pub(crate) fn chars_of(s: &str) -> (r: Vec<char>)
    ensures
        r@ == s@,
{
    s.chars().collect()
}

/// Relies on `String`'s `FromIterator<char>`: the characters in order.
#[verifier::external_body]
pub(crate) fn string_of(v: &Vec<char>) -> (r: String)
    ensures
        r@ == v@,
{
    v.iter().collect()
}

pub(crate) fn same_at(key: &Vec<char>, chars: &Vec<char>, i: usize) -> (r: bool)
    ensures
        r == name_at(key@, chars@, i as int),
{
    let n = key.len();
    if n == 0 || i > chars.len() || chars.len() - i < n {
        return false;
    }
    let mut k: usize = 0;
    let len = chars.len();
    while k < n
        invariant
            n == key@.len(),
            len == chars@.len(),
            i + n <= chars@.len(),
            k <= n,
            forall|m: int| 0 <= m < k ==> chars@[i + m] == key@[m],
        decreases n - k,
    {
        if chars[i + k] != key[k] {
            assert(chars@.subrange(i as int, i + n)[k as int] != key@[k as int]);
            return false;
        }
        k = k + 1;
    }
    assert(chars@.subrange(i as int, i + n) =~= key@);
    true
}

fn same_chars(a: &Vec<char>, b: &Vec<char>) -> (r: bool)
    ensures
        r == (a@ == b@),
{
    if a.len() != b.len() {
        return false;
    }
    let mut k: usize = 0;
    while k < a.len()
        invariant
            a@.len() == b@.len(),
            k <= a@.len(),
            forall|m: int| 0 <= m < k ==> a@[m] == b@[m],
        decreases a@.len() - k,
    {
        if a[k] != b[k] {
            return false;
        }
        k = k + 1;
    }
    assert(a@ =~= b@);
    true
}

/// The state of a run, between two characters.
struct Machine {
    state: PreprocessorState,
    previous: PreprocessorState,
    line: usize,
    column: usize,
    name: Vec<char>,
    directive: Directive,
    params: Vec<Vec<char>>,
    delimiter: char,
    directive_line: usize,
    directive_column: usize,
    out: Vec<char>,
    defs: Vec<(Vec<char>, Vec<char>)>,
}

impl View for Machine {
    type V = PpV;

    closed spec fn view(&self) -> PpV {
        PpV {
            state: self.state,
            previous: self.previous,
            line: self.line as int,
            column: self.column as int,
            name: self.name@,
            directive: self.directive,
            params: lines_view(self.params@),
            delimiter: self.delimiter,
            directive_line: self.directive_line as int,
            directive_column: self.directive_column as int,
            out: self.out@,
            defs: defs_view(self.defs@),
        }
    }
}

fn push_to_last(params: &mut Vec<Vec<char>>, c: char)
    requires
        old(params)@.len() > 0,
    ensures
        lines_view(final(params)@) == lines_view(old(params)@).update(
            old(params)@.len() - 1,
            lines_view(old(params)@).last().push(c),
        ),
{
    let mut last = params.pop().unwrap();
    last.push(c);
    params.push(last);
    assert(lines_view(params@) =~= lines_view(old(params)@).update(
        old(params)@.len() - 1,
        lines_view(old(params)@).last().push(c),
    ));
}

fn append_chars(out: &mut Vec<char>, more: &Vec<char>)
    ensures
        final(out)@ == old(out)@ + more@,
{
    let mut k: usize = 0;
    while k < more.len()
        invariant
            k <= more@.len(),
            out@ == old(out)@ + more@.subrange(0, k as int),
        decreases more@.len() - k,
    {
        out.push(more[k]);
        k = k + 1;
        assert(out@ =~= old(out)@ + more@.subrange(0, k as int));
    }
    assert(more@.subrange(0, k as int) =~= more@);
}

pub(crate) fn copy_chars(v: &Vec<char>) -> (r: Vec<char>)
    ensures
        r@ == v@,
{
    let mut r: Vec<char> = Vec::new();
    append_chars(&mut r, v);
    assert(r@ =~= v@);
    r
}

impl Machine {
    /// Records a definition, replacing the value of a name defined before.
    fn define(&mut self, key: Vec<char>, value: Vec<char>)
        ensures
            final(self)@ == (PpV { defs: define(old(self)@.defs, key@, value@), ..old(self)@ }),
    {
        let ghost d = self@.defs;
        let n = self.defs.len();
        let mut j: usize = 0;
        while j < n
            invariant
                n == self.defs@.len(),
                d == defs_view(self.defs@),
                *self == *old(self),
                j <= n,
                find_def(d, key@, j as int) is None,
            decreases n - j,
        {
            if same_chars(&self.defs[j].0, &key) {
                assert(find_def(d, key@, j + 1) == Some(j as int));
                proof {
                    lemma_find_def_stable(d, key@, j + 1, n as int);
                }
                let kv = (key, value);
                self.defs.insert(j, kv);
                let _ = self.defs.remove(j + 1);
                assert(defs_view(self.defs@) =~= define(d, kv.0@, kv.1@));
                return;
            }
            j = j + 1;
        }
        let ghost kv = (key@, value@);
        self.defs.push((key, value));
        assert(defs_view(self.defs@) =~= d.push(kv));
    }

    fn longest(&self, chars: &Vec<char>, i: usize) -> (r: Option<usize>)
        ensures
            r matches Some(j) ==> longest_match(self@.defs, chars@, i as int, self@.defs.len() as int)
                == Some(j as int),
            r is None ==> longest_match(self@.defs, chars@, i as int, self@.defs.len() as int) is None,
    {
        let ghost d = self@.defs;
        let n = self.defs.len();
        let mut best: Option<usize> = None;
        let mut k: usize = 0;
        while k < n
            invariant
                n == self.defs@.len(),
                d == defs_view(self.defs@),
                k <= n,
                match longest_match(d, chars@, i as int, k as int) {
                    Some(j) => 0 <= j < k && best == Some(j as usize),
                    None => best is None,
                },
            decreases n - k,
        {
            assert(d[k as int].0 == self.defs@[k as int].0@);
            if same_at(&self.defs[k].0, chars, i) {
                match best {
                    None => {
                        best = Some(k);
                    },
                    Some(b) => {
                        assert(d[b as int].0 == self.defs@[b as int].0@);
                        if self.defs[k].0.len() > self.defs[b].0.len() {
                            best = Some(k);
                        }
                    },
                }
            }
            k = k + 1;
        }
        best
    }
}

pub proof fn lemma_find_def_stable(d: Defs, key: Seq<char>, k: int, m: int)
    requires
        0 <= k <= m <= d.len(),
        find_def(d, key, k) is Some,
    ensures
        find_def(d, key, m) == find_def(d, key, k),
    decreases m - k,
{
    if m > k {
        lemma_find_def_stable(d, key, k, m - 1);
    }
}

} // verus!

verus! {

fn is_define(n: &Vec<char>) -> (r: bool)
    ensures
        r == (n@ == seq!['d', 'e', 'f', 'i', 'n', 'e']),
{
    let r = n.len() == 6 && n[0] == 'd' && n[1] == 'e' && n[2] == 'f' && n[3] == 'i' && n[4] == 'n'
        && n[5] == 'e';
    assert(r ==> n@ =~= seq!['d', 'e', 'f', 'i', 'n', 'e']);
    r
}

fn is_include(n: &Vec<char>) -> (r: bool)
    ensures
        r == (n@ == seq!['i', 'n', 'c', 'l', 'u', 'd', 'e']),
{
    let r = n.len() == 7 && n[0] == 'i' && n[1] == 'n' && n[2] == 'c' && n[3] == 'l' && n[4] == 'u'
        && n[5] == 'd' && n[6] == 'e';
    assert(r ==> n@ =~= seq!['i', 'n', 'c', 'l', 'u', 'd', 'e']);
    r
}

impl Machine {
    /// The directive's parameter list ends: it takes effect.
    fn end_directive(&mut self) -> (r: Result<(), PreprocessError>)
        requires
            old(self)@.params.len() > 0,
        ensures
            match end_directive(old(self)@) {
                Ok(n) => r is Ok && final(self)@ == n,
                Err(e) => r matches Err(x) && x@ == e,
            },
            r is Err ==> final(self)@.defs == old(self)@.defs,
    {
        let ghost s = self@;
        let k = self.params.len() - 1;
        if self.params[k].len() == 0 {
            let _ = self.params.pop();
        }
        assert(lines_view(self.params@) =~= (if s.params.last().len() == 0 {
            s.params.drop_last()
        } else {
            s.params
        }));
        let n = self.params.len();
        if n == 0 {
            return Err(PreprocessError::NoParams(self.directive, self.directive_line, self.directive_column));
        }
        if self.directive == Directive::Define && n == 1 {
            let key = copy_chars(&self.params[0]);
            self.define(key, Vec::new());
        } else if self.directive == Directive::Define && n == 2 {
            let key = copy_chars(&self.params[0]);
            let value = copy_chars(&self.params[1]);
            self.define(key, value);
        } else if self.directive == Directive::Include && n == 1 {
        } else {
            return Err(
                PreprocessError::TooManyParameters(self.directive, self.directive_line, self.directive_column),
            );
        }
        self.state = self.previous;
        Ok(())
    }

    /// The move on the character at `i`; the position it leads to.
    fn step(&mut self, chars: &Vec<char>, i: usize) -> (r: Result<usize, PreprocessError>)
        requires
            i < chars@.len(),
            pp_wf(old(self)@, i as int),
        ensures
            match step(old(self)@, chars@, i as int) {
                Ok((n, j)) => r == Ok::<usize, PreprocessError>(j as usize) && final(self)@ == n,
                Err(e) => r matches Err(x) && x@ == e,
            },
            r is Err ==> final(self)@.defs == old(self)@.defs,
    {
        let ghost s = self@;
        let len = chars.len();
        assert(i < len);
        let c = chars[i];
        if c == '\r' {
            self.column = self.column + 1;
            return Ok(i + 1);
        }
        match self.state {
            PreprocessorState::Expecting => {
                if c == '/' {
                    self.previous = self.state;
                    self.state = PreprocessorState::Slash;
                } else if c == '#' {
                    self.previous = self.state;
                    self.state = PreprocessorState::Directive;
                    self.name = Vec::new();
                    self.directive_line = self.line;
                    self.directive_column = self.column;
                } else if c == '\n' {
                    self.column = 0;
                    self.line = self.line + 1;
                    self.out.push(c);
                    return Ok(i + 1);
                } else {
                    proof {
                        lemma_longest_match(s.defs, chars@, i as int, s.defs.len() as int);
                    }
                    match self.longest(chars, i) {
                        Some(j) => {
                            assert(s.defs[j as int] == (self.defs@[j as int].0@, self.defs@[j as int].1@));
                            assert(longest_match(s.defs, chars@, i as int, s.defs.len() as int) == Some(j as int));
                            assert(name_at(s.defs[j as int].0, chars@, i as int));
                            let klen = self.defs[j].0.len();
                            assert(i + klen <= len);
                            let v = copy_chars(&self.defs[j].1);
                            append_chars(&mut self.out, &v);
                            return Ok(i + klen);
                        },
                        None => {
                            self.out.push(c);
                        },
                    }
                }
            },
            PreprocessorState::Slash => {
                if c == '/' {
                    self.state = PreprocessorState::SkipLine;
                } else if c == '*' {
                    self.state = PreprocessorState::SkipComment;
                } else {
                    return Err(PreprocessError::UnexpectedToken(c, self.line, self.column));
                }
            },
            PreprocessorState::SkipLine => {
                if c == '\n' {
                    self.state = self.previous;
                    self.column = 0;
                    self.line = self.line + 1;
                    self.out.push(c);
                    return Ok(i + 1);
                }
            },
            PreprocessorState::SkipComment => {
                if c == '*' {
                    self.state = PreprocessorState::EndComment;
                }
            },
            PreprocessorState::EndComment => {
                if c == '/' {
                    self.state = self.previous;
                } else {
                    return Err(PreprocessError::UnexpectedToken(c, self.line, self.column));
                }
            },
            PreprocessorState::Directive => {
                if c == ' ' || c == '\t' || c == '"' || c == '<' {
                    if is_define(&self.name) {
                        self.directive = Directive::Define;
                    } else if is_include(&self.name) {
                        self.directive = Directive::Include;
                    } else {
                        return Err(
                            PreprocessError::UnknownDirective(
                                string_of(&self.name),
                                self.directive_line,
                                self.directive_column,
                            ),
                        );
                    }
                    self.state = PreprocessorState::DirectiveParameter;
                    self.params = Vec::new();
                    self.params.push(Vec::new());
                    assert(lines_view(self.params@) =~= seq![seq![]]);
                    if c == '"' || c == '<' {
                        return Ok(i);
                    }
                } else if c == '\n' {
                    return Err(PreprocessError::UnexpectedToken(c, self.line, self.column));
                } else {
                    self.name.push(c);
                }
            },
            PreprocessorState::DirectiveParameter => {
                if c == '"' || c == '<' {
                    self.delimiter = c;
                    self.state = PreprocessorState::DirectiveString;
                    push_to_last(&mut self.params, c);
                } else if c == '\n' {
                    self.end_directive()?;
                } else if c == ' ' || c == '\t' {
                    let k = self.params.len() - 1;
                    if self.params[k].len() > 0 {
                        self.params.push(Vec::new());
                        assert(lines_view(self.params@) =~= s.params.push(seq![]));
                    }
                } else {
                    push_to_last(&mut self.params, c);
                }
            },
            PreprocessorState::DirectiveString => {
                if c == self.delimiter {
                    push_to_last(&mut self.params, c);
                    self.state = PreprocessorState::DirectiveParameter;
                    let ghost grown = lines_view(self.params@);
                    self.params.push(Vec::new());
                    assert(lines_view(self.params@) =~= grown.push(seq![]));
                } else if c == '\n' {
                    return Err(PreprocessError::UnexpectedToken(c, self.line, self.column));
                } else {
                    push_to_last(&mut self.params, c);
                }
            },
        }
        self.column = self.column + 1;
        Ok(i + 1)
    }
}

/// Expands macro definitions and strips comments from script text.
pub struct Preprocessor {
    definitions: Vec<(Vec<char>, Vec<char>)>,
}

impl View for Preprocessor {
    type V = Defs;

    closed spec fn view(&self) -> Defs {
        defs_view(self.definitions@)
    }
}

impl Preprocessor {
    /// Defined names are never empty.
    pub open spec fn wf(&self) -> bool {
        &&& forall|j: int| 0 <= j < self@.len() ==> #[trigger] self@[j].0.len() > 0
        &&& unique_names(self@)
    }

    pub fn new() -> (r: Preprocessor)
        ensures
            r@ == Seq::<(Seq<char>, Seq<char>)>::empty(),
            r.wf(),
    {
        let r = Preprocessor { definitions: Vec::new() };
        assert(r@ =~= Seq::<(Seq<char>, Seq<char>)>::empty());
        r
    }

    /// Preprocesses one file. Definitions made by earlier files stay in
    /// force, and this file's are added to them.
    pub fn preprocess(&mut self, file: &str) -> (r: Result<String, PreprocessError>)
        requires
            old(self).wf(),
        ensures
            final(self).wf(),
            match preprocessed(old(self)@, file@) {
                Ok((out, defs)) => r matches Ok(s) && s@ == out && final(self)@ == defs,
                Err(e) => r matches Err(x) && x@ == e,
            },
    {
        let chars = chars_of(file);
        let mut defs: Vec<(Vec<char>, Vec<char>)> = Vec::new();
        std::mem::swap(&mut defs, &mut self.definitions);
        let mut m = Machine {
            state: PreprocessorState::Expecting,
            previous: PreprocessorState::Expecting,
            line: 0,
            column: 0,
            name: Vec::new(),
            directive: Directive::Define,
            params: Vec::new(),
            delimiter: '"',
            directive_line: 0,
            directive_column: 0,
            out: Vec::new(),
            defs,
        };
        assert(m@.name =~= seq![]);
        assert(m@.params =~= seq![]);
        assert(m@.out =~= seq![]);
        assert(m@.defs == old(self)@);
        assert(m@ == initial(old(self)@));
        let ghost total = run(m@, chars@, 0);
        let mut i: usize = 0;
        while i < chars.len()
            invariant
                i <= chars@.len(),
                chars@ == file@,
                total == run(initial(old(self)@), file@, 0),
                pp_wf(m@, i as int),
                run(m@, chars@, i as int) == total,
            decreases chars@.len() - i, if m@.state == PreprocessorState::Directive {
                1int
            } else {
                0int
            },
        {
            proof {
                lemma_step_wf(m@, chars@, i as int);
            }
            let ghost before = m@;
            match m.step(&chars, i) {
                Ok(j) => {
                    i = j;
                },
                Err(e) => {
                    assert(step(before, chars@, i as int) matches Err(x) && x == e@);
                    assert(run(before, chars@, i as int) == Err::<PpV, PreprocessErrorV>(e@));
                    assert(total == Err::<PpV, PreprocessErrorV>(e@));
                    assert(preprocessed(old(self)@, file@) == Err::<(Seq<char>, Defs), PreprocessErrorV>(e@));
                    self.definitions = m.defs;
                    return Err(e);
                },
            }
        }
        self.definitions = m.defs;
        if m.state == PreprocessorState::Expecting || m.state == PreprocessorState::SkipLine {
            Ok(string_of(&m.out))
        } else {
            Err(PreprocessError::UnexpectedEndState(m.state))
        }
    }
}

} // verus!
