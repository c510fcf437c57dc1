//! The lexer: a single-pass character scanner that turns stylesheet source
//! text into a sequence of tokens under a caller-supplied `Mode`.
//!
//! The scanner keeps one scan state (undecided, integer run, identifier
//! run, decimal run, ambiguous dot, char-literal run, string-literal run)
//! and an accumulation buffer. A character that continues the current run
//! is appended to the buffer; one that starts a different run closes the
//! buffer into a token first. Punctuation, brackets and enabled whitespace
//! are emitted directly; whitespace of a disabled class is consumed
//! silently. Inside a literal a backslash escapes the following character.
//! The whole behaviour is pinned down by the specification state machine
//! (`lex_step`, `lex_from`, `lex_spec`) that the contracts refer to.

use vstd::prelude::*;

use crate::num::{all_digits, dec_val_sat, int_str, scalar_str, Scalar, ScalarModel};
use crate::text::{chars_vec, push_str, string_from_chars, string_of};

verus! {

/// A whitespace class that was turned into a token.
#[derive(Debug, Copy, Clone, PartialEq, Eq, Structural)]
pub enum Indent {
    NewLine,
    Tab,
    Space,
}

/// The payload of a literal token.
#[derive(Debug, Clone)]
pub enum Literal {
    /// A double-quoted (or, in permissive modes, single-quoted) run.
    Str(String),
    /// A run of decimal digits, saturated at `i64::MAX`.
    Integer(i64),
    /// A digit run with a decimal point, kept exactly as written.
    Floater(Scalar),
    /// A single-quoted run of exactly one character, in strict modes.
    Character(char),
}

/// One lexical unit of the source text.
#[derive(Debug, Clone)]
pub enum Token {
    Identifier(String),
    Literal(Literal),
    Indent(Indent),
    /// A single punctuation character that fits no other class.
    Other(String),
    OpenBracket,
    CloseBracket,
    /// The empty sentinel; the scanner itself never emits it.
    Empty,
}

/// The mathematical shape of a token: the same cases as [`Token`], with
/// text as character sequences.
pub enum TokenModel {
    Identifier(Seq<char>),
    IntLit(int),
    FloatLit(int, Seq<char>),
    StrLit(Seq<char>),
    CharLit(char),
    Ind(Indent),
    Other(Seq<char>),
    OpenB,
    CloseB,
    NoTok,
}

impl View for Token {
    type V = TokenModel;

    open spec fn view(&self) -> TokenModel {
        match self {
            Token::Identifier(s) => TokenModel::Identifier(s@),
            Token::Literal(l) => l@,
            Token::Indent(i) => TokenModel::Ind(*i),
            Token::Other(s) => TokenModel::Other(s@),
            Token::OpenBracket => TokenModel::OpenB,
            Token::CloseBracket => TokenModel::CloseB,
            Token::Empty => TokenModel::NoTok,
        }
    }
}

/// The mathematical shape of a token vector.
pub open spec fn toks_model(v: Seq<Token>) -> Seq<TokenModel> {
    v.map_values(|t: Token| t@)
}

/// An ordered, finite, restartable token sequence.
#[derive(Debug, Clone)]
pub struct Tokens {
    vec: Vec<Token>,
}

impl View for Tokens {
    type V = Seq<TokenModel>;

    closed spec fn view(&self) -> Seq<TokenModel> {
        self.vec@.map_values(|t: Token| t@)
    }
}

impl Tokens {
    /// An empty sequence.
    pub fn new() -> (r: Tokens)
        ensures
            r@ == Seq::<TokenModel>::empty(),
    {
        let r = Tokens { vec: Vec::new() };
        proof {
            assert(r@ =~= Seq::<TokenModel>::empty());
        }
        r
    }

    /// Appends one token.
    pub fn push(&mut self, val: Token)
        ensures
            final(self)@ == old(self)@.push(val@),
    {
        let ghost prev = self.vec@;
        self.vec.push(val);
        proof {
            assert(self@ =~= prev.map_values(|t: Token| t@).push(self.vec@.last()@));
        }
    }

    /// How many tokens the sequence holds.
    pub fn len(&self) -> (n: usize)
        ensures
            n == self@.len(),
    {
        self.vec.len()
    }

    /// The token at position `index`.
    pub fn get(&self, index: usize) -> (t: &Token)
        requires
            index < self@.len(),
        ensures
            t@ == self@[index as int],
    {
        &self.vec[index]
    }
}

impl From<Vec<Token>> for Tokens {
    fn from(vec: Vec<Token>) -> (r: Tokens) {
        Tokens { vec }
    }
}

impl vstd::std_specs::convert::FromSpecImpl<Vec<Token>> for Tokens {
    open spec fn obeys_from_spec() -> bool {
        true
    }

    closed spec fn from_spec(vec: Vec<Token>) -> Tokens {
        Tokens { vec }
    }
}

/// Which whitespace classes become [`Token::Indent`] tokens; the others
/// are consumed silently.
#[derive(Debug, Copy, Clone, PartialEq, Eq, Structural)]
pub struct IndentMode {
    pub spaces: bool,
    pub tabs: bool,
    pub newlines: bool,
}

impl IndentMode {
    /// Tabs and newlines are significant; spaces are not.
    pub fn strong() -> (r: IndentMode)
        ensures
            r == (IndentMode { spaces: false, tabs: true, newlines: true }),
    {
        IndentMode { spaces: false, tabs: true, newlines: true }
    }

    /// Only newlines are significant.
    pub fn weak() -> (r: IndentMode)
        ensures
            r == (IndentMode { spaces: false, tabs: false, newlines: true }),
    {
        IndentMode { spaces: false, tabs: false, newlines: true }
    }

    /// Every whitespace class is significant.
    pub fn max() -> (r: IndentMode)
        ensures
            r == (IndentMode { spaces: true, tabs: true, newlines: true }),
    {
        IndentMode { spaces: true, tabs: true, newlines: true }
    }

    /// No whitespace class is significant.
    pub fn min() -> (r: IndentMode)
        ensures
            r == (IndentMode { spaces: false, tabs: false, newlines: false }),
    {
        IndentMode { spaces: false, tabs: false, newlines: false }
    }
}

/// The lexing configuration.
///
/// `strict_literals` makes a single-quoted run a char literal that must
/// hold exactly one character; without it, single quotes delimit string
/// literals of any length. `schar_vals` is a character list consulted for
/// identifier continuation: a listed character extends an identifier when
/// `schar_identp` is true (allow-list) and terminates it when false
/// (deny-list, under which unlisted characters extend).
#[derive(Debug, Clone)]
pub struct Mode {
    pub strict_literals: bool,
    pub indents: IndentMode,
    pub schar_identp: bool,
    pub schar_vals: Option<Vec<char>>,
}

impl Mode {
    /// Permissive literals, newline indents only, no special characters.
    pub fn loose() -> (r: Mode)
        ensures
            !r.strict_literals,
            r.indents == (IndentMode { spaces: false, tabs: false, newlines: true }),
            r.schar_identp,
            r.schar_vals is None,
    {
        Mode {
            strict_literals: false,
            indents: IndentMode::weak(),
            schar_identp: true,
            schar_vals: None,
        }
    }

    /// Strict literals, tab and newline indents, no special characters.
    pub fn strict() -> (r: Mode)
        ensures
            r.strict_literals,
            r.indents == (IndentMode { spaces: false, tabs: true, newlines: true }),
            !r.schar_identp,
            r.schar_vals is None,
    {
        Mode {
            strict_literals: true,
            indents: IndentMode::strong(),
            schar_identp: false,
            schar_vals: None,
        }
    }
}

/// Scan states of the character scanner.
#[derive(Debug, Copy, Clone, PartialEq, Eq, Structural)]
pub enum ScanState {
    Undecided,
    IntRun,
    IdentRun,
    DecRun,
    DotAmbig,
    CharRun,
    StrRun,
}

/// A lexing failure.
#[derive(Debug, Copy, Clone, PartialEq, Eq, Structural)]
pub enum LexError {
    /// Under `strict_literals`, a char literal ran to a second character.
    MalformedCharLiteral,
}

// ---------------------------------------------------------------------
// The specification state machine.
// ---------------------------------------------------------------------

/// The scanner's whole state: scan state, accumulation buffer, tokens
/// emitted so far, and whether the last character was an open escape.
pub struct LexState {
    pub state: ScanState,
    pub buf: Seq<char>,
    pub out: Seq<TokenModel>,
    pub esc: bool,
}

pub open spec fn is_letter(c: char) -> bool {
    ('a' <= c && c <= 'z') || ('A' <= c && c <= 'Z')
}

pub open spec fn is_digit(c: char) -> bool {
    '0' <= c && c <= '9'
}

/// Index of the first `.` in `s`, or `s.len()` when there is none.
pub open spec fn dot_idx(s: Seq<char>) -> int
    decreases s.len(),
{
    if s.len() == 0 {
        0
    } else if s[0] == '.' {
        0
    } else {
        1 + dot_idx(s.drop_first())
    }
}

/// The fraction digits of a decimal buffer: what follows the first dot.
pub open spec fn frac_of(s: Seq<char>) -> Seq<char> {
    if dot_idx(s) < s.len() {
        s.subrange(dot_idx(s) + 1, s.len() as int)
    } else {
        Seq::empty()
    }
}

/// Closes an accumulation buffer into a token. An empty buffer closes to
/// the no-token sentinel; otherwise the scan state picks the token kind.
pub open spec fn close_tok(state: ScanState, buf: Seq<char>) -> TokenModel {
    if buf.len() == 0 {
        TokenModel::NoTok
    } else {
        match state {
            ScanState::IntRun => TokenModel::IntLit(dec_val_sat(buf)),
            ScanState::IdentRun => TokenModel::Identifier(buf),
            ScanState::DecRun => TokenModel::FloatLit(
                dec_val_sat(buf.take(dot_idx(buf))),
                frac_of(buf),
            ),
            ScanState::CharRun => TokenModel::CharLit(buf[0]),
            ScanState::StrRun => TokenModel::StrLit(buf),
            _ => TokenModel::Other(buf),
        }
    }
}

/// `st.out` with the current buffer closed and appended, when it yields a
/// token.
pub open spec fn flush(st: LexState) -> Seq<TokenModel> {
    if close_tok(st.state, st.buf) == TokenModel::NoTok {
        st.out
    } else {
        st.out.push(close_tok(st.state, st.buf))
    }
}

/// `st` after closing the buffer and entering `next` with an empty buffer.
pub open spec fn closed_to(st: LexState, next: ScanState) -> LexState {
    LexState { state: next, buf: Seq::empty(), out: flush(st), esc: false }
}

/// Whether `c` extends an identifier run under the special-character
/// policy of `m`.
pub open spec fn schar_extends(m: Mode, c: char) -> bool {
    match m.schar_vals {
        Some(v) => v@.contains(c) == m.schar_identp,
        None => false,
    }
}

/// One scanner step: consumes `c` in state `st`. `None` is the lexing
/// failure (a strict char literal running to two characters).
pub open spec fn lex_step(st: LexState, c: char, m: Mode) -> Option<LexState> {
    if st.state == ScanState::CharRun || st.state == ScanState::StrRun {
        if st.esc {
            let grown = LexState { buf: st.buf.push(c), esc: false, ..st };
            if st.state == ScanState::CharRun && m.strict_literals && grown.buf.len() >= 2 {
                None
            } else {
                Some(grown)
            }
        } else if c == '\\' {
            Some(LexState { esc: true, ..st })
        } else if (st.state == ScanState::CharRun && c == '\'') || (st.state == ScanState::StrRun
            && c == '"') {
            Some(closed_to(st, ScanState::Undecided))
        } else {
            let grown = LexState { buf: st.buf.push(c), ..st };
            if st.state == ScanState::CharRun && m.strict_literals && grown.buf.len() >= 2 {
                None
            } else {
                Some(grown)
            }
        }
    } else if is_digit(c) {
        if st.state == ScanState::IntRun || st.state == ScanState::DecRun || st.state
            == ScanState::IdentRun {
            Some(LexState { buf: st.buf.push(c), ..st })
        } else if st.state == ScanState::DotAmbig {
            // the pending dot resolves to a decimal number
            Some(LexState { state: ScanState::DecRun, buf: st.buf.push(c), ..st })
        } else {
            Some(LexState { state: ScanState::IntRun, buf: st.buf.push(c), ..st })
        }
    } else if is_letter(c) {
        if st.state == ScanState::IdentRun {
            Some(LexState { buf: st.buf.push(c), ..st })
        } else {
            let cl = closed_to(st, ScanState::IdentRun);
            Some(LexState { buf: seq![c], ..cl })
        }
    } else if c == '.' {
        if st.state == ScanState::IntRun {
            // a dot directly after digits continues into a decimal number
            Some(LexState { state: ScanState::DecRun, buf: st.buf.push(c), ..st })
        } else {
            let cl = closed_to(st, ScanState::DotAmbig);
            Some(LexState { buf: seq![c], ..cl })
        }
    } else if c == '\'' {
        if m.strict_literals {
            Some(closed_to(st, ScanState::CharRun))
        } else {
            Some(closed_to(st, ScanState::StrRun))
        }
    } else if c == '"' {
        Some(closed_to(st, ScanState::StrRun))
    } else if c == '\n' {
        if m.indents.newlines {
            let cl = closed_to(st, ScanState::Undecided);
            Some(LexState { out: cl.out.push(TokenModel::Ind(Indent::NewLine)), ..cl })
        } else {
            Some(st)
        }
    } else if c == '\t' {
        if m.indents.tabs {
            let cl = closed_to(st, ScanState::Undecided);
            Some(LexState { out: cl.out.push(TokenModel::Ind(Indent::Tab)), ..cl })
        } else {
            Some(st)
        }
    } else if c == ' ' {
        if m.indents.spaces {
            let cl = closed_to(st, ScanState::Undecided);
            Some(LexState { out: cl.out.push(TokenModel::Ind(Indent::Space)), ..cl })
        } else {
            Some(st)
        }
    } else if c == '(' {
        let cl = closed_to(st, ScanState::Undecided);
        Some(LexState { out: cl.out.push(TokenModel::OpenB), ..cl })
    } else if c == ')' {
        let cl = closed_to(st, ScanState::Undecided);
        Some(LexState { out: cl.out.push(TokenModel::CloseB), ..cl })
    } else if schar_extends(m, c) && (st.state == ScanState::IdentRun || st.state
        == ScanState::Undecided) {
        // a listed special character behaves like a letter here, so that
        // identifiers such as `$accent-1` stay in one piece
        Some(LexState { state: ScanState::IdentRun, buf: st.buf.push(c), ..st })
    } else {
        let cl = closed_to(st, ScanState::Undecided);
        Some(LexState { out: cl.out.push(TokenModel::Other(seq![c])), ..cl })
    }
}

/// The scanner's starting state.
pub open spec fn init_state() -> LexState {
    LexState {
        state: ScanState::Undecided,
        buf: Seq::empty(),
        out: Seq::empty(),
        esc: false,
    }
}

/// Runs the scanner from `st` over all of `s`.
pub open spec fn lex_from(st: LexState, s: Seq<char>, m: Mode) -> Option<LexState>
    decreases s.len(),
{
    if s.len() == 0 {
        Some(st)
    } else {
        match lex_from(st, s.drop_last(), m) {
            Some(st2) => lex_step(st2, s.last(), m),
            None => None,
        }
    }
}

/// What tokenizing `s` under `m` yields: the emitted tokens with the final
/// buffer flushed, or `None` on a malformed char literal.
pub open spec fn lex_spec(s: Seq<char>, m: Mode) -> Option<Seq<TokenModel>> {
    match lex_from(init_state(), s, m) {
        Some(st) => Some(flush(st)),
        None => None,
    }
}


/// State-dependent well-formedness of the accumulation buffer: digit runs
/// hold digits, a decimal run holds its dot.
pub open spec fn buf_wf(state: ScanState, buf: Seq<char>) -> bool {
    match state {
        ScanState::IntRun => all_digits(buf),
        ScanState::DecRun => dot_idx(buf) < buf.len() && all_digits(buf.take(dot_idx(buf))),
        ScanState::DotAmbig => buf == seq!['.'],
        ScanState::Undecided => buf.len() == 0,
        _ => true,
    }
}

pub proof fn lemma_dot_idx_bounds(s: Seq<char>)
    ensures
        0 <= dot_idx(s) <= s.len(),
        dot_idx(s) < s.len() ==> s[dot_idx(s)] == '.',
        forall|j: int| 0 <= j < dot_idx(s) ==> s[j] != '.',
    decreases s.len(),
{
    if s.len() > 0 && s[0] != '.' {
        lemma_dot_idx_bounds(s.drop_first());
        assert forall|j: int| 0 <= j < dot_idx(s) implies s[j] != '.' by {
            if j > 0 {
                assert(s.drop_first()[j - 1] == s[j]);
            }
        }
    }
}

pub proof fn lemma_dot_idx_push(s: Seq<char>, c: char)
    ensures
        dot_idx(s.push(c)) == if dot_idx(s) < s.len() {
            dot_idx(s)
        } else if c == '.' {
            s.len() as int
        } else {
            s.len() + 1int
        },
    decreases s.len(),
{
    lemma_dot_idx_bounds(s);
    lemma_dot_idx_bounds(s.push(c));
    if s.len() == 0 {
        assert(s.push(c)[0] == c);
    } else {
        assert(s.push(c)[0] == s[0]);
        assert(s.push(c).drop_first() =~= s.drop_first().push(c));
        lemma_dot_idx_push(s.drop_first(), c);
        lemma_dot_idx_bounds(s.drop_first());
    }
}

/// Once the scanner has failed on a prefix, the whole input fails.
pub proof fn lemma_none_extends(s: Seq<char>, i: int, m: Mode)
    requires
        0 <= i <= s.len(),
        lex_from(init_state(), s.take(i), m) is None,
    ensures
        lex_from(init_state(), s, m) is None,
    decreases s.len() - i,
{
    if i < s.len() {
        assert(s.take(i + 1).drop_last() =~= s.take(i));
        assert(lex_from(init_state(), s.take(i + 1), m) is None);
        lemma_none_extends(s, i + 1, m);
    } else {
        assert(s.take(i) =~= s);
    }
}

/// Index of the first dot of `buf`, or its length when there is none.
fn find_dot(buf: &Vec<char>) -> (d: usize)
    ensures
        d == dot_idx(buf@),
{
    proof {
        lemma_dot_idx_bounds(buf@);
    }
    let mut i: usize = 0;
    while i < buf.len()
        invariant
            0 <= i <= buf@.len(),
            forall|j: int| 0 <= j < i ==> buf@[j] != '.',
        decreases buf@.len() - i,
    {
        if buf[i] == '.' {
            proof {
                lemma_dot_idx_bounds(buf@);
                if dot_idx(buf@) < i {
                    assert(buf@[dot_idx(buf@)] == '.');
                }
            }
            return i;
        }
        i += 1;
    }
    proof {
        lemma_dot_idx_bounds(buf@);
        if dot_idx(buf@) < buf@.len() {
            assert(buf@[dot_idx(buf@)] == '.');
        }
    }
    buf.len()
}

/// Closes an accumulation buffer into the token that [`close_tok`] names.
fn close_buffer(state: ScanState, buf: &Vec<char>) -> (t: Option<Token>)
    requires
        buf_wf(state, buf@),
    ensures
        t is Some ==> t->0@ == close_tok(state, buf@) && close_tok(state, buf@)
            != TokenModel::NoTok,
        t is None ==> close_tok(state, buf@) == TokenModel::NoTok,
{
    if buf.len() == 0 {
        return None;
    }
    match state {
        ScanState::IntRun => {
            proof {
                assert(buf@.subrange(0, buf@.len() as int) =~= buf@);
            }
            let v = crate::num::parse_digits(buf, 0, buf.len());
            Some(Token::Literal(Literal::Integer(v)))
        }
        ScanState::IdentRun => Some(Token::Identifier(string_of(buf))),
        ScanState::DecRun => {
            let d = find_dot(buf);
            proof {
                lemma_dot_idx_bounds(buf@);
                assert(buf@.subrange(0, d as int) =~= buf@.take(dot_idx(buf@)));
            }
            let whole = crate::num::parse_digits(buf, 0, d);
            let frac = string_from_chars(buf, d + 1, buf.len());
            proof {
                assert(buf@.subrange(d + 1, buf@.len() as int) =~= frac_of(buf@));
            }
            Some(Token::Literal(Literal::Floater(Scalar { whole, frac })))
        }
        ScanState::CharRun => Some(Token::Literal(Literal::Character(buf[0]))),
        ScanState::StrRun => Some(Token::Literal(Literal::Str(string_of(buf)))),
        ScanState::Undecided => Some(Token::Other(string_of(buf))),
        ScanState::DotAmbig => Some(Token::Other(string_of(buf))),
    }
}

/// Closes the buffer into `out` (when it yields a token) and empties it.
fn close_into(state: ScanState, buf: &mut Vec<char>, out: &mut Tokens)
    requires
        buf_wf(state, old(buf)@),
    ensures
        final(buf)@ == Seq::<char>::empty(),
        final(out)@ == flush(
            LexState { state, buf: old(buf)@, out: old(out)@, esc: false },
        ),
{
    match close_buffer(state, buf) {
        Some(t) => {
            out.push(t);
        }
        None => {}
    }
    *buf = Vec::new();
}

/// Whether `c` extends an identifier run under `m`'s special-character
/// policy.
fn schar_extends_x(m: &Mode, c: char) -> (b: bool)
    ensures
        b == schar_extends(*m, c),
{
    match &m.schar_vals {
        Some(v) => {
            let mut found = false;
            let mut i: usize = 0;
            while i < v.len()
                invariant
                    0 <= i <= v@.len(),
                    found == v@.take(i as int).contains(c),
                decreases v@.len() - i,
            {
                let ghost pre = v@.take(i as int);
                if v[i] == c {
                    found = true;
                }
                proof {
                    assert(v@.take(i + 1) =~= pre.push(v@[i as int]));
                    if found && !pre.contains(c) {
                        assert(v@.take(i + 1)[i as int] == c);
                    }
                }
                i += 1;
            }
            proof {
                assert(v@.take(v@.len() as int) =~= v@);
            }
            found == m.schar_identp
        }
        None => false,
    }
}

/// Turns `src` into its token sequence under `mode`, exactly as
/// [`lex_spec`] describes; the only failure is a malformed char literal
/// under `strict_literals`.
pub fn tokenize(src: &str, mode: &Mode) -> (r: Result<Tokens, LexError>)
    ensures
        lex_spec(src@, *mode) is Some <==> r is Ok,
        r is Ok ==> r->Ok_0@ == lex_spec(src@, *mode)->Some_0,
        r is Err ==> r->Err_0 == LexError::MalformedCharLiteral,
{
    let chars = chars_vec(src);
    let mut out = Tokens::new();
    let mut buf: Vec<char> = Vec::new();
    let mut state = ScanState::Undecided;
    let mut esc = false;
    let mut i: usize = 0;
    proof {
        assert(src@.take(0) =~= Seq::<char>::empty());
    }
    while i < chars.len()
        invariant
            chars@ == src@,
            0 <= i <= chars@.len(),
            lex_from(init_state(), src@.take(i as int), *mode) == Some(
                LexState { state, buf: buf@, out: out@, esc },
            ),
            buf_wf(state, buf@),
            esc ==> state == ScanState::CharRun || state == ScanState::StrRun,
        decreases chars@.len() - i,
    {
        let ghost pre = LexState { state, buf: buf@, out: out@, esc };
        let c = chars[i];
        proof {
            assert(src@.take(i + 1).drop_last() =~= src@.take(i as int));
            assert(src@.take(i + 1).last() == src@[i as int]);
        }
        let in_char = state == ScanState::CharRun;
        let in_str = state == ScanState::StrRun;
        if in_char || in_str {
            if esc {
                buf.push(c);
                esc = false;
                if in_char && mode.strict_literals && buf.len() >= 2 {
                    proof {
                        lemma_none_extends(src@, i + 1, *mode);
                    }
                    return Err(LexError::MalformedCharLiteral);
                }
            } else if c == '\\' {
                esc = true;
            } else if (in_char && c == '\'') || (in_str && c == '"') {
                close_into(state, &mut buf, &mut out);
                state = ScanState::Undecided;
                esc = false;
            } else {
                buf.push(c);
                if in_char && mode.strict_literals && buf.len() >= 2 {
                    proof {
                        lemma_none_extends(src@, i + 1, *mode);
                    }
                    return Err(LexError::MalformedCharLiteral);
                }
            }
        } else if '0' <= c && c <= '9' {
            if state == ScanState::IntRun || state == ScanState::DecRun || state
                == ScanState::IdentRun {
                proof {
                    if state == ScanState::IntRun {
                        assert(all_digits(buf@.push(c))) by {
                            assert(forall|j: int|
                                0 <= j < buf@.len() ==> buf@.push(c)[j] == #[trigger] buf@[j]);
                            assert(buf@.push(c)[buf@.len() as int] == c);
                        }
                    }
                    if state == ScanState::DecRun {
                        lemma_dot_idx_bounds(buf@);
                        lemma_dot_idx_push(buf@, c);
                        let k = dot_idx(buf@);
                        assert(dot_idx(buf@.push(c)) == k);
                        assert forall|j: int| 0 <= j < k implies buf@.push(c).take(k)[j]
                            == buf@.take(k)[j] by {
                            assert(buf@.push(c)[j] == buf@[j]);
                        }
                        assert(buf@.push(c).take(k) =~= buf@.take(k));
                    }
                }
                buf.push(c);
            } else if state == ScanState::DotAmbig {
                proof {
                    assert(buf@[0] == '.');
                    lemma_dot_idx_push(buf@, c);
                    assert(dot_idx(buf@) == 0);
                    assert(buf@.push(c).take(0) =~= Seq::<char>::empty());
                }
                state = ScanState::DecRun;
                buf.push(c);
            } else {
                proof {
                    assert(buf@.len() == 0);
                    assert(all_digits(buf@.push(c))) by {
                        assert(buf@.push(c)[0] == c);
                    }
                }
                state = ScanState::IntRun;
                buf.push(c);
            }
        } else if ('a' <= c && c <= 'z') || ('A' <= c && c <= 'Z') {
            if state == ScanState::IdentRun {
                buf.push(c);
            } else {
                close_into(state, &mut buf, &mut out);
                state = ScanState::IdentRun;
                buf.push(c);
                proof {
                    assert(buf@ =~= seq![c]);
                }
            }
        } else if c == '.' {
            if state == ScanState::IntRun {
                proof {
                    lemma_dot_idx_bounds(buf@);
                    lemma_dot_idx_push(buf@, c);
                    if dot_idx(buf@) < buf@.len() {
                        assert(buf@[dot_idx(buf@)] == '.');
                        assert('0' <= buf@[dot_idx(buf@)] <= '9');
                        assert(false);
                    }
                    assert(dot_idx(buf@.push(c)) == buf@.len());
                    assert(buf@.push(c).take(buf@.len() as int) =~= buf@);
                }
                state = ScanState::DecRun;
                buf.push(c);
            } else {
                close_into(state, &mut buf, &mut out);
                state = ScanState::DotAmbig;
                buf.push(c);
                proof {
                    assert(buf@ =~= seq![c]);
                }
            }
        } else if c == '\'' {
            close_into(state, &mut buf, &mut out);
            if mode.strict_literals {
                state = ScanState::CharRun;
            } else {
                state = ScanState::StrRun;
            }
            esc = false;
        } else if c == '"' {
            close_into(state, &mut buf, &mut out);
            state = ScanState::StrRun;
            esc = false;
        } else if c == '\n' {
            if mode.indents.newlines {
                close_into(state, &mut buf, &mut out);
                state = ScanState::Undecided;
                out.push(Token::Indent(Indent::NewLine));
            }
        } else if c == '\t' {
            if mode.indents.tabs {
                close_into(state, &mut buf, &mut out);
                state = ScanState::Undecided;
                out.push(Token::Indent(Indent::Tab));
            }
        } else if c == ' ' {
            if mode.indents.spaces {
                close_into(state, &mut buf, &mut out);
                state = ScanState::Undecided;
                out.push(Token::Indent(Indent::Space));
            }
        } else if c == '(' {
            close_into(state, &mut buf, &mut out);
            state = ScanState::Undecided;
            out.push(Token::OpenBracket);
        } else if c == ')' {
            close_into(state, &mut buf, &mut out);
            state = ScanState::Undecided;
            out.push(Token::CloseBracket);
        } else if schar_extends_x(mode, c) && (state == ScanState::IdentRun || state
            == ScanState::Undecided) {
            state = ScanState::IdentRun;
            buf.push(c);
        } else {
            close_into(state, &mut buf, &mut out);
            state = ScanState::Undecided;
            let mut one: Vec<char> = Vec::new();
            one.push(c);
            proof {
                assert(one@ =~= seq![c]);
            }
            out.push(Token::Other(string_of(&one)));
        }
        proof {
            assert(lex_step(pre, c, *mode) == Some(
                LexState { state, buf: buf@, out: out@, esc },
            ));
        }
        i += 1;
    }
    proof {
        assert(src@.take(chars@.len() as int) =~= src@);
    }
    match close_buffer(state, &buf) {
        Some(t) => {
            out.push(t);
        }
        None => {}
    }
    Ok(out)
}

impl Token {
    /// Tokenizes `src` under `mode`; `None` is the lexing failure.
    pub fn parse(src: &String, mode: Mode) -> (r: Option<Tokens>)
        ensures
            r is Some <==> lex_spec(src@, mode) is Some,
            r is Some ==> r->0@ == lex_spec(src@, mode)->Some_0,
    {
        match tokenize(src.as_str(), &mode) {
            Ok(t) => Some(t),
            Err(_) => None,
        }
    }
}


impl View for Literal {
    type V = TokenModel;

    open spec fn view(&self) -> TokenModel {
        match self {
            Literal::Str(s) => TokenModel::StrLit(s@),
            Literal::Integer(n) => TokenModel::IntLit(*n as int),
            Literal::Floater(sc) => TokenModel::FloatLit(sc.whole as int, sc.frac@),
            Literal::Character(c) => TokenModel::CharLit(*c),
        }
    }
}

impl PartialEq for Literal {
    fn eq(&self, other: &Literal) -> (r: bool) {
        match (self, other) {
            (Literal::Str(a), Literal::Str(b)) => *a == *b,
            (Literal::Integer(a), Literal::Integer(b)) => *a == *b,
            (Literal::Floater(a), Literal::Floater(b)) => *a == *b,
            (Literal::Character(a), Literal::Character(b)) => *a == *b,
            _ => false,
        }
    }
}

impl vstd::std_specs::cmp::PartialEqSpecImpl for Literal {
    open spec fn obeys_eq_spec() -> bool {
        true
    }

    open spec fn eq_spec(&self, other: &Literal) -> bool {
        self@ == other@
    }
}

impl PartialEq for Token {
    fn eq(&self, other: &Token) -> (r: bool) {
        match (self, other) {
            (Token::Identifier(a), Token::Identifier(b)) => *a == *b,
            (Token::Literal(a), Token::Literal(b)) => *a == *b,
            (Token::Indent(a), Token::Indent(b)) => *a == *b,
            (Token::Other(a), Token::Other(b)) => *a == *b,
            (Token::OpenBracket, Token::OpenBracket) => true,
            (Token::CloseBracket, Token::CloseBracket) => true,
            (Token::Empty, Token::Empty) => true,
            _ => false,
        }
    }
}

impl vstd::std_specs::cmp::PartialEqSpecImpl for Token {
    open spec fn obeys_eq_spec() -> bool {
        true
    }

    open spec fn eq_spec(&self, other: &Token) -> bool {
        self@ == other@
    }
}

impl Literal {
    /// A copy of the literal with the same content.
    pub fn duplicate(&self) -> (r: Literal)
        ensures
            r@ == self@,
    {
        match self {
            Literal::Str(s) => Literal::Str(s.clone()),
            Literal::Integer(n) => Literal::Integer(*n),
            Literal::Floater(sc) => Literal::Floater(
                Scalar { whole: sc.whole, frac: sc.frac.clone() },
            ),
            Literal::Character(c) => Literal::Character(*c),
        }
    }
}

impl Token {
    /// A copy of the token with the same content.
    pub fn duplicate(&self) -> (r: Token)
        ensures
            r@ == self@,
    {
        match self {
            Token::Identifier(s) => Token::Identifier(s.clone()),
            Token::Literal(l) => Token::Literal(l.duplicate()),
            Token::Indent(i) => Token::Indent(*i),
            Token::Other(s) => Token::Other(s.clone()),
            Token::OpenBracket => Token::OpenBracket,
            Token::CloseBracket => Token::CloseBracket,
            Token::Empty => Token::Empty,
        }
    }

    /// The identifier's text, when the token is one.
    pub fn identifier(&self) -> (r: Option<String>)
        ensures
            match self@ {
                TokenModel::Identifier(s) => r is Some && r->0@ == s,
                _ => r is None,
            },
    {
        match self {
            Token::Identifier(s) => Some(s.clone()),
            _ => None,
        }
    }

    /// The indent kind, when the token is an indent.
    pub fn indent(&self) -> (r: Option<Indent>)
        ensures
            match self@ {
                TokenModel::Ind(i) => r == Some(i),
                _ => r is None,
            },
    {
        match self {
            Token::Indent(i) => Some(*i),
            _ => None,
        }
    }

    /// The literal payload, when the token is a literal.
    pub fn literal(&self) -> (r: Option<Literal>)
        ensures
            match self {
                Token::Literal(_) => r is Some && r->0@ == self@,
                _ => r is None,
            },
    {
        match self {
            Token::Literal(l) => Some(l.duplicate()),
            _ => None,
        }
    }

    /// The punctuation text, when the token is punctuation.
    pub fn other(&self) -> (r: Option<String>)
        ensures
            match self@ {
                TokenModel::Other(s) => r is Some && r->0@ == s,
                _ => r is None,
            },
    {
        match self {
            Token::Other(s) => Some(s.clone()),
            _ => None,
        }
    }

    /// Whether the token is the empty sentinel.
    pub fn none(&self) -> (r: bool)
        ensures
            r == (self@ is NoTok),
    {
        match self {
            Token::Empty => true,
            _ => false,
        }
    }

    /// Whether the token is a closing bracket.
    pub fn cbracket(&self) -> (r: bool)
        ensures
            r == (self@ is CloseB),
    {
        match self {
            Token::CloseBracket => true,
            _ => false,
        }
    }

    /// Whether the token is an opening bracket.
    pub fn obracket(&self) -> (r: bool)
        ensures
            r == (self@ is OpenB),
    {
        match self {
            Token::OpenBracket => true,
            _ => false,
        }
    }
}

// ---------------------------------------------------------------------
// Laws of the scanner.
// ---------------------------------------------------------------------

/// Running the scanner over `a + b` is running it over `a`, then over `b`
/// from where `a` left it.
pub proof fn lemma_lex_from_concat(st: LexState, a: Seq<char>, b: Seq<char>, m: Mode)
    ensures
        lex_from(st, a + b, m) == (match lex_from(st, a, m) {
            Some(st2) => lex_from(st2, b, m),
            None => None,
        }),
    decreases b.len(),
{
    if b.len() == 0 {
        assert(a + b =~= a);
    } else {
        assert((a + b).drop_last() =~= a + b.drop_last());
        lemma_lex_from_concat(st, a, b.drop_last(), m);
        assert((a + b).last() == b.last());
    }
}

proof fn lemma_letters_scan(s: Seq<char>, m: Mode)
    requires
        s.len() > 0,
        forall|i: int| 0 <= i < s.len() ==> is_letter(#[trigger] s[i]),
    ensures
        lex_from(init_state(), s, m) == Some(
            LexState {
                state: ScanState::IdentRun,
                buf: s,
                out: Seq::empty(),
                esc: false,
            },
        ),
    decreases s.len(),
{
    if s.len() == 1 {
        assert(s.drop_last() =~= Seq::<char>::empty());
        assert(is_letter(s[0]));
        assert(seq![s[0]] =~= s);
        assert(s.last() == s[0]);
    } else {
        lemma_letters_scan(s.drop_last(), m);
        assert(is_letter(s.last())) by {
            assert(s.last() == s[s.len() - 1]);
        }
        assert(s.drop_last().push(s.last()) =~= s);
    }
}

/// Law: an input of letters alone lexes, under every mode, to exactly one
/// identifier token holding the whole input.
pub proof fn lemma_letters_identifier(s: Seq<char>, m: Mode)
    requires
        s.len() > 0,
        forall|i: int| 0 <= i < s.len() ==> is_letter(#[trigger] s[i]),
    ensures
        lex_spec(s, m) == Some(seq![TokenModel::Identifier(s)]),
{
    lemma_letters_scan(s, m);
    assert(Seq::<TokenModel>::empty().push(TokenModel::Identifier(s)) =~= seq![
        TokenModel::Identifier(s),
    ]);
}

/// The escaped form of `s`: every backslash and double quote is preceded
/// by a backslash.
pub open spec fn escape_str(s: Seq<char>) -> Seq<char>
    decreases s.len(),
{
    if s.len() == 0 {
        Seq::empty()
    } else if s[0] == '\\' || s[0] == '"' {
        seq!['\\', s[0]] + escape_str(s.drop_first())
    } else {
        seq![s[0]] + escape_str(s.drop_first())
    }
}

/// One scanner step, as `lex_from` over a one-character input.
pub proof fn lemma_lex_one(st: LexState, c: char, m: Mode)
    ensures
        lex_from(st, seq![c], m) == lex_step(st, c, m),
{
    assert(seq![c].drop_last() =~= Seq::<char>::empty());
    assert(seq![c].last() == c);
    assert(lex_from(st, Seq::<char>::empty(), m) == Some(st));
}

/// Whether `s` is a well-formed string-literal body: every backslash
/// escapes a following character, and every double quote is escaped.
pub open spec fn body_wf(s: Seq<char>) -> bool
    decreases s.len(),
{
    if s.len() == 0 {
        true
    } else if s[0] == '\\' {
        s.len() >= 2 && body_wf(s.skip(2))
    } else {
        s[0] != '"' && body_wf(s.skip(1))
    }
}

/// The text a well-formed literal body stands for: each escape pair
/// replaced by the escaped character itself.
pub open spec fn unescape(s: Seq<char>) -> Seq<char>
    decreases s.len(),
{
    if s.len() == 0 {
        Seq::empty()
    } else if s[0] == '\\' {
        if s.len() >= 2 {
            seq![s[1]] + unescape(s.skip(2))
        } else {
            Seq::empty()
        }
    } else {
        seq![s[0]] + unescape(s.skip(1))
    }
}

proof fn lemma_str_body(st0: LexState, body: Seq<char>, m: Mode)
    requires
        st0.state == ScanState::StrRun,
        !st0.esc,
        body_wf(body),
    ensures
        lex_from(st0, body, m) == Some(
            LexState {
                state: ScanState::StrRun,
                buf: st0.buf + unescape(body),
                out: st0.out,
                esc: false,
            },
        ),
    decreases body.len(),
{
    if body.len() == 0 {
        assert(st0.buf + unescape(body) =~= st0.buf);
        assert(lex_from(st0, body, m) == Some(st0));
    } else if body[0] == '\\' {
        let c = body[1];
        let head = seq!['\\', c];
        assert(body =~= head + body.skip(2));
        assert(head =~= seq!['\\'] + seq![c]);
        lemma_lex_one(st0, '\\', m);
        let stm = LexState { esc: true, ..st0 };
        assert(lex_step(st0, '\\', m) == Some(stm));
        let st1 = LexState {
            state: ScanState::StrRun,
            buf: st0.buf.push(c),
            out: st0.out,
            esc: false,
        };
        lemma_lex_one(stm, c, m);
        assert(lex_step(stm, c, m) == Some(st1));
        lemma_lex_from_concat(st0, seq!['\\'], seq![c], m);
        assert(lex_from(st0, head, m) == Some(st1));
        lemma_lex_from_concat(st0, head, body.skip(2), m);
        lemma_str_body(st1, body.skip(2), m);
        assert(st0.buf.push(c) + unescape(body.skip(2)) =~= st0.buf + unescape(body));
    } else {
        let c = body[0];
        let head = seq![c];
        assert(body =~= head + body.skip(1));
        let st1 = LexState {
            state: ScanState::StrRun,
            buf: st0.buf.push(c),
            out: st0.out,
            esc: false,
        };
        lemma_lex_one(st0, c, m);
        assert(lex_step(st0, c, m) == Some(st1));
        lemma_lex_from_concat(st0, head, body.skip(1), m);
        lemma_str_body(st1, body.skip(1), m);
        assert(st0.buf.push(c) + unescape(body.skip(1)) =~= st0.buf + unescape(body));
    }
}

/// Law: a double-quoted literal whose body is well formed — every
/// backslash escaping its following character, every inner quote escaped
/// — lexes, under every mode, to exactly one string token holding the
/// unescaped text. An empty body yields no token at all: an empty-buffer
/// closure never emits one.
pub proof fn lemma_string_literal_body(body: Seq<char>, m: Mode)
    requires
        body.len() > 0,
        body_wf(body),
    ensures
        lex_spec(seq!['"'] + body + seq!['"'], m) == Some(seq![
            TokenModel::StrLit(unescape(body)),
        ]),
{
    let open = seq!['"'];
    let close = seq!['"'];
    let st1 = LexState {
        state: ScanState::StrRun,
        buf: Seq::empty(),
        out: Seq::empty(),
        esc: false,
    };
    lemma_lex_one(init_state(), '"', m);
    assert(lex_step(init_state(), '"', m) == Some(st1));
    lemma_lex_from_concat(init_state(), open, body, m);
    lemma_str_body(st1, body, m);
    assert(Seq::<char>::empty() + unescape(body) =~= unescape(body));
    let st2 = LexState {
        state: ScanState::StrRun,
        buf: unescape(body),
        out: Seq::empty(),
        esc: false,
    };
    assert(lex_from(init_state(), open + body, m) == Some(st2));
    assert(unescape(body).len() > 0);
    lemma_lex_from_concat(init_state(), open + body, close, m);
    lemma_lex_one(st2, '"', m);
    let st3 = LexState {
        state: ScanState::Undecided,
        buf: Seq::empty(),
        out: Seq::empty().push(TokenModel::StrLit(unescape(body))),
        esc: false,
    };
    assert(lex_step(st2, '"', m) == Some(st3));
    assert(open + body + close =~= (open + body) + close);
    assert(lex_from(init_state(), open + body + close, m) == Some(st3));
    assert(Seq::<TokenModel>::empty().push(TokenModel::StrLit(unescape(body))) =~= seq![
        TokenModel::StrLit(unescape(body)),
    ]);
}

/// The escaped form of a text is a well-formed body and reads back as
/// that text.
pub proof fn lemma_escape_wf(content: Seq<char>)
    ensures
        body_wf(escape_str(content)),
        unescape(escape_str(content)) == content,
        content.len() > 0 ==> escape_str(content).len() > 0,
    decreases content.len(),
{
    if content.len() > 0 {
        lemma_escape_wf(content.drop_first());
        if content[0] == '\\' || content[0] == '"' {
            assert(escape_str(content).skip(2) =~= escape_str(content.drop_first()));
            assert(seq![content[0]] + content.drop_first() =~= content);
        } else {
            assert(escape_str(content).skip(1) =~= escape_str(content.drop_first()));
            assert(seq![content[0]] + content.drop_first() =~= content);
        }
    } else {
        assert(unescape(escape_str(content)) =~= content);
    }
}

/// Law: for any text, lexing a double-quoted literal holding its escaped
/// form yields exactly one string token holding the text itself; escaped
/// quotes inside it do not terminate the literal. Holds under every mode.
pub proof fn lemma_string_literal(content: Seq<char>, m: Mode)
    requires
        content.len() > 0,
    ensures
        lex_spec(seq!['"'] + escape_str(content) + seq!['"'], m) == Some(seq![
            TokenModel::StrLit(content),
        ]),
{
    lemma_escape_wf(content);
    lemma_string_literal_body(escape_str(content), m);
}

/// Law: under strict literals, a single-quoted single character lexes to
/// exactly one char-literal token holding that character.
pub proof fn lemma_char_literal(c: char, m: Mode)
    requires
        m.strict_literals,
        c != '\'',
        c != '\\',
    ensures
        lex_spec(seq!['\'', c, '\''], m) == Some(seq![TokenModel::CharLit(c)]),
{
    let s = seq!['\'', c, '\''];
    assert(s =~= (seq!['\''] + seq![c]) + seq!['\'']);
    let st1 = LexState {
        state: ScanState::CharRun,
        buf: Seq::empty(),
        out: Seq::empty(),
        esc: false,
    };
    lemma_lex_one(init_state(), '\'', m);
    assert(lex_step(init_state(), '\'', m) == Some(st1));
    let st2 = LexState {
        state: ScanState::CharRun,
        buf: Seq::empty().push(c),
        out: Seq::empty(),
        esc: false,
    };
    lemma_lex_one(st1, c, m);
    assert(st1.buf.push(c).len() == 1);
    assert(lex_step(st1, c, m) == Some(st2));
    lemma_lex_from_concat(init_state(), seq!['\''], seq![c], m);
    assert(lex_from(init_state(), seq!['\''] + seq![c], m) == Some(st2));
    lemma_lex_one(st2, '\'', m);
    assert(st2.buf.len() == 1);
    assert(st2.buf[0] == c);
    let st3 = LexState {
        state: ScanState::Undecided,
        buf: Seq::empty(),
        out: Seq::empty().push(TokenModel::CharLit(c)),
        esc: false,
    };
    assert(lex_step(st2, '\'', m) == Some(st3));
    lemma_lex_from_concat(init_state(), seq!['\''] + seq![c], seq!['\''], m);
    assert(lex_from(init_state(), s, m) == Some(st3));
    assert(Seq::<TokenModel>::empty().push(TokenModel::CharLit(c)) =~= seq![
        TokenModel::CharLit(c),
    ]);
}

/// Law: under strict literals, a single-quoted run of two characters
/// fails the lex.
pub proof fn lemma_char_literal_two(c1: char, c2: char, m: Mode)
    requires
        m.strict_literals,
        c1 != '\'',
        c1 != '\\',
        c2 != '\'',
        c2 != '\\',
    ensures
        lex_spec(seq!['\'', c1, c2, '\''], m) is None,
{
    let s = seq!['\'', c1, c2, '\''];
    assert(s =~= ((seq!['\''] + seq![c1]) + seq![c2]) + seq!['\'']);
    let st1 = LexState {
        state: ScanState::CharRun,
        buf: Seq::empty(),
        out: Seq::empty(),
        esc: false,
    };
    lemma_lex_one(init_state(), '\'', m);
    assert(lex_step(init_state(), '\'', m) == Some(st1));
    let st2 = LexState {
        state: ScanState::CharRun,
        buf: Seq::empty().push(c1),
        out: Seq::empty(),
        esc: false,
    };
    lemma_lex_one(st1, c1, m);
    assert(st1.buf.push(c1).len() == 1);
    assert(lex_step(st1, c1, m) == Some(st2));
    lemma_lex_from_concat(init_state(), seq!['\''], seq![c1], m);
    assert(lex_from(init_state(), seq!['\''] + seq![c1], m) == Some(st2));
    lemma_lex_one(st2, c2, m);
    assert(st2.buf.push(c2).len() == 2);
    assert(lex_step(st2, c2, m) is None);
    lemma_lex_from_concat(init_state(), seq!['\''] + seq![c1], seq![c2], m);
    assert(lex_from(init_state(), (seq!['\''] + seq![c1]) + seq![c2], m) is None);
    lemma_lex_from_concat(init_state(), (seq!['\''] + seq![c1]) + seq![c2], seq!['\''], m);
    assert(lex_from(init_state(), s, m) is None);
}


// ---------------------------------------------------------------------
// Rendering tokens back to text.
// ---------------------------------------------------------------------

/// The text a literal renders to: its string, its character, or its
/// number written in decimal.
pub open spec fn render_lit(t: TokenModel) -> Seq<char> {
    match t {
        TokenModel::StrLit(s) => s,
        TokenModel::CharLit(c) => seq![c],
        TokenModel::IntLit(v) => int_str(v),
        TokenModel::FloatLit(w, f) => scalar_str(ScalarModel { whole: w, frac: f }),
        _ => Seq::empty(),
    }
}

/// What one token contributes when a sequence is rendered: literals are
/// wrapped in double quotes, indents become their whitespace character,
/// and the empty sentinel contributes nothing.
pub open spec fn render_tok(t: TokenModel) -> Seq<char> {
    match t {
        TokenModel::Identifier(s) => s,
        TokenModel::StrLit(_) => seq!['"'] + render_lit(t) + seq!['"'],
        TokenModel::CharLit(_) => seq!['"'] + render_lit(t) + seq!['"'],
        TokenModel::IntLit(_) => seq!['"'] + render_lit(t) + seq!['"'],
        TokenModel::FloatLit(_, _) => seq!['"'] + render_lit(t) + seq!['"'],
        TokenModel::Ind(Indent::NewLine) => seq!['\n'],
        TokenModel::Ind(Indent::Tab) => seq!['\t'],
        TokenModel::Ind(Indent::Space) => seq![' '],
        TokenModel::Other(s) => s,
        TokenModel::OpenB => seq!['('],
        TokenModel::CloseB => seq![')'],
        TokenModel::NoTok => Seq::empty(),
    }
}

/// The rendering of a whole token sequence, in order.
pub open spec fn render_toks(ts: Seq<TokenModel>) -> Seq<char>
    decreases ts.len(),
{
    if ts.len() == 0 {
        Seq::empty()
    } else {
        render_toks(ts.drop_last()) + render_tok(ts.last())
    }
}

impl Literal {
    /// Appends the literal's text, per [`render_lit`].
    fn push_chars(&self, out: &mut Vec<char>)
        ensures
            final(out)@ == old(out)@ + render_lit(self@),
    {
        let ghost pre = out@;
        match self {
            Literal::Str(s) => {
                push_str(out, s.as_str());
            }
            Literal::Character(c) => {
                out.push(*c);
                proof {
                    assert(out@ =~= pre + seq![*c]);
                }
            }
            Literal::Integer(n) => {
                crate::num::push_i64(out, *n);
            }
            Literal::Floater(sc) => {
                sc.push_chars(out);
            }
        }
    }

    /// The literal's text, per [`render_lit`].
    pub fn to_string(&self) -> (r: String)
        ensures
            r@ == render_lit(self@),
    {
        let mut out: Vec<char> = Vec::new();
        self.push_chars(&mut out);
        proof {
            assert(Seq::<char>::empty() + render_lit(self@) =~= render_lit(self@));
        }
        string_of(&out)
    }
}

impl Tokens {
    /// Renders the whole sequence back to text, per [`render_toks`].
    pub fn to_string(&self) -> (r: String)
        ensures
            r@ == render_toks(self@),
    {
        let mut out: Vec<char> = Vec::new();
        let mut i: usize = 0;
        let n = self.len();
        proof {
            assert(render_toks(self@.take(0)) =~= Seq::<char>::empty());
            assert(out@ =~= render_toks(self@.take(0)));
        }
        while i < n
            invariant
                0 <= i <= n,
                n == self@.len(),
                out@ == render_toks(self@.take(i as int)),
            decreases n - i,
        {
            let ghost pre = out@;
            proof {
                assert(self@.take(i + 1).drop_last() =~= self@.take(i as int));
                assert(self@.take(i + 1).last() == self@[i as int]);
            }
            let t = self.get(i);
            match t {
                Token::Identifier(s) => {
                    push_str(&mut out, s.as_str());
                }
                Token::Literal(l) => {
                    out.push('"');
                    l.push_chars(&mut out);
                    out.push('"');
                    proof {
                        assert(out@ =~= pre + render_tok(t@));
                    }
                }
                Token::Indent(Indent::NewLine) => {
                    out.push('\n');
                    proof {
                        assert(out@ =~= pre + render_tok(t@));
                    }
                }
                Token::Indent(Indent::Tab) => {
                    out.push('\t');
                    proof {
                        assert(out@ =~= pre + render_tok(t@));
                    }
                }
                Token::Indent(Indent::Space) => {
                    out.push(' ');
                    proof {
                        assert(out@ =~= pre + render_tok(t@));
                    }
                }
                Token::Other(s) => {
                    push_str(&mut out, s.as_str());
                }
                Token::OpenBracket => {
                    out.push('(');
                    proof {
                        assert(out@ =~= pre + render_tok(t@));
                    }
                }
                Token::CloseBracket => {
                    out.push(')');
                    proof {
                        assert(out@ =~= pre + render_tok(t@));
                    }
                }
                Token::Empty => {
                    proof {
                        assert(pre + render_tok(t@) =~= pre);
                    }
                }
            }
            i += 1;
        }
        proof {
            assert(self@.take(n as int) =~= self@);
        }
        string_of(&out)
    }
}

} // verus!
