use vstd::prelude::*;
use crate::token::{Tok, STok, Kind, kind};

verus! {

/// The first lexical error: the offending byte and the line it was found on.
#[derive(Debug, Clone, Copy, PartialEq, Eq)]
pub struct LexError {
    pub byte: u8,
    pub line: usize,
}

/// A forward-only lexer over the bytes of one source file.
pub struct Lex {
    pub bytes: Vec<u8>,
    pub pos: usize,
    pub line: usize,
    pub problem: Option<LexError>,
}

/// The abstract state of a lexer: cursor, line counter and sticky error.
pub struct LexState {
    pub pos: int,
    pub line: int,
    pub problem: Option<LexError>,
}

/// The outcome of lexing one token from a cursor: the token, the cursor and
/// line after it, and the byte that stopped lexing, if any.
pub struct LexStep {
    pub tok: STok,
    pub pos: int,
    pub line: int,
    pub bad: Option<u8>,
}

pub open spec fn is_digit(b: u8) -> bool {
    48u8 <= b <= 57u8
}

pub open spec fn is_id_start(b: u8) -> bool {
    (65u8 <= b <= 90u8) || (97u8 <= b <= 122u8) || b == 95u8
}

pub open spec fn is_id_char(b: u8) -> bool {
    is_id_start(b) || is_digit(b)
}

/// The end of the maximal run of identifier characters starting at `i`.
pub open spec fn id_end(s: Seq<u8>, i: int) -> int
    decreases s.len() - i,
{
    if 0 <= i < s.len() && is_id_char(s[i]) {
        id_end(s, i + 1)
    } else {
        i
    }
}

/// The end of the maximal run of decimal digits starting at `i`.
pub open spec fn digits_end(s: Seq<u8>, i: int) -> int
    decreases s.len() - i,
{
    if 0 <= i < s.len() && is_digit(s[i]) {
        digits_end(s, i + 1)
    } else {
        i
    }
}

/// The single-character punctuation tokens.
pub open spec fn single_tok(b: u8) -> STok {
    if b == 91u8 {
        STok::LeftBracket
    } else if b == 93u8 {
        STok::RightBracket
    } else if b == 40u8 {
        STok::LeftParen
    } else if b == 41u8 {
        STok::RightParen
    } else if b == 123u8 {
        STok::LeftCurly
    } else if b == 125u8 {
        STok::RightCurly
    } else if b == 44u8 {
        STok::Comma
    } else if b == 59u8 {
        STok::Semicolon
    } else if b == 43u8 {
        STok::Plus
    } else if b == 45u8 {
        STok::Subtract
    } else if b == 42u8 {
        STok::Multiply
    } else if b == 47u8 {
        STok::Divide
    } else if b == 37u8 {
        STok::Modulus
    } else {
        STok::Empty
    }
}

/// The token that a maximal identifier-shaped word stands for.
pub open spec fn word_tok(w: Seq<u8>) -> STok {
    if w == seq![102u8, 117u8, 110u8, 99u8] {
        STok::Func
    } else if w == seq![114u8, 101u8, 116u8, 117u8, 114u8, 110u8] {
        STok::Return
    } else if w == seq![105u8, 110u8, 116u8] {
        STok::Int
    } else if w == seq![112u8, 114u8, 105u8, 110u8, 116u8] {
        STok::Print
    } else if w == seq![114u8, 101u8, 97u8, 100u8] {
        STok::Read
    } else if w == seq![119u8, 104u8, 105u8, 108u8, 101u8] {
        STok::While
    } else if w == seq![105u8, 102u8] {
        STok::If
    } else if w == seq![101u8, 108u8, 115u8, 101u8] {
        STok::Else
    } else if w == seq![98u8, 114u8, 101u8, 97u8, 107u8] {
        STok::Break
    } else if w == seq![99u8, 111u8, 110u8, 116u8, 105u8, 110u8, 117u8, 101u8] {
        STok::Continue
    } else {
        STok::Identifier(w)
    }
}

pub open spec fn found(tok: STok, pos: int, line: int) -> LexStep {
    LexStep { tok, pos, line, bad: None }
}

/// A one- or two-character operator at `pos`: `second` when the next byte is
/// `=`, else `first` (also at the end of input).
pub open spec fn two_char(s: Seq<u8>, pos: int, line: int, first: STok, second: STok) -> LexStep {
    if pos + 1 < s.len() && s[pos + 1] == 61u8 {
        found(second, pos + 2, line)
    } else {
        found(first, pos + 1, line)
    }
}

/// Lexes one token of `s` from cursor `pos` on line `line`.
pub open spec fn lex_from(s: Seq<u8>, pos: int, line: int) -> LexStep
    decreases s.len() - pos, 0int,
{
    if pos < 0 || pos >= s.len() {
        found(STok::Empty, pos, line)
    } else {
        let b = s[pos];
        if single_tok(b) != STok::Empty {
            found(single_tok(b), pos + 1, line)
        } else if b == 61u8 {
            two_char(s, pos, line, STok::Assign, STok::Equality)
        } else if b == 60u8 {
            two_char(s, pos, line, STok::Less, STok::LessEqual)
        } else if b == 62u8 {
            two_char(s, pos, line, STok::Greater, STok::GreaterEqual)
        } else if b == 32u8 || b == 9u8 {
            lex_from(s, pos + 1, line)
        } else if b == 13u8 {
            if pos + 1 < s.len() && s[pos + 1] == 10u8 {
                lex_from(s, pos + 1, line)
            } else {
                lex_from(s, pos + 1, line + 1)
            }
        } else if b == 10u8 {
            lex_from(s, pos + 1, line + 1)
        } else if b == 33u8 {
            if pos + 1 < s.len() && s[pos + 1] == 61u8 {
                found(STok::NotEqual, pos + 2, line)
            } else {
                LexStep { tok: STok::Empty, pos: pos + 1, line, bad: Some(33u8) }
            }
        } else if is_id_start(b) {
            found(word_tok(s.subrange(pos, id_end(s, pos))), id_end(s, pos), line)
        } else if is_digit(b) {
            found(STok::Number(s.subrange(pos, digits_end(s, pos))), digits_end(s, pos), line)
        } else if b == 35u8 {
            skip_comment(s, pos + 1, line)
        } else {
            LexStep { tok: STok::Empty, pos, line, bad: Some(b) }
        }
    }
}

/// Skips the rest of a comment from `i` (up to, not over, the line break),
/// then lexes one token.
pub open spec fn skip_comment(s: Seq<u8>, i: int, line: int) -> LexStep
    decreases s.len() - i, 1int,
{
    if i < 0 || i > s.len() {
        found(STok::Empty, i, line)
    } else if i < s.len() && s[i] != 10u8 && s[i] != 13u8 {
        skip_comment(s, i + 1, line)
    } else {
        lex_from(s, i, line)
    }
}

/// One call of the lexer from state `st`: after an error it yields only the
/// end sentinel and stays as it is.
pub open spec fn next_spec(s: Seq<u8>, st: LexState) -> (STok, LexState) {
    if st.problem is Some {
        (STok::Empty, st)
    } else {
        let r = lex_from(s, st.pos, st.line);
        (
            r.tok,
            LexState {
                pos: r.pos,
                line: r.line,
                problem: match r.bad {
                    Some(b) => Some(LexError { byte: b, line: r.line as usize }),
                    None => None,
                },
            },
        )
    }
}

/// The meaningful tokens (all before the end sentinel) that the lexer yields
/// from state `st`.
pub open spec fn tokens_from(s: Seq<u8>, st: LexState) -> Seq<STok>
    decreases s.len() - st.pos,
{
    let (t, st2) = next_spec(s, st);
    if t == STok::Empty || st.pos < 0 || st2.pos <= st.pos || st2.pos > s.len() {
        Seq::empty()
    } else {
        seq![t] + tokens_from(s, st2)
    }
}

/// The state the lexer settles in from `st` once it has yielded the end
/// sentinel: its sticky error and its final line.
pub open spec fn lex_end(s: Seq<u8>, st: LexState) -> LexState
    decreases s.len() - st.pos,
{
    let (t, st2) = next_spec(s, st);
    if t == STok::Empty || st.pos < 0 || st2.pos <= st.pos || st2.pos > s.len() {
        st2
    } else {
        lex_end(s, st2)
    }
}

/// The lexer's final state on the whole of `s`.
pub open spec fn lex_result(s: Seq<u8>) -> LexState {
    lex_end(s, start_state())
}

/// One call of the lexer does not change where it settles; once it has
/// yielded the end sentinel it stays where it is.
pub proof fn lemma_lex_end_step(s: Seq<u8>, st: LexState)
    requires
        0 <= st.pos <= s.len(),
    ensures
        lex_end(s, next_spec(s, st).1) == lex_end(s, st),
        next_spec(s, st).0 == STok::Empty ==> lex_end(s, next_spec(s, st).1) == next_spec(s, st).1,
        0 <= next_spec(s, st).1.pos <= s.len(),
{
    let (t, st2) = next_spec(s, st);
    if st.problem is None {
        lemma_lex_from(s, st.pos, st.line);
    }
    if t == STok::Empty {
        if st2.problem is None {
            lemma_lex_from(s, st2.pos, st2.line);
            assert(st2.pos == s.len());
        }
        assert(next_spec(s, st2).1 == st2);
    }
}

/// The lexer's state before it has read anything.
pub open spec fn start_state() -> LexState {
    LexState { pos: 0, line: 1, problem: None }
}

/// The meaningful tokens of a whole source text.
pub open spec fn token_seq(s: Seq<u8>) -> Seq<STok> {
    tokens_from(s, start_state())
}

pub proof fn lemma_lex_from(s: Seq<u8>, pos: int, line: int)
    requires
        0 <= pos <= s.len(),
    ensures
        pos <= lex_from(s, pos, line).pos <= s.len(),
        lex_from(s, pos, line).tok != STok::Empty ==> lex_from(s, pos, line).pos > pos
            && lex_from(s, pos, line).bad is None,
        lex_from(s, pos, line).tok == STok::Empty ==> lex_from(s, pos, line).bad is Some
            || lex_from(s, pos, line).pos == s.len(),
    decreases s.len() - pos, 0int,
{
    if pos < s.len() {
        let b = s[pos];
        let r = lex_from(s, pos, line);
        if single_tok(b) != STok::Empty {
            assert(r.pos == pos + 1);
        } else if b == 61u8 || b == 60u8 || b == 62u8 {
            assert(r.pos > pos);
        } else if b == 32u8 || b == 9u8 || b == 10u8 {
            lemma_lex_from(s, pos + 1, line);
            lemma_lex_from(s, pos + 1, line + 1);
            assert(r.pos > pos);
        } else if b == 13u8 {
            lemma_lex_from(s, pos + 1, line);
            lemma_lex_from(s, pos + 1, line + 1);
            assert(r.pos > pos);
        } else if b == 33u8 {
            assert(r.pos > pos);
        } else if is_id_start(b) {
            lemma_id_end(s, pos);
            lemma_word_tok(s.subrange(pos, id_end(s, pos)));
            assert(r.pos > pos);
        } else if is_digit(b) {
            lemma_digits_end(s, pos);
            assert(r.pos > pos);
        } else if b == 35u8 {
            lemma_skip_comment(s, pos + 1, line);
            assert(r.pos > pos);
        } else {
            assert(r.tok == STok::Empty);
        }
    }
}

pub proof fn lemma_skip_comment(s: Seq<u8>, i: int, line: int)
    requires
        0 <= i <= s.len(),
    ensures
        i <= skip_comment(s, i, line).pos <= s.len(),
        skip_comment(s, i, line).tok != STok::Empty ==> skip_comment(s, i, line).pos > i
            && skip_comment(s, i, line).bad is None,
        skip_comment(s, i, line).tok == STok::Empty ==> skip_comment(s, i, line).bad is Some
            || skip_comment(s, i, line).pos == s.len(),
    decreases s.len() - i, 1int,
{
    if i < s.len() && s[i] != 10u8 && s[i] != 13u8 {
        lemma_skip_comment(s, i + 1, line);
    } else {
        lemma_lex_from(s, i, line);
    }
}

pub proof fn lemma_id_end(s: Seq<u8>, i: int)
    requires
        0 <= i <= s.len(),
    ensures
        i <= id_end(s, i) <= s.len(),
        0 <= i < s.len() && is_id_char(s[i]) ==> id_end(s, i) > i,
    decreases s.len() - i,
{
    if 0 <= i < s.len() && is_id_char(s[i]) {
        lemma_id_end(s, i + 1);
    }
}

pub proof fn lemma_digits_end(s: Seq<u8>, i: int)
    requires
        0 <= i <= s.len(),
    ensures
        i <= digits_end(s, i) <= s.len(),
        0 <= i < s.len() && is_digit(s[i]) ==> digits_end(s, i) > i,
    decreases s.len() - i,
{
    if 0 <= i < s.len() && is_digit(s[i]) {
        lemma_digits_end(s, i + 1);
    }
}

pub proof fn lemma_word_tok(w: Seq<u8>)
    ensures
        word_tok(w) != STok::Empty,
{
}

/// From a state within the input, the next call of the lexer yields the first
/// of the remaining meaningful tokens and leaves the rest; once those are
/// exhausted it yields the end sentinel, and keeps doing so.
pub proof fn lemma_next_spec(s: Seq<u8>, st: LexState)
    requires
        0 <= st.pos <= s.len(),
    ensures
        next_spec(s, st).0 == tok_at_front(tokens_from(s, st)),
        0 <= next_spec(s, st).1.pos <= s.len(),
        tokens_from(s, next_spec(s, st).1) == if tokens_from(s, st).len() == 0 {
            Seq::<STok>::empty()
        } else {
            tokens_from(s, st).drop_first()
        },
{
    let (t, st2) = next_spec(s, st);
    if st.problem is None {
        lemma_lex_from(s, st.pos, st.line);
    }
    if t == STok::Empty {
        let (t3, st3) = next_spec(s, st2);
        if st2.problem is None {
            lemma_lex_from(s, st2.pos, st2.line);
            assert(st2.pos == s.len());
        }
        assert(t3 == STok::Empty);
    } else {
        assert(tokens_from(s, st) == seq![t] + tokens_from(s, st2));
        assert((seq![t] + tokens_from(s, st2)).drop_first() =~= tokens_from(s, st2));
    }
}

/// The first token of a stream, or the end sentinel if it has none.
pub open spec fn tok_at_front(ts: Seq<STok>) -> STok {
    if ts.len() > 0 {
        ts[0]
    } else {
        STok::Empty
    }
}

/// What one call of `Lex::lex` from cursor `pos0` on line `line0` yields: the
/// token (none for the end sentinel) and the state after it.
pub open spec fn lex_post(
    s: Seq<u8>,
    pos0: int,
    line0: int,
    prob0: Option<LexError>,
    r: Option<Tok>,
    after: LexState,
) -> bool {
    let st = lex_from(s, pos0, line0);
    &&& after.pos == st.pos
    &&& after.line == st.line
    &&& (r is None <==> st.tok == STok::Empty)
    &&& (r matches Some(t) ==> t@ == st.tok)
    &&& after.problem == match st.bad {
        Some(b) => Some(LexError { byte: b, line: st.line as usize }),
        None => prob0,
    }
}

/// Whether two byte strings are equal.
pub fn bytes_eq(a: &Vec<u8>, b: &Vec<u8>) -> (r: bool)
    ensures
        r == (a@ == b@),
{
    if a.len() != b.len() {
        return false;
    }
    let mut i: usize = 0;
    while i < a.len()
        invariant
            a@.len() == b@.len(),
            i <= a@.len(),
            forall|j: int| 0 <= j < i ==> a@[j] == b@[j],
        decreases a@.len() - i,
    {
        if a[i] != b[i] {
            return false;
        }
        i = i + 1;
    }
    assert(a@ =~= b@);
    true
}

/// The token for a maximal identifier-shaped word: a keyword or an identifier.
pub fn word_token(id: Vec<u8>) -> (t: Tok)
    ensures
        t@ == word_tok(id@),
{
    if bytes_eq(&id, &vec![102u8, 117u8, 110u8, 99u8]) {
        Tok::Func
    } else if bytes_eq(&id, &vec![114u8, 101u8, 116u8, 117u8, 114u8, 110u8]) {
        Tok::Return
    } else if bytes_eq(&id, &vec![105u8, 110u8, 116u8]) {
        Tok::Int
    } else if bytes_eq(&id, &vec![112u8, 114u8, 105u8, 110u8, 116u8]) {
        Tok::Print
    } else if bytes_eq(&id, &vec![114u8, 101u8, 97u8, 100u8]) {
        Tok::Read
    } else if bytes_eq(&id, &vec![119u8, 104u8, 105u8, 108u8, 101u8]) {
        Tok::While
    } else if bytes_eq(&id, &vec![105u8, 102u8]) {
        Tok::If
    } else if bytes_eq(&id, &vec![101u8, 108u8, 115u8, 101u8]) {
        Tok::Else
    } else if bytes_eq(&id, &vec![98u8, 114u8, 101u8, 97u8, 107u8]) {
        Tok::Break
    } else if bytes_eq(&id, &vec![99u8, 111u8, 110u8, 116u8, 105u8, 110u8, 117u8, 101u8]) {
        Tok::Continue
    } else {
        Tok::Identifier(id)
    }
}

impl Lex {
    /// Cursor within the input, line counter no larger than the number of
    /// bytes read plus one.
    pub open spec fn wf(&self) -> bool {
        &&& self.pos <= self.bytes@.len()
        &&& 1 <= self.line <= self.pos + 1
        &&& self.bytes@.len() < usize::MAX
    }

    pub open spec fn state(&self) -> LexState {
        LexState { pos: self.pos as int, line: self.line as int, problem: self.problem }
    }

    /// A lexer at the start of `bytes`.
    pub fn make(bytes: Vec<u8>) -> (r: Lex)
        requires
            bytes@.len() < usize::MAX,
        ensures
            r.wf(),
            r.bytes@ == bytes@,
            r.state() == start_state(),
    {
        Lex { bytes, pos: 0, line: 1, problem: None }
    }

    /// The next token; the end sentinel at the end of input and, once an error
    /// has been recorded, for every further call.
    pub fn next(&mut self) -> (t: Tok)
        requires
            old(self).wf(),
        ensures
            final(self).wf(),
            final(self).bytes@ == old(self).bytes@,
            (t@, final(self).state()) == next_spec(old(self).bytes@, old(self).state()),
    {
        if self.problem.is_some() {
            return Tok::Empty;
        }
        if let Some(tok) = self.lex() {
            tok
        } else {
            Tok::Empty
        }
    }

    /// Consumes one byte and yields `token`.
    pub fn token(&mut self, token: Tok) -> (r: Option<Tok>)
        requires
            old(self).wf(),
            old(self).pos < old(self).bytes@.len(),
        ensures
            final(self).wf(),
            final(self).bytes@ == old(self).bytes@,
            final(self).pos == old(self).pos + 1,
            final(self).line == old(self).line,
            final(self).problem == old(self).problem,
            r == Some(token),
    {
        self.pos = self.pos + 1;
        Some(token)
    }

    /// Consumes one byte, and a second one if it is `peek_check`: yields
    /// `token2` when it was, else `token`.
    pub fn token2(&mut self, token: Tok, peek_check: u8, token2: Tok) -> (r: Option<Tok>)
        requires
            old(self).wf(),
            old(self).pos < old(self).bytes@.len(),
        ensures
            final(self).wf(),
            final(self).bytes@ == old(self).bytes@,
            final(self).line == old(self).line,
            final(self).problem == old(self).problem,
            ({
                let s = old(self).bytes@;
                let p = old(self).pos as int;
                if p + 1 < s.len() && s[p + 1] == peek_check {
                    final(self).pos == p + 2 && r == Some(token2)
                } else {
                    final(self).pos == p + 1 && r == Some(token)
                }
            }),
    {
        self.pos = self.pos + 1;
        if self.pos >= self.bytes.len() {
            return Some(token);
        }
        if self.bytes[self.pos] == peek_check {
            self.pos = self.pos + 1;
            Some(token2)
        } else {
            Some(token)
        }
    }

    /// Reads the maximal run of digits at the cursor as a number token.
    pub fn lex_number(&mut self) -> (r: Option<Tok>)
        requires
            old(self).wf(),
        ensures
            final(self).wf(),
            final(self).bytes@ == old(self).bytes@,
            final(self).pos == digits_end(old(self).bytes@, old(self).pos as int),
            final(self).line == old(self).line,
            final(self).problem == old(self).problem,
            r matches Some(t) && t@ == STok::Number(
                old(self).bytes@.subrange(old(self).pos as int, final(self).pos as int),
            ),
    {
        let ghost s = self.bytes@;
        let ghost p_start = self.pos as int;
        let mut num: Vec<u8> = Vec::new();
        while self.pos < self.bytes.len() && 48u8 <= self.bytes[self.pos] && self.bytes[self.pos] <= 57u8
            invariant
                self.wf(),
                self.bytes@ == s,
                s == old(self).bytes@,
                p_start == old(self).pos,
                p_start <= self.pos,
                self.line == old(self).line,
                self.problem == old(self).problem,
                digits_end(s, self.pos as int) == digits_end(s, p_start),
                num@ == s.subrange(p_start, self.pos as int),
            decreases s.len() - self.pos,
        {
            let b = self.bytes[self.pos];
            num.push(b);
            self.pos = self.pos + 1;
            assert(num@ =~= s.subrange(p_start, self.pos as int));
        }
        Some(Tok::Number(num))
    }

    /// Skips to the next line break (which stays unread) or the end of input.
    pub fn ignore_line(&mut self)
        requires
            old(self).wf(),
        ensures
            final(self).wf(),
            final(self).bytes@ == old(self).bytes@,
            final(self).line == old(self).line,
            final(self).problem == old(self).problem,
            old(self).pos <= final(self).pos,
            forall|i: int|
                old(self).pos <= i < final(self).pos ==> old(self).bytes@[i] != 10u8
                    && old(self).bytes@[i] != 13u8,
            final(self).pos < final(self).bytes@.len() ==> (final(self).bytes@[final(self).pos as int]
                == 10u8 || final(self).bytes@[final(self).pos as int] == 13u8),
            skip_comment(old(self).bytes@, old(self).pos as int, old(self).line as int)
                == lex_from(old(self).bytes@, final(self).pos as int, old(self).line as int),
    {
        let ghost s = self.bytes@;
        let ghost p_start = self.pos as int;
        while self.pos < self.bytes.len() && self.bytes[self.pos] != 10u8 && self.bytes[self.pos] != 13u8
            invariant
                self.wf(),
                self.bytes@ == s,
                s == old(self).bytes@,
                p_start == old(self).pos,
                p_start <= self.pos,
                self.line == old(self).line,
                self.problem == old(self).problem,
                forall|i: int| p_start <= i < self.pos ==> s[i] != 10u8 && s[i] != 13u8,
                skip_comment(s, self.pos as int, self.line as int) == skip_comment(
                    s,
                    p_start,
                    self.line as int,
                ),
            decreases s.len() - self.pos,
        {
            self.pos = self.pos + 1;
        }
    }

    /// Reads the maximal identifier-shaped word at the cursor: a keyword or an
    /// identifier.
    pub fn lex_id(&mut self) -> (r: Option<Tok>)
        requires
            old(self).wf(),
        ensures
            final(self).wf(),
            final(self).bytes@ == old(self).bytes@,
            final(self).pos == id_end(old(self).bytes@, old(self).pos as int),
            final(self).line == old(self).line,
            final(self).problem == old(self).problem,
            r matches Some(t) && t@ == word_tok(
                old(self).bytes@.subrange(old(self).pos as int, final(self).pos as int),
            ),
    {
        let ghost s = self.bytes@;
        let ghost p_start = self.pos as int;
        let mut id: Vec<u8> = Vec::new();
        while self.pos < self.bytes.len() && (
        (65u8 <= self.bytes[self.pos] && self.bytes[self.pos] <= 90u8) || (97u8 <= self.bytes[self.pos]
            && self.bytes[self.pos] <= 122u8) || self.bytes[self.pos] == 95u8 || (48u8
            <= self.bytes[self.pos] && self.bytes[self.pos] <= 57u8))
            invariant
                self.wf(),
                self.bytes@ == s,
                s == old(self).bytes@,
                p_start == old(self).pos,
                p_start <= self.pos,
                self.line == old(self).line,
                self.problem == old(self).problem,
                id_end(s, self.pos as int) == id_end(s, p_start),
                id@ == s.subrange(p_start, self.pos as int),
            decreases s.len() - self.pos,
        {
            let b = self.bytes[self.pos];
            id.push(b);
            self.pos = self.pos + 1;
            assert(id@ =~= s.subrange(p_start, self.pos as int));
        }
        Some(word_token(id))
    }

    /// Reads the rest of the input, up to the end sentinel: the lexer then
    /// holds the error and line it settles in.
    pub fn finish(&mut self)
        requires
            old(self).wf(),
        ensures
            final(self).wf(),
            final(self).bytes@ == old(self).bytes@,
            final(self).state() == lex_end(old(self).bytes@, old(self).state()),
    {
        let ghost s = self.bytes@;
        let ghost target = lex_end(s, self.state());
        loop
            invariant
                self.wf(),
                self.bytes@ == s,
                s == old(self).bytes@,
                target == lex_end(old(self).bytes@, old(self).state()),
                lex_end(s, self.state()) == target,
            decreases s.len() - self.pos,
        {
            let ghost st = self.state();
            proof {
                lemma_lex_end_step(s, st);
                if st.problem is None {
                    lemma_lex_from(s, st.pos, st.line);
                }
            }
            let t = self.next();
            if kind(&t) == Kind::Empty {
                return;
            }
        }
    }

    /// Lexes one token: skips blanks, line breaks and comments, and records an
    /// error on a byte that starts no token.
    pub fn lex(&mut self) -> (r: Option<Tok>)
        requires
            old(self).wf(),
            old(self).problem is None,
        ensures
            final(self).wf(),
            final(self).bytes@ == old(self).bytes@,
            lex_post(
                old(self).bytes@,
                old(self).pos as int,
                old(self).line as int,
                old(self).problem,
                r,
                final(self).state(),
            ),
    {
        let ghost s = self.bytes@;
        let ghost p_start = self.pos as int;
        let ghost l0 = self.line as int;
        loop
            invariant
                self.wf(),
                s == old(self).bytes@,
                p_start == old(self).pos,
                l0 == old(self).line,
                self.bytes@ == s,
                self.problem == old(self).problem,
                lex_from(s, self.pos as int, self.line as int) == lex_from(s, p_start, l0),
            decreases s.len() - self.pos,
        {
            if self.pos >= self.bytes.len() {
                return None;
            }
            let b = self.bytes[self.pos];
            if b == 91u8 {
                return self.token(Tok::LeftBracket);
            } else if b == 93u8 {
                return self.token(Tok::RightBracket);
            } else if b == 40u8 {
                return self.token(Tok::LeftParen);
            } else if b == 41u8 {
                return self.token(Tok::RightParen);
            } else if b == 123u8 {
                return self.token(Tok::LeftCurly);
            } else if b == 125u8 {
                return self.token(Tok::RightCurly);
            } else if b == 44u8 {
                return self.token(Tok::Comma);
            } else if b == 59u8 {
                return self.token(Tok::Semicolon);
            } else if b == 43u8 {
                return self.token(Tok::Plus);
            } else if b == 45u8 {
                return self.token(Tok::Subtract);
            } else if b == 42u8 {
                return self.token(Tok::Multiply);
            } else if b == 47u8 {
                return self.token(Tok::Divide);
            } else if b == 37u8 {
                return self.token(Tok::Modulus);
            } else if b == 61u8 {
                return self.token2(Tok::Assign, 61u8, Tok::Equality);
            } else if b == 60u8 {
                return self.token2(Tok::Less, 61u8, Tok::LessEqual);
            } else if b == 62u8 {
                return self.token2(Tok::Greater, 61u8, Tok::GreaterEqual);
            } else if b == 32u8 || b == 9u8 {
                self.pos = self.pos + 1;
            } else if b == 13u8 {
                self.pos = self.pos + 1;
                if !(self.pos < self.bytes.len() && self.bytes[self.pos] == 10u8) {
                    self.line = self.line + 1;
                }
            } else if b == 10u8 {
                self.line = self.line + 1;
                self.pos = self.pos + 1;
            } else if b == 33u8 {
                self.pos = self.pos + 1;
                if self.pos < self.bytes.len() && self.bytes[self.pos] == 61u8 {
                    self.pos = self.pos + 1;
                    return Some(Tok::NotEqual);
                }
                self.problem = Some(LexError { byte: 33u8, line: self.line });
                return None;
            } else if (65u8 <= b && b <= 90u8) || (97u8 <= b && b <= 122u8) || b == 95u8 {
                return self.lex_id();
            } else if 48u8 <= b && b <= 57u8 {
                return self.lex_number();
            } else if b == 35u8 {
                self.pos = self.pos + 1;
                self.ignore_line();
            } else {
                self.problem = Some(LexError { byte: b, line: self.line });
                return None;
            }
        }
    }
}

/// A text of `n` bytes has at most `n` meaningful tokens.
pub proof fn lemma_tokens_len(s: Seq<u8>, st: LexState)
    requires
        0 <= st.pos <= s.len(),
    ensures
        tokens_from(s, st).len() <= s.len() - st.pos,
    decreases s.len() - st.pos,
{
    let (t, st2) = next_spec(s, st);
    if !(t == STok::Empty || st.pos < 0 || st2.pos <= st.pos || st2.pos > s.len()) {
        lemma_tokens_len(s, st2);
    }
}

/// The tokens of `ts` from index `n` on.
pub open spec fn rest(ts: Seq<STok>, n: int) -> Seq<STok> {
    if 0 <= n <= ts.len() {
        ts.subrange(n, ts.len() as int)
    } else {
        Seq::empty()
    }
}

pub proof fn lemma_rest_step(ts: Seq<STok>, n: int)
    requires
        0 <= n,
    ensures
        tok_at_front(rest(ts, n)) == crate::token::tok_at(ts, n),
        rest(ts, n + 1) == if rest(ts, n).len() == 0 {
            Seq::<STok>::empty()
        } else {
            rest(ts, n).drop_first()
        },
{
    if n < ts.len() {
        assert(rest(ts, n).drop_first() =~= rest(ts, n + 1));
    }
}

} // verus!
