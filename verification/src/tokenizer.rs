//! The lexical scanner: turns normalized text into a flat token sequence.
//!
//! The scanner is specified by a character-level state machine
//! ([`lex_char`], [`lex_from`]): [`tokenize`] returns exactly what the
//! machine computes on the normalized input, or the machine's error.

use vstd::prelude::*;
use vstd::string::StrSliceExecFns;

verus! {

/// A lexical token of the markup dialect.
#[derive(Debug, PartialEq)]
pub enum Token {
    /// `<`
    Left,
    /// `>`
    Right,
    /// `</`
    ClosingLeft,
    /// `/>`
    ClosingRight,
    /// `<?`
    PILeft,
    /// `?>`
    PIRight,
    /// `<!`
    MDLeft,
    /// `key="value"`: an attribute pair, the value taken verbatim.
    Value(String, String),
    /// A run of non-structural characters.
    Text(String),
    /// A `<!-- ... -->` comment; its body is discarded.
    Comment,
}

/// The mathematical value of a [`Token`].
pub enum TokenModel {
    Left,
    Right,
    ClosingLeft,
    ClosingRight,
    PILeft,
    PIRight,
    MDLeft,
    Value(Seq<char>, Seq<char>),
    Text(Seq<char>),
    Comment,
}

impl View for Token {
    type V = TokenModel;

    open spec fn view(&self) -> TokenModel {
        match self {
            Token::Left => TokenModel::Left,
            Token::Right => TokenModel::Right,
            Token::ClosingLeft => TokenModel::ClosingLeft,
            Token::ClosingRight => TokenModel::ClosingRight,
            Token::PILeft => TokenModel::PILeft,
            Token::PIRight => TokenModel::PIRight,
            Token::MDLeft => TokenModel::MDLeft,
            Token::Value(n, v) => TokenModel::Value(n@, v@),
            Token::Text(t) => TokenModel::Text(t@),
            Token::Comment => TokenModel::Comment,
        }
    }
}

/// The model of a token sequence.
pub open spec fn tokens_model(ts: Seq<Token>) -> Seq<TokenModel> {
    Seq::new(ts.len(), |i: int| ts[i]@)
}

/// An illegal character pair found while scanning. Where a character is
/// illegal on its own (a bare `!` or `-`), both fields hold that character.
#[derive(Clone, Copy, Debug, PartialEq, Eq, Structural)]
pub struct LexError {
    pub first: char,
    pub second: char,
}

/// The text of a scanning failure report: the offending pair, spelled out.
pub open spec fn lex_error_message(e: LexError) -> Seq<char> {
    "Invalid Token: "@ + seq![e.first, e.second]
}

impl LexError {
    /// The failure, as a line of text naming the offending pair.
    pub fn message(&self) -> (result: String)
        ensures
            result@ == lex_error_message(*self),
    {
        let mut m: String = "Invalid Token: ".to_owned();
        push_char(&mut m, self.first);
        push_char(&mut m, self.second);
        proof {
            assert(m@ =~= lex_error_message(*self));
        }
        m
    }
}

/// The unresolved structural prefix the scanner has consumed: one of
/// nothing, `<`, `/`, `?`, `<!`, `<!-`.
#[derive(Clone, Copy, Debug, PartialEq, Eq, Structural)]
pub enum Pending {
    Empty,
    Lt,
    Slash,
    Question,
    LtBang,
    LtBangDash,
}

/// Where the scanner stands inside a comment body: outside any comment,
/// inside, or inside having just read one or at least two dashes.
#[derive(Clone, Copy, Debug, PartialEq, Eq, Structural)]
pub enum CommentMode {
    Outside,
    Inside,
    InsideDash,
    InsideDashDash,
}

/// The scanner state carried across the character scan.
#[verifier::ext_equal]
pub struct LexState {
    /// Accumulator for an in-progress text run.
    pub acc: Seq<char>,
    /// The attribute name captured before `=`.
    pub value_name: Seq<char>,
    /// The unresolved structural prefix.
    pub pending: Pending,
    /// Whether the scanner is inside a quoted attribute value.
    pub reading_value: bool,
    /// Whether the scanner is inside a comment body.
    pub comment: CommentMode,
    /// Whether the preceding character was a space.
    pub last_space: bool,
}

/// The state the scanner starts in.
pub open spec fn initial_lex_state() -> LexState {
    LexState {
        acc: Seq::<char>::empty(),
        value_name: Seq::<char>::empty(),
        pending: Pending::Empty,
        reading_value: false,
        comment: CommentMode::Outside,
        last_space: false,
    }
}

/// The first character of a pending prefix, reported in errors.
pub open spec fn pending_first(p: Pending) -> char {
    match p {
        Pending::Empty => ' ',
        Pending::Lt => '<',
        Pending::Slash => '/',
        Pending::Question => '?',
        Pending::LtBang => '<',
        Pending::LtBangDash => '<',
    }
}

/// What flushing the text accumulator emits: one `Text` token if the
/// accumulator is non-empty, nothing otherwise.
pub open spec fn flush_emits(acc: Seq<char>) -> Seq<TokenModel> {
    if acc.len() > 0 {
        seq![TokenModel::Text(acc)]
    } else {
        Seq::<TokenModel>::empty()
    }
}

/// Comment progress after reading a dash.
pub open spec fn comment_dash(m: CommentMode) -> CommentMode {
    match m {
        CommentMode::Outside => CommentMode::Outside,
        CommentMode::Inside => CommentMode::InsideDash,
        CommentMode::InsideDash => CommentMode::InsideDashDash,
        CommentMode::InsideDashDash => CommentMode::InsideDashDash,
    }
}

/// One step of the scanner: the state after consuming `c` and the tokens
/// emitted by that step, or the illegal pair that aborts the scan.
pub open spec fn lex_char(st: LexState, c: char) -> Result<(LexState, Seq<TokenModel>), LexError> {
    if st.reading_value {
        if c == '"' || c == '\'' {
            Ok(
                (
                    LexState {
                        acc: Seq::<char>::empty(),
                        value_name: Seq::<char>::empty(),
                        reading_value: false,
                        last_space: true,
                        ..st
                    },
                    seq![TokenModel::Value(st.value_name, st.acc)],
                ),
            )
        } else {
            Ok((LexState { acc: st.acc.push(c), ..st }, Seq::<TokenModel>::empty()))
        }
    } else if st.comment != CommentMode::Outside {
        if c == '-' {
            Ok((LexState { comment: comment_dash(st.comment), ..st }, Seq::<TokenModel>::empty()))
        } else if c == '>' && st.comment == CommentMode::InsideDashDash {
            Ok((LexState { comment: CommentMode::Outside, ..st }, seq![TokenModel::Comment]))
        } else {
            Ok((LexState { comment: CommentMode::Inside, ..st }, Seq::<TokenModel>::empty()))
        }
    } else if c == '<' {
        if st.pending == Pending::Empty {
            Ok(
                (
                    LexState {
                        acc: Seq::<char>::empty(),
                        pending: Pending::Lt,
                        last_space: false,
                        ..st
                    },
                    flush_emits(st.acc),
                ),
            )
        } else {
            Err(LexError { first: pending_first(st.pending), second: c })
        }
    } else if c == '>' {
        if st.pending == Pending::Empty {
            Ok(
                (
                    LexState { acc: Seq::<char>::empty(), last_space: false, ..st },
                    flush_emits(st.acc) + seq![TokenModel::Right],
                ),
            )
        } else if st.pending == Pending::Slash {
            Ok(
                (
                    LexState {
                        acc: Seq::<char>::empty(),
                        pending: Pending::Empty,
                        last_space: false,
                        ..st
                    },
                    flush_emits(st.acc) + seq![TokenModel::ClosingRight],
                ),
            )
        } else if st.pending == Pending::Question {
            Ok(
                (
                    LexState {
                        acc: Seq::<char>::empty(),
                        pending: Pending::Empty,
                        last_space: false,
                        ..st
                    },
                    flush_emits(st.acc) + seq![TokenModel::PIRight],
                ),
            )
        } else {
            Err(LexError { first: pending_first(st.pending), second: c })
        }
    } else if c == '/' {
        if st.pending == Pending::Empty {
            Ok(
                (
                    LexState {
                        acc: Seq::<char>::empty(),
                        pending: Pending::Slash,
                        last_space: false,
                        ..st
                    },
                    flush_emits(st.acc),
                ),
            )
        } else if st.pending == Pending::Lt {
            Ok(
                (
                    LexState {
                        acc: Seq::<char>::empty(),
                        pending: Pending::Empty,
                        last_space: false,
                        ..st
                    },
                    flush_emits(st.acc) + seq![TokenModel::ClosingLeft],
                ),
            )
        } else {
            Err(LexError { first: pending_first(st.pending), second: c })
        }
    } else if c == '"' || c == '\'' {
        if st.pending == Pending::Empty {
            Ok(
                (
                    LexState {
                        acc: Seq::<char>::empty(),
                        reading_value: true,
                        last_space: false,
                        ..st
                    },
                    flush_emits(st.acc),
                ),
            )
        } else {
            Err(LexError { first: pending_first(st.pending), second: c })
        }
    } else if c == '=' {
        if st.pending == Pending::Empty {
            if st.acc.len() > 0 {
                Ok(
                    (
                        LexState {
                            acc: Seq::<char>::empty(),
                            value_name: st.acc,
                            last_space: false,
                            ..st
                        },
                        Seq::<TokenModel>::empty(),
                    ),
                )
            } else {
                Ok((LexState { last_space: false, ..st }, Seq::<TokenModel>::empty()))
            }
        } else {
            Err(LexError { first: pending_first(st.pending), second: c })
        }
    } else if c == ' ' {
        Ok((LexState { last_space: true, ..st }, Seq::<TokenModel>::empty()))
    } else if c == '?' {
        if st.pending == Pending::Lt {
            Ok(
                (
                    LexState {
                        acc: Seq::<char>::empty(),
                        pending: Pending::Empty,
                        last_space: false,
                        ..st
                    },
                    seq![TokenModel::PILeft],
                ),
            )
        } else if st.pending == Pending::Empty {
            Ok(
                (
                    LexState { acc: Seq::<char>::empty(), pending: Pending::Question, ..st },
                    Seq::<TokenModel>::empty(),
                ),
            )
        } else {
            Err(LexError { first: pending_first(st.pending), second: c })
        }
    } else if c == '!' {
        if st.pending == Pending::Lt {
            Ok(
                (
                    LexState {
                        acc: Seq::<char>::empty(),
                        pending: Pending::LtBang,
                        last_space: false,
                        ..st
                    },
                    Seq::<TokenModel>::empty(),
                ),
            )
        } else if st.pending == Pending::Empty {
            Err(LexError { first: c, second: c })
        } else {
            Err(LexError { first: pending_first(st.pending), second: c })
        }
    } else if c == '-' {
        if st.pending == Pending::LtBang {
            Ok(
                (LexState { pending: Pending::LtBangDash, ..st }, Seq::<TokenModel>::empty()),
            )
        } else if st.pending == Pending::LtBangDash {
            Ok(
                (
                    LexState { pending: Pending::Empty, comment: CommentMode::Inside, ..st },
                    Seq::<TokenModel>::empty(),
                ),
            )
        } else if st.pending == Pending::Empty {
            Err(LexError { first: c, second: c })
        } else {
            Err(LexError { first: pending_first(st.pending), second: c })
        }
    } else {
        let opened: Seq<TokenModel> = if st.pending == Pending::LtBang {
            seq![TokenModel::MDLeft]
        } else if st.pending == Pending::Lt || st.pending == Pending::LtBangDash {
            seq![TokenModel::Left]
        } else {
            Seq::<TokenModel>::empty()
        };
        let pending2 = if st.pending == Pending::LtBang || st.pending == Pending::Lt
            || st.pending == Pending::LtBangDash {
            Pending::Empty
        } else {
            st.pending
        };
        if st.last_space && st.acc.len() > 0 {
            Ok(
                (
                    LexState { acc: seq![c], pending: pending2, last_space: false, ..st },
                    opened + seq![TokenModel::Text(st.acc)],
                ),
            )
        } else {
            Ok(
                (
                    LexState { acc: st.acc.push(c), pending: pending2, last_space: false, ..st },
                    opened,
                ),
            )
        }
    }
}

/// What the scanner emits when the input ends: the pending text run, unless
/// the scan ends inside a quoted value or a comment, which silently close.
pub open spec fn lex_finish(st: LexState) -> Seq<TokenModel> {
    if !st.reading_value && st.comment == CommentMode::Outside {
        flush_emits(st.acc)
    } else {
        Seq::<TokenModel>::empty()
    }
}

/// The tokens the scanner emits from state `st` on the rest of `s` starting
/// at `i`, or the error that aborts the scan.
pub open spec fn lex_from(st: LexState, s: Seq<char>, i: int) -> Result<Seq<TokenModel>, LexError>
    decreases s.len() - i,
{
    if i < 0 || i >= s.len() {
        Ok(lex_finish(st))
    } else {
        match lex_char(st, s[i]) {
            Err(e) => Err(e),
            Ok((st2, emitted)) => match lex_from(st2, s, i + 1) {
                Err(e) => Err(e),
                Ok(rest) => Ok(emitted + rest),
            },
        }
    }
}

/// The normalized form of `s` from position `i` on: `\n` and `\t` removed,
/// runs of spaces collapsed to one (`last_space` says whether a space was
/// just kept).
pub open spec fn strip_from(s: Seq<char>, i: int, last_space: bool) -> Seq<char>
    decreases s.len() - i,
{
    if i < 0 || i >= s.len() {
        Seq::<char>::empty()
    } else if s[i] == '\n' || s[i] == '\t' {
        strip_from(s, i + 1, last_space)
    } else if s[i] == ' ' {
        if last_space {
            strip_from(s, i + 1, true)
        } else {
            seq![' '] + strip_from(s, i + 1, true)
        }
    } else {
        seq![s[i]] + strip_from(s, i + 1, false)
    }
}

/// The normalized form of the whole of `s`.
pub open spec fn spec_strip(s: Seq<char>) -> Seq<char> {
    strip_from(s, 0, false)
}

/// The token sequence of `s`: what the scanner emits on the normalized
/// input, or the illegal pair that aborts it.
pub open spec fn spec_tokenize(s: Seq<char>) -> Result<Seq<TokenModel>, LexError> {
    lex_from(initial_lex_state(), spec_strip(s), 0)
}

/// Relies on `String::push`: appends the character to the end of the string.
#[verifier::external_body]
fn push_char(s: &mut String, c: char)
    ensures
        final(s)@ == old(s)@.push(c),
{
    s.push(c);
}

/// The characters of `s`, as a vector.
fn str_chars(s: &str) -> (result: Vec<char>)
    ensures
        result@ == s@,
{
    let n = s.unicode_len();
    let mut result: Vec<char> = Vec::new();
    let mut i: usize = 0;
    while i < n
        invariant
            n == s@.len(),
            i <= n,
            result@.len() == i,
            forall|j: int| 0 <= j < i ==> result@[j] == s@[j],
        decreases n - i,
    {
        result.push(s.get_char(i));
        i = i + 1;
    }
    proof {
        assert(result@ =~= s@);
    }
    result
}

/// A string holding exactly the characters of `v`.
fn chars_to_string(v: &Vec<char>) -> (result: String)
    ensures
        result@ == v@,
{
    let mut s = String::new();
    let mut i: usize = 0;
    while i < v.len()
        invariant
            i <= v@.len(),
            s@.len() == i,
            forall|j: int| 0 <= j < i ==> s@[j] == v@[j],
        decreases v@.len() - i,
    {
        push_char(&mut s, v[i]);
        i = i + 1;
    }
    proof {
        assert(s@ =~= v@);
    }
    s
}

/// The normalized characters of `cs`.
fn strip_vec(cs: &Vec<char>) -> (result: Vec<char>)
    ensures
        result@ == spec_strip(cs@),
{
    let mut result: Vec<char> = Vec::new();
    let mut last_space = false;
    let mut i: usize = 0;
    while i < cs.len()
        invariant
            i <= cs@.len(),
            spec_strip(cs@) == result@ + strip_from(cs@, i as int, last_space),
        decreases cs@.len() - i,
    {
        let c = cs[i];
        let ghost pre = result@;
        let ghost ls = last_space;
        if c == '\n' || c == '\t' {
            // dropped
        } else if c == ' ' {
            if !last_space {
                last_space = true;
                result.push(' ');
                proof {
                    assert(strip_from(cs@, i as int, ls) == seq![' '] + strip_from(
                        cs@,
                        i as int + 1,
                        true,
                    ));
                    assert(pre + (seq![' '] + strip_from(cs@, i as int + 1, true)) =~= result@
                        + strip_from(cs@, i as int + 1, true));
                }
            }
        } else {
            last_space = false;
            result.push(c);
            proof {
                assert(strip_from(cs@, i as int, ls) == seq![c] + strip_from(
                    cs@,
                    i as int + 1,
                    false,
                ));
                assert(pre + (seq![c] + strip_from(cs@, i as int + 1, false)) =~= result@
                    + strip_from(cs@, i as int + 1, false));
            }
        }
        i = i + 1;
    }
    proof {
        assert(result@ =~= spec_strip(cs@));
    }
    result
}

/// Inside a comment body the scanner never fails and never emits a token:
/// every character is discarded, until the closing `-->` emits the single
/// `Comment` marker and leaves comment mode.
pub proof fn lemma_comment_body_emits_nothing(st: LexState, c: char)
    requires
        !st.reading_value,
        st.comment != CommentMode::Outside,
    ensures
        lex_char(st, c) matches Ok((st2, emitted)) && {
            ||| emitted == Seq::<TokenModel>::empty()
            ||| (emitted == seq![TokenModel::Comment] && st2.comment == CommentMode::Outside)
        },
{
}

/// The scanner state assembled from its pieces.
pub open spec fn st_of(
    acc: Seq<char>,
    value_name: Seq<char>,
    pending: Pending,
    reading_value: bool,
    comment: CommentMode,
    last_space: bool,
) -> LexState {
    LexState {
        acc: acc,
        value_name: value_name,
        pending: pending,
        reading_value: reading_value,
        comment: comment,
        last_space: last_space,
    }
}

/// The first character of a pending prefix, for error reports.
fn pending_first_char(p: Pending) -> (result: char)
    ensures
        result == pending_first(p),
{
    match p {
        Pending::Empty => ' ',
        Pending::Lt => '<',
        Pending::Slash => '/',
        Pending::Question => '?',
        Pending::LtBang => '<',
        Pending::LtBangDash => '<',
    }
}

/// Scans the text: normalizes it, then runs the character-level machine
/// over it. Returns the machine's token sequence, or the illegal character
/// pair on which it stops.
pub fn tokenize(s: &str) -> (result: Result<Vec<Token>, LexError>)
    ensures
        match result {
            Ok(tokens) => spec_tokenize(s@) == Ok::<Seq<TokenModel>, LexError>(
                tokens_model(tokens@),
            ),
            Err(e) => spec_tokenize(s@) == Err::<Seq<TokenModel>, LexError>(e),
        },
{
    let cs = str_chars(s);
    let stripped = strip_vec(&cs);

    let mut tokens: Vec<Token> = Vec::new();
    let mut acc: Vec<char> = Vec::new();
    let mut value_name: Vec<char> = Vec::new();
    let mut pending: Pending = Pending::Empty;
    let mut reading_value: bool = false;
    let mut comment: CommentMode = CommentMode::Outside;
    let mut last_space: bool = false;

    proof {
        assert(st_of(acc@, value_name@, pending, reading_value, comment, last_space)
            =~= initial_lex_state());
        assert(tokens_model(tokens@) =~= Seq::<TokenModel>::empty());
    }

    let mut i: usize = 0;
    while i < stripped.len()
        invariant
            i <= stripped@.len(),
            stripped@ == spec_strip(s@),
            match lex_from(
                st_of(acc@, value_name@, pending, reading_value, comment, last_space),
                stripped@,
                i as int,
            ) {
                Ok(rest) => spec_tokenize(s@) == Ok::<Seq<TokenModel>, LexError>(
                    tokens_model(tokens@) + rest,
                ),
                Err(e) => spec_tokenize(s@) == Err::<Seq<TokenModel>, LexError>(e),
            },
        decreases stripped@.len() - i,
    {
        let c = stripped[i];
        let ghost st0 = st_of(acc@, value_name@, pending, reading_value, comment, last_space);
        let ghost toks0 = tokens_model(tokens@);
        let ghost mut emitted: Seq<TokenModel> = Seq::<TokenModel>::empty();

        if reading_value {
            if c == '"' || c == '\'' {
                let name = chars_to_string(&value_name);
                let val = chars_to_string(&acc);
                tokens.push(Token::Value(name, val));
                value_name.clear();
                acc.clear();
                reading_value = false;
                last_space = true;
                proof {
                    emitted = seq![TokenModel::Value(st0.value_name, st0.acc)];
                }
            } else {
                acc.push(c);
            }
        } else if comment != CommentMode::Outside {
            if c == '-' {
                comment = match comment {
                    CommentMode::Outside => CommentMode::Outside,
                    CommentMode::Inside => CommentMode::InsideDash,
                    CommentMode::InsideDash => CommentMode::InsideDashDash,
                    CommentMode::InsideDashDash => CommentMode::InsideDashDash,
                };
            } else if c == '>' && comment == CommentMode::InsideDashDash {
                comment = CommentMode::Outside;
                tokens.push(Token::Comment);
                proof {
                    emitted = seq![TokenModel::Comment];
                }
            } else {
                comment = CommentMode::Inside;
            }
        } else if c == '<' {
            last_space = false;
            proof {
                emitted = flush_emits(acc@);
            }
            if acc.len() > 0 {
                let t = chars_to_string(&acc);
                tokens.push(Token::Text(t));
                acc.clear();
            }
            if pending == Pending::Empty {
                pending = Pending::Lt;
            } else {
                let pf = pending_first_char(pending);
                proof {
                    assert(lex_from(st0, stripped@, i as int) == Err::<
                        Seq<TokenModel>,
                        LexError,
                    >(LexError { first: pending_first(st0.pending), second: c }));
                }
                return invalid_token(&pf, &c);
            }
        } else if c == '>' {
            last_space = false;
            let ghost flushed = flush_emits(acc@);
            if acc.len() > 0 {
                let t = chars_to_string(&acc);
                tokens.push(Token::Text(t));
                acc.clear();
            }
            if pending == Pending::Empty {
                tokens.push(Token::Right);
                proof {
                    emitted = flushed + seq![TokenModel::Right];
                }
            } else if pending == Pending::Slash {
                tokens.push(Token::ClosingRight);
                pending = Pending::Empty;
                proof {
                    emitted = flushed + seq![TokenModel::ClosingRight];
                }
            } else if pending == Pending::Question {
                tokens.push(Token::PIRight);
                pending = Pending::Empty;
                proof {
                    emitted = flushed + seq![TokenModel::PIRight];
                }
            } else {
                let pf = pending_first_char(pending);
                proof {
                    assert(lex_from(st0, stripped@, i as int) == Err::<
                        Seq<TokenModel>,
                        LexError,
                    >(LexError { first: pending_first(st0.pending), second: c }));
                }
                return invalid_token(&pf, &c);
            }
        } else if c == '/' {
            last_space = false;
            let ghost flushed = flush_emits(acc@);
            if acc.len() > 0 {
                let t = chars_to_string(&acc);
                tokens.push(Token::Text(t));
                acc.clear();
            }
            if pending == Pending::Empty {
                pending = Pending::Slash;
                proof {
                    emitted = flushed;
                }
            } else if pending == Pending::Lt {
                tokens.push(Token::ClosingLeft);
                pending = Pending::Empty;
                proof {
                    emitted = flushed + seq![TokenModel::ClosingLeft];
                }
            } else {
                let pf = pending_first_char(pending);
                proof {
                    assert(lex_from(st0, stripped@, i as int) == Err::<
                        Seq<TokenModel>,
                        LexError,
                    >(LexError { first: pending_first(st0.pending), second: c }));
                }
                return invalid_token(&pf, &c);
            }
        } else if c == '"' || c == '\'' {
            last_space = false;
            proof {
                emitted = flush_emits(acc@);
            }
            if acc.len() > 0 {
                let t = chars_to_string(&acc);
                tokens.push(Token::Text(t));
                acc.clear();
            }
            if pending == Pending::Empty {
                reading_value = true;
            } else {
                let pf = pending_first_char(pending);
                proof {
                    assert(lex_from(st0, stripped@, i as int) == Err::<
                        Seq<TokenModel>,
                        LexError,
                    >(LexError { first: pending_first(st0.pending), second: c }));
                }
                return invalid_token(&pf, &c);
            }
        } else if c == '=' {
            last_space = false;
            if acc.len() > 0 {
                value_name = acc;
                acc = Vec::new();
            }
            if pending == Pending::Empty {
                // no token emitted
            } else {
                let pf = pending_first_char(pending);
                proof {
                    assert(lex_from(st0, stripped@, i as int) == Err::<
                        Seq<TokenModel>,
                        LexError,
                    >(LexError { first: pending_first(st0.pending), second: c }));
                }
                return invalid_token(&pf, &c);
            }
        } else if c == ' ' {
            last_space = true;
        } else if c == '?' {
            if pending == Pending::Lt {
                tokens.push(Token::PILeft);
                pending = Pending::Empty;
                acc.clear();
                last_space = false;
                proof {
                    emitted = seq![TokenModel::PILeft];
                }
            } else if pending == Pending::Empty {
                pending = Pending::Question;
                acc.clear();
            } else {
                let pf = pending_first_char(pending);
                proof {
                    assert(lex_from(st0, stripped@, i as int) == Err::<
                        Seq<TokenModel>,
                        LexError,
                    >(LexError { first: pending_first(st0.pending), second: c }));
                }
                return invalid_token(&pf, &c);
            }
        } else if c == '!' {
            if pending == Pending::Lt {
                pending = Pending::LtBang;
                acc.clear();
                last_space = false;
            } else if pending == Pending::Empty {
                proof {
                    assert(lex_from(st0, stripped@, i as int) == Err::<
                        Seq<TokenModel>,
                        LexError,
                    >(LexError { first: c, second: c }));
                }
                return invalid_token(&c, &c);
            } else {
                let pf = pending_first_char(pending);
                proof {
                    assert(lex_from(st0, stripped@, i as int) == Err::<
                        Seq<TokenModel>,
                        LexError,
                    >(LexError { first: pending_first(st0.pending), second: c }));
                }
                return invalid_token(&pf, &c);
            }
        } else if c == '-' {
            if pending == Pending::LtBang {
                pending = Pending::LtBangDash;
            } else if pending == Pending::LtBangDash {
                pending = Pending::Empty;
                comment = CommentMode::Inside;
            } else if pending == Pending::Empty {
                proof {
                    assert(lex_from(st0, stripped@, i as int) == Err::<
                        Seq<TokenModel>,
                        LexError,
                    >(LexError { first: c, second: c }));
                }
                return invalid_token(&c, &c);
            } else {
                let pf = pending_first_char(pending);
                proof {
                    assert(lex_from(st0, stripped@, i as int) == Err::<
                        Seq<TokenModel>,
                        LexError,
                    >(LexError { first: pending_first(st0.pending), second: c }));
                }
                return invalid_token(&pf, &c);
            }
        } else {
            let ghost opened: Seq<TokenModel> = Seq::<TokenModel>::empty();
            if pending == Pending::LtBang {
                tokens.push(Token::MDLeft);
                pending = Pending::Empty;
                proof {
                    opened = seq![TokenModel::MDLeft];
                }
            } else if pending == Pending::Lt || pending == Pending::LtBangDash {
                tokens.push(Token::Left);
                pending = Pending::Empty;
                proof {
                    opened = seq![TokenModel::Left];
                }
            }
            if last_space && acc.len() > 0 {
                let t = chars_to_string(&acc);
                tokens.push(Token::Text(t));
                acc.clear();
                acc.push(c);
                last_space = false;
                proof {
                    emitted = opened + seq![TokenModel::Text(st0.acc)];
                }
            } else {
                acc.push(c);
                last_space = false;
                proof {
                    emitted = opened;
                }
            }
        }

        proof {
            let stn = st_of(acc@, value_name@, pending, reading_value, comment, last_space);
            assert(lex_char(st0, c) is Ok);
            let (st_spec, em_spec) = lex_char(st0, c)->Ok_0;
            assert(em_spec =~= emitted);
            assert(stn =~= st_spec);
            assert(tokens_model(tokens@) =~= toks0 + emitted);
            assert(lex_from(st0, stripped@, i as int) == (match lex_from(
                st_spec,
                stripped@,
                i as int + 1,
            ) {
                Err(e) => Err::<Seq<TokenModel>, LexError>(e),
                Ok(rest) => Ok::<Seq<TokenModel>, LexError>(em_spec + rest),
            }));
            match lex_from(stn, stripped@, i as int + 1) {
                Ok(rest) => {
                    assert(toks0 + (emitted + rest) =~= tokens_model(tokens@) + rest);
                },
                Err(e) => {},
            }
        }
        i = i + 1;
    }

    let ghost stend = st_of(acc@, value_name@, pending, reading_value, comment, last_space);
    let ghost toks0 = tokens_model(tokens@);
    if !reading_value && comment == CommentMode::Outside && acc.len() > 0 {
        let t = chars_to_string(&acc);
        tokens.push(Token::Text(t));
    }
    proof {
        assert(lex_from(stend, stripped@, stripped@.len() as int) == Ok::<
            Seq<TokenModel>,
            LexError,
        >(lex_finish(stend)));
        assert(tokens_model(tokens@) =~= toks0 + lex_finish(stend));
    }
    Ok(tokens)
}

/// The error result for an illegal character pair, as the scanner returns it.
pub fn invalid_token(last: &char, s: &char) -> (result: Result<Vec<Token>, LexError>)
    ensures
        result == Err::<Vec<Token>, LexError>(LexError { first: *last, second: *s }),
{
    Err(LexError { first: *last, second: *s })
}

/// Normalizes text: removes `\n` and `\t` and collapses every maximal run
/// of spaces to a single space. No other characters are altered.
pub fn strip(s: &str) -> (result: String)
    ensures
        result@ == spec_strip(s@),
{
    let cs = str_chars(s);
    let stripped = strip_vec(&cs);
    chars_to_string(&stripped)
}

} // verus!
