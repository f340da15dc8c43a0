//! The tree builder: consumes the token sequence and drives a state machine
//! with two stacks (pending elements, pending states) to construct a single
//! rooted tree of elements.
//!
//! The builder is specified by a token-level state machine ([`parse_token`],
//! [`build_from`]): [`parse`] returns exactly what the machine computes.

use vstd::prelude::*;

use crate::nodes::{Attribute, AttributeModel, Element, ElementModel};
use crate::tokenizer::{tokens_model, Token, TokenModel};

verus! {

/// Where the tree builder stands between tokens.
#[derive(Clone, Copy, Debug, PartialEq, Eq, Structural)]
pub enum ParseState {
    /// Before the root element opens.
    InDocument,
    /// Inside an element's body.
    InElement,
    /// Inside a start tag, between `<` and `>` or `/>`.
    InStartTag,
    /// Inside an end tag, between `</` and `>`.
    InEndTag,
    /// Inside a processing instruction.
    InPI,
    /// Inside a markup declaration.
    InMD,
}

/// A parse failure: each variant is a distinct, inspectable cause.
#[derive(Debug, PartialEq)]
pub enum ParseError {
    /// A token that is not valid in the current state.
    TokenNotAllowed { token: Token, state: ParseState },
    /// An end tag whose name differs from the open element's name.
    TagMismatch { expected: String, found: String },
    /// A close construct with no matching open, or input that ends before
    /// the root element closes.
    UnbalancedStructure,
}

/// The mathematical value of a [`ParseError`].
pub enum ParseErrorModel {
    TokenNotAllowed { token: TokenModel, state: ParseState },
    TagMismatch { expected: Seq<char>, found: Seq<char> },
    UnbalancedStructure,
}

impl View for ParseError {
    type V = ParseErrorModel;

    open spec fn view(&self) -> ParseErrorModel {
        match self {
            ParseError::TokenNotAllowed { token, state } => ParseErrorModel::TokenNotAllowed {
                token: token@,
                state: *state,
            },
            ParseError::TagMismatch { expected, found } => ParseErrorModel::TagMismatch {
                expected: expected@,
                found: found@,
            },
            ParseError::UnbalancedStructure => ParseErrorModel::UnbalancedStructure,
        }
    }
}

/// The text of a parse failure report, by cause.
pub open spec fn parse_error_message(e: ParseErrorModel) -> Seq<char> {
    match e {
        ParseErrorModel::TokenNotAllowed { token, state } => "Token not allowed in this state"@,
        ParseErrorModel::TagMismatch { expected, found } => "Expected closing tag: "@ + expected
            + ", found closing tag: "@ + found,
        ParseErrorModel::UnbalancedStructure => "Unexpected closing tag"@,
    }
}

impl ParseError {
    /// The failure, as a line of text.
    pub fn message(&self) -> (result: String)
        ensures
            result@ == parse_error_message(self@),
    {
        match self {
            ParseError::TokenNotAllowed { token, state } => {
                "Token not allowed in this state".to_owned()
            },
            ParseError::TagMismatch { expected, found } => {
                let mut m: String = "Expected closing tag: ".to_owned();
                m.append(expected.as_str());
                m.append(", found closing tag: ");
                m.append(found.as_str());
                proof {
                    assert(m@ =~= parse_error_message(self@));
                }
                m
            },
            ParseError::UnbalancedStructure => "Unexpected closing tag".to_owned(),
        }
    }
}

/// The builder state carried across the token scan: the current state, the
/// element under construction, and the two stacks.
#[verifier::ext_equal]
pub struct BuilderState {
    pub state: ParseState,
    pub current: ElementModel,
    pub elements: Seq<ElementModel>,
    pub states: Seq<ParseState>,
}

/// What one builder step does: continue, finish with the root, or fail.
pub enum BuildStep {
    Next(BuilderState),
    Done(ElementModel),
    Fail(ParseErrorModel),
}

/// A fresh, anonymous element model.
pub open spec fn empty_element_model() -> ElementModel {
    ElementModel {
        name: Seq::<char>::empty(),
        attributes: Seq::<AttributeModel>::empty(),
        children: Seq::<ElementModel>::empty(),
        empty: false,
    }
}

/// The state the builder starts in.
pub open spec fn initial_builder_state() -> BuilderState {
    BuilderState {
        state: ParseState::InDocument,
        current: empty_element_model(),
        elements: Seq::<ElementModel>::empty(),
        states: Seq::<ParseState>::empty(),
    }
}

/// Completes the element `cur`: appends it to the top of the element stack
/// and resumes the popped state; with an empty element stack `cur` is the
/// document root and the build is done; a missing state frame fails.
pub open spec fn close_element(st: BuilderState, cur: ElementModel) -> BuildStep {
    if st.states.len() == 0 {
        BuildStep::Fail(ParseErrorModel::UnbalancedStructure)
    } else if st.elements.len() == 0 {
        BuildStep::Done(cur)
    } else {
        BuildStep::Next(
            BuilderState {
                state: st.states.last(),
                current: ElementModel {
                    children: st.elements.last().children.push(cur),
                    ..st.elements.last()
                },
                elements: st.elements.drop_last(),
                states: st.states.drop_last(),
            },
        )
    }
}

/// Pops a state frame, for the close of a processing instruction or a
/// markup declaration.
pub open spec fn pop_state(st: BuilderState) -> BuildStep {
    if st.states.len() == 0 {
        BuildStep::Fail(ParseErrorModel::UnbalancedStructure)
    } else {
        BuildStep::Next(BuilderState { state: st.states.last(), states: st.states.drop_last(), ..st })
    }
}

/// One step of the tree builder: the transition table of states and tokens.
pub open spec fn parse_token(st: BuilderState, t: TokenModel) -> BuildStep {
    match t {
        TokenModel::Left => {
            if st.state == ParseState::InDocument {
                BuildStep::Next(
                    BuilderState {
                        state: ParseState::InStartTag,
                        current: empty_element_model(),
                        elements: st.elements,
                        states: st.states.push(st.state),
                    },
                )
            } else if st.state == ParseState::InElement {
                BuildStep::Next(
                    BuilderState {
                        state: ParseState::InStartTag,
                        current: empty_element_model(),
                        elements: st.elements.push(st.current),
                        states: st.states.push(st.state),
                    },
                )
            } else {
                BuildStep::Fail(ParseErrorModel::TokenNotAllowed { token: t, state: st.state })
            }
        },
        TokenModel::ClosingLeft => {
            if st.state == ParseState::InElement {
                BuildStep::Next(BuilderState { state: ParseState::InEndTag, ..st })
            } else {
                BuildStep::Fail(ParseErrorModel::TokenNotAllowed { token: t, state: st.state })
            }
        },
        TokenModel::Right => {
            if st.state == ParseState::InStartTag {
                BuildStep::Next(BuilderState { state: ParseState::InElement, ..st })
            } else if st.state == ParseState::InEndTag {
                close_element(st, st.current)
            } else if st.state == ParseState::InMD {
                pop_state(st)
            } else {
                BuildStep::Fail(ParseErrorModel::TokenNotAllowed { token: t, state: st.state })
            }
        },
        TokenModel::ClosingRight => {
            if st.state == ParseState::InStartTag {
                close_element(st, ElementModel { empty: true, ..st.current })
            } else {
                BuildStep::Fail(ParseErrorModel::TokenNotAllowed { token: t, state: st.state })
            }
        },
        TokenModel::Value(n, v) => {
            if st.state == ParseState::InStartTag {
                BuildStep::Next(
                    BuilderState {
                        current: ElementModel {
                            attributes: st.current.attributes.push(
                                AttributeModel { name: n, value: v },
                            ),
                            ..st.current
                        },
                        ..st
                    },
                )
            } else if st.state == ParseState::InMD || st.state == ParseState::InPI {
                BuildStep::Next(st)
            } else {
                BuildStep::Fail(ParseErrorModel::TokenNotAllowed { token: t, state: st.state })
            }
        },
        TokenModel::Text(s) => {
            if st.state == ParseState::InStartTag {
                BuildStep::Next(
                    BuilderState { current: ElementModel { name: s, ..st.current }, ..st },
                )
            } else if st.state == ParseState::InEndTag {
                if st.current.name == s {
                    BuildStep::Next(st)
                } else {
                    BuildStep::Fail(
                        ParseErrorModel::TagMismatch { expected: st.current.name, found: s },
                    )
                }
            } else if st.state == ParseState::InElement {
                BuildStep::Next(
                    BuilderState {
                        current: ElementModel {
                            attributes: st.current.attributes.push(
                                AttributeModel { name: "text_data"@, value: s },
                            ),
                            ..st.current
                        },
                        ..st
                    },
                )
            } else if st.state == ParseState::InMD || st.state == ParseState::InPI {
                BuildStep::Next(st)
            } else {
                BuildStep::Fail(ParseErrorModel::TokenNotAllowed { token: t, state: st.state })
            }
        },
        TokenModel::PILeft => {
            BuildStep::Next(
                BuilderState {
                    state: ParseState::InPI,
                    states: st.states.push(st.state),
                    ..st
                },
            )
        },
        TokenModel::PIRight => {
            if st.state == ParseState::InPI {
                pop_state(st)
            } else {
                BuildStep::Fail(ParseErrorModel::TokenNotAllowed { token: t, state: st.state })
            }
        },
        TokenModel::MDLeft => {
            BuildStep::Next(
                BuilderState {
                    state: ParseState::InMD,
                    states: st.states.push(st.state),
                    ..st
                },
            )
        },
        TokenModel::Comment => BuildStep::Next(st),
    }
}

/// What the builder returns from state `st` on the rest of `toks` starting
/// at `i`. Input that ends before the root element closes is unbalanced.
pub open spec fn build_from(st: BuilderState, toks: Seq<TokenModel>, i: int) -> Result<
    ElementModel,
    ParseErrorModel,
>
    decreases toks.len() - i,
{
    if i < 0 || i >= toks.len() {
        Err(ParseErrorModel::UnbalancedStructure)
    } else {
        match parse_token(st, toks[i]) {
            BuildStep::Done(e) => Ok(e),
            BuildStep::Fail(er) => Err(er),
            BuildStep::Next(st2) => build_from(st2, toks, i + 1),
        }
    }
}

/// The tree that the token sequence builds, or the failure that aborts it.
pub open spec fn spec_parse(toks: Seq<TokenModel>) -> Result<ElementModel, ParseErrorModel> {
    build_from(initial_builder_state(), toks, 0)
}

/// Truncation helper: the builder run over a truncated token sequence
/// either reaches the very same outcome, or runs out of tokens and is
/// unbalanced.
proof fn lemma_build_from_take(st: BuilderState, toks: Seq<TokenModel>, j: int, i: int)
    requires
        0 <= i,
        0 <= j <= toks.len(),
    ensures
        build_from(st, toks.take(j), i) == build_from(st, toks, i) || build_from(
            st,
            toks.take(j),
            i,
        ) == Err::<ElementModel, ParseErrorModel>(ParseErrorModel::UnbalancedStructure),
    decreases toks.len() - i,
{
    assert(toks.take(j).len() == j);
    if i >= j {
        assert(build_from(st, toks.take(j), i) == Err::<ElementModel, ParseErrorModel>(
            ParseErrorModel::UnbalancedStructure,
        ));
    } else {
        assert(toks.take(j)[i] == toks[i]);
        match parse_token(st, toks[i]) {
            BuildStep::Next(st2) => {
                lemma_build_from_take(st2, toks, j, i + 1);
            },
            BuildStep::Done(e) => {},
            BuildStep::Fail(er) => {},
        }
    }
}

/// Balanced nesting, seen from the end of the input: a truncated token
/// sequence never yields a different tree. Either the cut falls after the
/// root element closed, and the result is unchanged, or the builder runs
/// out of tokens before the root closes and fails as unbalanced — it never
/// returns a partial tree.
pub proof fn lemma_truncated_input(toks: Seq<TokenModel>, j: int)
    requires
        0 <= j <= toks.len(),
    ensures
        spec_parse(toks.take(j)) == spec_parse(toks) || spec_parse(toks.take(j)) == Err::<
            ElementModel,
            ParseErrorModel,
        >(ParseErrorModel::UnbalancedStructure),
{
    lemma_build_from_take(initial_builder_state(), toks, j, 0);
}

/// Whether the step opens an element: a `TagOpen` consumed where one may
/// open.
pub open spec fn step_opens(st: BuilderState, t: TokenModel) -> nat {
    if t == TokenModel::Left && (st.state == ParseState::InDocument || st.state
        == ParseState::InElement) {
        1
    } else {
        0
    }
}

/// Whether the step closes an element: an end or self-close construct
/// consumed where one may close.
pub open spec fn step_closes(st: BuilderState, t: TokenModel) -> nat {
    if (t == TokenModel::Right && st.state == ParseState::InEndTag) || (t
        == TokenModel::ClosingRight && st.state == ParseState::InStartTag) {
        1
    } else {
        0
    }
}

/// The number of elements opened and closed by the build from position `i`
/// on, when it succeeds from here; `None` when it fails or runs out.
pub open spec fn build_counts(st: BuilderState, toks: Seq<TokenModel>, i: int) -> Option<
    (nat, nat),
>
    decreases toks.len() - i,
{
    if i < 0 || i >= toks.len() {
        None
    } else {
        match parse_token(st, toks[i]) {
            BuildStep::Done(e) => Some((step_opens(st, toks[i]), step_closes(st, toks[i]))),
            BuildStep::Fail(er) => None,
            BuildStep::Next(st2) => match build_counts(st2, toks, i + 1) {
                None => None,
                Some((o, c)) => Some(
                    ((step_opens(st, toks[i]) + o) as nat, (step_closes(st, toks[i]) + c) as nat),
                ),
            },
        }
    }
}

/// How many elements stand open: the stacked ancestors, and the current
/// element unless the builder is still at document level.
pub open spec fn open_count(st: BuilderState) -> nat {
    st.elements.len() + if resume_state(st.state, st.states) == ParseState::InDocument {
        0nat
    } else {
        1nat
    }
}

/// Counting helper: along a successful run, the closes taken from here on
/// account for the opens taken from here on and everything already open.
proof fn lemma_build_counts_balance(st: BuilderState, toks: Seq<TokenModel>, i: int)
    requires
        0 <= i,
        builder_inv(st),
    ensures
        build_from(st, toks, i) is Ok ==> (build_counts(st, toks, i) matches Some(oc) && oc.0
            + open_count(st) == oc.1),
    decreases toks.len() - i,
{
    if i < toks.len() && build_from(st, toks, i) is Ok {
        lemma_step_preserves_inv(st, toks[i]);
        match parse_token(st, toks[i]) {
            BuildStep::Next(st2) => {
                assert(st.states.push(st.state).drop_last() =~= st.states);
                assert(step_opens(st, toks[i]) + open_count(st) == step_closes(st, toks[i])
                    + open_count(st2));
                lemma_build_counts_balance(st2, toks, i + 1);
            },
            BuildStep::Done(e) => {
                assert(open_count(st) == 1);
            },
            BuildStep::Fail(er) => {},
        }
    }
}

/// Balanced nesting: in a successful build, the number of `TagOpen`-opened
/// elements equals the number of end and self-close constructs consumed —
/// every element that opens also closes before the build returns.
pub proof fn lemma_balanced_nesting(toks: Seq<TokenModel>)
    ensures
        spec_parse(toks) is Ok ==> (build_counts(initial_builder_state(), toks, 0) matches Some(
            oc,
        ) && oc.0 == oc.1),
{
    lemma_build_counts_balance(initial_builder_state(), toks, 0);
}

/// Comment helper, behind the cut: past the removed position, the run over
/// the shorter sequence tracks the run over the original, one token later.
proof fn lemma_build_from_remove_after(
    st: BuilderState,
    toks: Seq<TokenModel>,
    k: int,
    i: int,
)
    requires
        0 <= k < toks.len(),
        k <= i,
    ensures
        build_from(st, toks.remove(k), i) == build_from(st, toks, i + 1),
    decreases toks.len() - i,
{
    toks.remove_ensures(k);
    if i >= toks.len() - 1 {
        assert(build_from(st, toks.remove(k), i) == Err::<ElementModel, ParseErrorModel>(
            ParseErrorModel::UnbalancedStructure,
        ));
        assert(build_from(st, toks, i + 1) == Err::<ElementModel, ParseErrorModel>(
            ParseErrorModel::UnbalancedStructure,
        ));
    } else {
        assert(toks.remove(k)[i] == toks[i + 1]);
        match parse_token(st, toks[i + 1]) {
            BuildStep::Next(st2) => {
                lemma_build_from_remove_after(st2, toks, k, i + 1);
            },
            BuildStep::Done(e) => {},
            BuildStep::Fail(er) => {},
        }
    }
}

/// Comment helper, before the cut: the two runs take the same steps until
/// they reach the removed comment, which steps nowhere.
proof fn lemma_build_from_remove_before(
    st: BuilderState,
    toks: Seq<TokenModel>,
    k: int,
    i: int,
)
    requires
        0 <= i <= k < toks.len(),
        toks[k] == TokenModel::Comment,
    ensures
        build_from(st, toks.remove(k), i) == build_from(st, toks, i),
    decreases k - i,
{
    toks.remove_ensures(k);
    if i == k {
        assert(parse_token(st, toks[k]) == BuildStep::Next(st));
        if k == toks.len() - 1 {
            assert(build_from(st, toks.remove(k), i) == Err::<ElementModel, ParseErrorModel>(
                ParseErrorModel::UnbalancedStructure,
            ));
            assert(build_from(st, toks, k + 1) == Err::<ElementModel, ParseErrorModel>(
                ParseErrorModel::UnbalancedStructure,
            ));
        } else {
            lemma_build_from_remove_after(st, toks, k, k);
        }
    } else {
        assert(toks.remove(k)[i] == toks[i]);
        match parse_token(st, toks[i]) {
            BuildStep::Next(st2) => {
                lemma_build_from_remove_before(st2, toks, k, i + 1);
            },
            BuildStep::Done(e) => {},
            BuildStep::Fail(er) => {},
        }
    }
}

/// Comment stripping: a `Comment` token anywhere in the sequence has no
/// effect on the build — the tree, or the failure, is exactly that of the
/// sequence with the comment removed.
pub proof fn lemma_comments_are_ignored(toks: Seq<TokenModel>, k: int)
    requires
        0 <= k < toks.len(),
        toks[k] == TokenModel::Comment,
    ensures
        spec_parse(toks.remove(k)) == spec_parse(toks),
{
    lemma_build_from_remove_before(initial_builder_state(), toks, k, 0);
}

/// A well-formed tree: every element written as self-closing has no
/// children, recursively.
pub open spec fn no_children_when_empty(e: ElementModel) -> bool
    decreases e,
{
    &&& (e.empty ==> e.children.len() == 0)
    &&& forall|i: int|
        0 <= i < e.children.len() ==> no_children_when_empty(#[trigger] e.children[i])
}

/// An element still under construction: not yet marked self-closing, and
/// all of its finished children well formed.
pub open spec fn partial_element_ok(e: ElementModel) -> bool {
    &&& !e.empty
    &&& forall|i: int|
        0 <= i < e.children.len() ==> no_children_when_empty(#[trigger] e.children[i])
}

/// The shape of the builder's stacks, read from the top down: declaration
/// and instruction frames resume an interrupted state; below them, one
/// frame per open element, `InElement` frames matching the stacked parent
/// elements and a single `InDocument` frame at the bottom.
pub open spec fn stack_ok(state: ParseState, states: Seq<ParseState>, k: int) -> bool
    decreases states.len(),
{
    if state == ParseState::InPI || state == ParseState::InMD {
        states.len() > 0 && stack_ok(states.last(), states.drop_last(), k)
    } else if state == ParseState::InStartTag || state == ParseState::InEndTag || state
        == ParseState::InElement {
        &&& states.len() > 0
        &&& ((states.last() == ParseState::InDocument && k == 0) || (states.last()
            == ParseState::InElement && k > 0))
        &&& stack_ok(
            states.last(),
            states.drop_last(),
            if states.last() == ParseState::InElement {
                k - 1
            } else {
                0
            },
        )
    } else {
        states.len() == 0 && k == 0
    }
}

/// The state the builder stands in once every open declaration and
/// instruction above the current element closes.
pub open spec fn resume_state(state: ParseState, states: Seq<ParseState>) -> ParseState
    decreases states.len(),
{
    if (state == ParseState::InPI || state == ParseState::InMD) && states.len() > 0 {
        resume_state(states.last(), states.drop_last())
    } else {
        state
    }
}

/// Everything the builder maintains between tokens: well-shaped stacks,
/// well-formed partial elements, and an element that is still inside its
/// start tag has no children yet.
pub open spec fn builder_inv(st: BuilderState) -> bool {
    &&& stack_ok(st.state, st.states, st.elements.len() as int)
    &&& partial_element_ok(st.current)
    &&& forall|j: int|
        0 <= j < st.elements.len() ==> partial_element_ok(#[trigger] st.elements[j])
    &&& resume_state(st.state, st.states) == ParseState::InStartTag ==> st.current.children.len()
        == 0
}

/// One builder step preserves the invariant; a finished root is well formed.
proof fn lemma_step_preserves_inv(st: BuilderState, t: TokenModel)
    requires
        builder_inv(st),
    ensures
        match parse_token(st, t) {
            BuildStep::Next(st2) => builder_inv(st2),
            BuildStep::Done(e) => no_children_when_empty(e),
            BuildStep::Fail(er) => true,
        },
{
    match parse_token(st, t) {
        BuildStep::Next(st2) => {
            assert(st.states.push(st.state).drop_last() =~= st.states);
            assert(builder_inv(st2));
        },
        BuildStep::Done(e) => {
            assert(no_children_when_empty(e));
        },
        BuildStep::Fail(er) => {},
    }
}

/// The run-level form: from an invariant-holding state, a successful build
/// returns a well-formed root.
proof fn lemma_build_from_inv(st: BuilderState, toks: Seq<TokenModel>, i: int)
    requires
        0 <= i,
        builder_inv(st),
    ensures
        build_from(st, toks, i) matches Ok(e) ==> no_children_when_empty(e),
    decreases toks.len() - i,
{
    if i < toks.len() {
        lemma_step_preserves_inv(st, toks[i]);
        match parse_token(st, toks[i]) {
            BuildStep::Next(st2) => {
                lemma_build_from_inv(st2, toks, i + 1);
            },
            BuildStep::Done(e) => {},
            BuildStep::Fail(er) => {},
        }
    }
}

/// Self-closing elements carry no children: in any tree that the builder
/// returns, every element whose `empty` flag is set has an empty child
/// list, at every depth.
pub proof fn lemma_empty_elements_have_no_children(toks: Seq<TokenModel>)
    ensures
        spec_parse(toks) matches Ok(root) ==> no_children_when_empty(root),
{
    lemma_build_from_inv(initial_builder_state(), toks, 0);
}

/// The model of a stack of elements.
pub open spec fn elements_model(es: Seq<Element>) -> Seq<ElementModel> {
    Seq::new(es.len(), |i: int| es[i]@)
}

/// The builder state assembled from its pieces.
pub open spec fn bst_of(
    state: ParseState,
    current: ElementModel,
    elements: Seq<ElementModel>,
    states: Seq<ParseState>,
) -> BuilderState {
    BuilderState { state: state, current: current, elements: elements, states: states }
}

impl Clone for Token {
    /// A copy holding the same strings.
    fn clone(&self) -> (result: Self)
        ensures
            result@ == self@,
    {
        match self {
            Token::Left => Token::Left,
            Token::Right => Token::Right,
            Token::ClosingLeft => Token::ClosingLeft,
            Token::ClosingRight => Token::ClosingRight,
            Token::PILeft => Token::PILeft,
            Token::PIRight => Token::PIRight,
            Token::MDLeft => Token::MDLeft,
            Token::Value(n, v) => Token::Value(n.clone(), v.clone()),
            Token::Text(t) => Token::Text(t.clone()),
            Token::Comment => Token::Comment,
        }
    }
}

/// The error result for a token that the current state does not allow.
pub fn token_not_allowed(t: &Token, p: &ParseState) -> (result: Result<Element, ParseError>)
    ensures
        result matches Err(e) && e@ == (ParseErrorModel::TokenNotAllowed {
            token: t@,
            state: *p,
        }),
{
    Err(ParseError::TokenNotAllowed { token: t.clone(), state: *p })
}

/// Builds the element tree from the token sequence: runs the builder
/// machine and returns the finished root element, or the machine's failure.
pub fn parse(tokens: Vec<Token>) -> (result: Result<Element, ParseError>)
    ensures
        match result {
            Ok(e) => spec_parse(tokens_model(tokens@)) == Ok::<ElementModel, ParseErrorModel>(e@),
            Err(pe) => spec_parse(tokens_model(tokens@)) == Err::<ElementModel, ParseErrorModel>(
                pe@,
            ),
        },
{
    let ghost toks = tokens_model(tokens@);

    let mut state_stack: Vec<ParseState> = Vec::new();
    let mut elements: Vec<Element> = Vec::new();
    let mut current_state: ParseState = ParseState::InDocument;
    let mut current_element: Element = Element::new_empty();

    proof {
        assert(bst_of(current_state, current_element@, elements_model(elements@), state_stack@)
            =~= initial_builder_state());
    }

    let n = tokens.len();
    let mut i: usize = 0;
    while i < n
        invariant
            n == tokens@.len(),
            toks == tokens_model(tokens@),
            i <= n,
            match build_from(
                bst_of(current_state, current_element@, elements_model(elements@), state_stack@),
                toks,
                i as int,
            ) {
                Ok(e) => spec_parse(toks) == Ok::<ElementModel, ParseErrorModel>(e),
                Err(er) => spec_parse(toks) == Err::<ElementModel, ParseErrorModel>(er),
            },
        decreases n - i,
    {
        let ghost st0 = bst_of(
            current_state,
            current_element@,
            elements_model(elements@),
            state_stack@,
        );
        proof {
            assert(toks[i as int] == tokens@[i as int]@);
        }
        let token = &tokens[i];
        match token {
            Token::Left => {
                match current_state {
                    ParseState::InDocument => {
                        state_stack.push(current_state);
                        current_state = ParseState::InStartTag;
                        current_element = Element::new_empty();
                    },
                    ParseState::InElement => {
                        let prev = current_element;
                        current_element = Element::new_empty();
                        elements.push(prev);
                        state_stack.push(ParseState::InElement);
                        current_state = ParseState::InStartTag;
                    },
                    _ => {
                        proof {
                            assert(parse_token(st0, toks[i as int]) matches BuildStep::Fail(er)
                                && er == (ParseErrorModel::TokenNotAllowed {
                                token: toks[i as int],
                                state: st0.state,
                            }));
                        }
                        return token_not_allowed(token, &current_state);
                    },
                }
            },
            Token::ClosingLeft => {
                match current_state {
                    ParseState::InElement => {
                        current_state = ParseState::InEndTag;
                    },
                    _ => {
                        return token_not_allowed(token, &current_state);
                    },
                }
            },
            Token::Right => {
                match current_state {
                    ParseState::InStartTag => {
                        current_state = ParseState::InElement;
                    },
                    ParseState::InEndTag => {
                        match state_stack.pop() {
                            None => {
                                return Err(ParseError::UnbalancedStructure);
                            },
                            Some(up) => {
                                match elements.pop() {
                                    None => {
                                        proof {
                                            assert(parse_token(st0, toks[i as int])
                                                matches BuildStep::Done(e)
                                                && e == current_element@);
                                        }
                                        return Ok(current_element);
                                    },
                                    Some(mut parent) => {
                                        parent.append_child(current_element);
                                        current_element = parent;
                                        current_state = up;
                                        proof {
                                            assert(elements_model(elements@) =~= st0
                                                .elements
                                                .drop_last());
                                        }
                                    },
                                }
                            },
                        }
                    },
                    ParseState::InMD => {
                        match state_stack.pop() {
                            None => {
                                return Err(ParseError::UnbalancedStructure);
                            },
                            Some(up) => {
                                current_state = up;
                            },
                        }
                    },
                    _ => {
                        return token_not_allowed(token, &current_state);
                    },
                }
            },
            Token::ClosingRight => {
                match current_state {
                    ParseState::InStartTag => {
                        current_element.set_empty(true);
                        match state_stack.pop() {
                            None => {
                                return Err(ParseError::UnbalancedStructure);
                            },
                            Some(up) => {
                                match elements.pop() {
                                    None => {
                                        proof {
                                            assert(parse_token(st0, toks[i as int])
                                                matches BuildStep::Done(e)
                                                && e == current_element@);
                                        }
                                        return Ok(current_element);
                                    },
                                    Some(mut parent) => {
                                        parent.append_child(current_element);
                                        current_element = parent;
                                        current_state = up;
                                        proof {
                                            assert(elements_model(elements@) =~= st0
                                                .elements
                                                .drop_last());
                                        }
                                    },
                                }
                            },
                        }
                    },
                    _ => {
                        return token_not_allowed(token, &current_state);
                    },
                }
            },
            Token::Value(n_, v_) => {
                match current_state {
                    ParseState::InStartTag => {
                        current_element.append_attribute(Attribute::new(n_.as_str(), v_.as_str()));
                    },
                    ParseState::InMD | ParseState::InPI => {
                        // contents of declarations and instructions are discarded
                    },
                    _ => {
                        return token_not_allowed(token, &current_state);
                    },
                }
            },
            Token::Text(s_) => {
                match current_state {
                    ParseState::InStartTag => {
                        current_element.set_name(s_.as_str());
                    },
                    ParseState::InEndTag => {
                        if !current_element.has_name(s_) {
                            let expected: String = current_element.get_name().to_owned();
                            let found: String = s_.clone();
                            return Err(ParseError::TagMismatch { expected, found });
                        }
                    },
                    ParseState::InElement => {
                        current_element.set_text(s_.as_str());
                    },
                    ParseState::InMD | ParseState::InPI => {
                        // contents of declarations and instructions are discarded
                    },
                    _ => {
                        return token_not_allowed(token, &current_state);
                    },
                }
            },
            Token::PILeft => {
                state_stack.push(current_state);
                current_state = ParseState::InPI;
            },
            Token::PIRight => {
                match current_state {
                    ParseState::InPI => {
                        match state_stack.pop() {
                            None => {
                                return Err(ParseError::UnbalancedStructure);
                            },
                            Some(up) => {
                                current_state = up;
                            },
                        }
                    },
                    _ => {
                        return token_not_allowed(token, &current_state);
                    },
                }
            },
            Token::MDLeft => {
                state_stack.push(current_state);
                current_state = ParseState::InMD;
            },
            Token::Comment => {
                // comments are ignored
            },
        }

        proof {
            let stn = bst_of(
                current_state,
                current_element@,
                elements_model(elements@),
                state_stack@,
            );
            assert(parse_token(st0, toks[i as int]) is Next);
            assert(parse_token(st0, toks[i as int])->Next_0 =~= stn);
        }
        i = i + 1;
    }

    proof {
        assert(build_from(
            bst_of(current_state, current_element@, elements_model(elements@), state_stack@),
            toks,
            n as int,
        ) == Err::<ElementModel, ParseErrorModel>(ParseErrorModel::UnbalancedStructure));
    }
    Err(ParseError::UnbalancedStructure)
}

} // verus!
