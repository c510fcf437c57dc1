//! The stylesheet parser: token sequences become an [`Asset`], an ordered
//! mapping from selector paths to the rules declared under them, for the
//! brace-delimited and the indentation-sensitive syntaxes.

use vstd::prelude::*;
use vstd::string::StringExecFns;

use crate::lex::{lex_spec, toks_model, IndentMode, LexState, Mode, Token, TokenModel, Tokens};
use crate::text::str_eq;
use crate::traits::{Name, PropertyValue};

pub mod bg;

verus! {

/// A property that a rule can set: a family and an optional sub-property.
/// `None` as the sub-property is the shorthand form.
#[derive(Debug, Copy, Clone, PartialEq, Eq)]
pub enum Property {
    Background(Option<bg::BackgroundProperty>),
}

/// A parsed value, tagged by its property family.
#[derive(Debug, Clone, PartialEq)]
pub enum Value {
    Background(bg::BackgroundValue),
}

/// The mathematical shape of a [`Value`].
pub enum ValueModel {
    Background(bg::BgValueModel),
}

impl View for Value {
    type V = ValueModel;

    open spec fn view(&self) -> ValueModel {
        match self {
            Value::Background(b) => ValueModel::Background(b@),
        }
    }
}

impl From<bg::BackgroundValue> for Value {
    fn from(b: bg::BackgroundValue) -> (r: Value) {
        Value::Background(b)
    }
}

impl vstd::std_specs::convert::FromSpecImpl<bg::BackgroundValue> for Value {
    open spec fn obeys_from_spec() -> bool {
        true
    }

    open spec fn from_spec(b: bg::BackgroundValue) -> Value {
        Value::Background(b)
    }
}

/// A declaration: a property and the value it is set to.
#[derive(Debug, Clone, PartialEq)]
pub struct Rule {
    property: Property,
    value: Value,
}

/// The mathematical shape of a [`Rule`].
pub type RuleModel = (Property, ValueModel);

impl View for Rule {
    type V = RuleModel;

    closed spec fn view(&self) -> RuleModel {
        (self.property, self.value@)
    }
}

impl PropertyValue for Rule {
    type PropertyType = Property;

    type ValueType = Value;

    fn property(&self) -> (r: &Property)
        ensures
            *r == self@.0,
    {
        &self.property
    }

    fn value(&self) -> (r: &Value)
        ensures
            r@ == self@.1,
    {
        &self.value
    }
}

/// What can go wrong while reading a stylesheet.
#[derive(Debug, Copy, Clone, PartialEq, Eq, Structural)]
pub enum Error {
    /// The file could not be read. Only callers that load from disk
    /// produce it; parsing itself never does.
    IOError,
    /// A structural violation: brace imbalance, a brace in the
    /// indentation syntax, or a misplaced separator.
    SyntaxError,
    /// A value grammar rejected the token run of a declaration.
    InvalidValue,
    /// A property name outside the property table.
    InvalidProperty,
    /// The lexer produced no token sequence at all.
    Unknown,
}

/// A named target: a selector name and at most one parent, together
/// forming a nesting path from the outermost ancestor down.
#[derive(Debug)]
pub struct Selector {
    pub name: String,
    pub parent: Option<Box<Selector>>,
}

/// The selector's path: ancestor names outermost-first, own name last.
pub open spec fn sel_path(s: Selector) -> Seq<Seq<char>>
    decreases s,
{
    match s.parent {
        Some(p) => sel_path(*p).push(s.name@),
        None => seq![s.name@],
    }
}

impl View for Selector {
    type V = Seq<Seq<char>>;

    open spec fn view(&self) -> Seq<Seq<char>> {
        sel_path(*self)
    }
}

/// A selector path always has at least its own name as a component.
pub proof fn lemma_selector_path_len(s: Selector)
    ensures
        s@.len() >= 1,
    decreases s,
{
    match s.parent {
        Some(p) => lemma_selector_path_len(*p),
        None => {},
    }
}

/// The rendering of a selector path: each component prefixed with a dot,
/// the components joined with single spaces.
pub open spec fn render_path(path: Seq<Seq<char>>) -> Seq<char>
    decreases path.len(),
{
    if path.len() == 0 {
        Seq::empty()
    } else if path.len() == 1 {
        seq!['.'] + path[0]
    } else {
        render_path(path.drop_last()) + seq![' ', '.'] + path.last()
    }
}

impl Selector {
    /// The unnamed selector with no parent.
    pub fn empty() -> (r: Selector)
        ensures
            r@ == seq![Seq::<char>::empty()],
    {
        let r = Selector { name: String::new(), parent: None };
        proof {
            assert(r@ =~= seq![Seq::<char>::empty()]);
        }
        r
    }

    /// Renders the full descendant path, ancestors outward-in, as
    /// [`render_path`] describes.
    pub fn construct(&self) -> (r: String)
        ensures
            r@ == render_path(self@),
        decreases self,
    {
        match &self.parent {
            Some(p) => {
                proof {
                    lemma_selector_path_len(**p);
                    assert(self@.drop_last() =~= p@);
                    assert(self@.last() == self.name@);
                }
                let mut s = p.construct();
                s.append(" .");
                s.append(self.name.as_str());
                proof {
                    reveal_strlit(" .");
                    assert(" ."@ =~= seq![' ', '.']);
                }
                s
            }
            None => {
                let mut s = ".".to_owned();
                s.append(self.name.as_str());
                proof {
                    reveal_strlit(".");
                    assert("."@ =~= seq!['.']);
                    assert(self@ =~= seq![self.name@]);
                }
                s
            }
        }
    }

    /// The rendered path (see [`Selector::construct`]).
    pub fn to_string(&self) -> (r: String)
        ensures
            r@ == render_path(self@),
    {
        self.construct()
    }
}

impl Name for Selector {
    fn name(&self) -> (r: &String)
        ensures
            r@ == self@.last(),
    {
        &self.name
    }
}

/// The fixed property-name table.
pub open spec fn property_of(n: Seq<char>) -> Option<Property> {
    if n == "background"@ {
        Some(Property::Background(None))
    } else if n == "background-attachment"@ {
        Some(Property::Background(Some(bg::BackgroundProperty::Attachment)))
    } else if n == "background-blend-mode"@ {
        Some(Property::Background(Some(bg::BackgroundProperty::BlendMode)))
    } else if n == "background-clip"@ {
        Some(Property::Background(Some(bg::BackgroundProperty::Clip)))
    } else if n == "background-color"@ {
        Some(Property::Background(Some(bg::BackgroundProperty::Color)))
    } else if n == "background-image"@ {
        Some(Property::Background(Some(bg::BackgroundProperty::Image)))
    } else if n == "background-origin"@ {
        Some(Property::Background(Some(bg::BackgroundProperty::Origin)))
    } else if n == "background-repeat"@ {
        Some(Property::Background(Some(bg::BackgroundProperty::Repeat)))
    } else if n == "background-size"@ {
        Some(Property::Background(Some(bg::BackgroundProperty::Size)))
    } else {
        None
    }
}

impl Property {
    /// Looks `s` up in the property table; an unrecognized name is the
    /// `InvalidProperty` error.
    pub fn from_str(s: &str) -> (r: Result<Property, Error>)
        ensures
            match property_of(s@) {
                Some(p) => r == Ok::<Property, Error>(p),
                None => r == Err::<Property, Error>(Error::InvalidProperty),
            },
    {
        if str_eq(s, "background") {
            Ok(Property::Background(None))
        } else if str_eq(s, "background-attachment") {
            Ok(Property::Background(Some(bg::BackgroundProperty::Attachment)))
        } else if str_eq(s, "background-blend-mode") {
            Ok(Property::Background(Some(bg::BackgroundProperty::BlendMode)))
        } else if str_eq(s, "background-clip") {
            Ok(Property::Background(Some(bg::BackgroundProperty::Clip)))
        } else if str_eq(s, "background-color") {
            Ok(Property::Background(Some(bg::BackgroundProperty::Color)))
        } else if str_eq(s, "background-image") {
            Ok(Property::Background(Some(bg::BackgroundProperty::Image)))
        } else if str_eq(s, "background-origin") {
            Ok(Property::Background(Some(bg::BackgroundProperty::Origin)))
        } else if str_eq(s, "background-repeat") {
            Ok(Property::Background(Some(bg::BackgroundProperty::Repeat)))
        } else if str_eq(s, "background-size") {
            Ok(Property::Background(Some(bg::BackgroundProperty::Size)))
        } else {
            Err(Error::InvalidProperty)
        }
    }
}

/// The mathematical shape of a rule table: selector paths, each with its
/// rules in declaration order.
pub open spec fn rules_model(rs: Seq<(Selector, Vec<Rule>)>) -> Seq<
    (Seq<Seq<char>>, Seq<RuleModel>),
> {
    rs.map_values(|e: (Selector, Vec<Rule>)| (e.0@, e.1@.map_values(|r: Rule| r@)))
}

/// The mathematical shape of an [`Asset`].
pub struct AssetModel {
    pub name: Seq<char>,
    pub rules: Seq<(Seq<Seq<char>>, Seq<RuleModel>)>,
}

/// A parsed stylesheet: its name, and an ordered mapping from each
/// selector to the list of rules declared directly under it.
#[derive(Debug)]
pub struct Asset {
    name: String,
    rules: Vec<(Selector, Vec<Rule>)>,
}

impl View for Asset {
    type V = AssetModel;

    closed spec fn view(&self) -> AssetModel {
        AssetModel { name: self.name@, rules: rules_model(self.rules@) }
    }
}

impl Asset {
    /// The rule table, in the order the selectors first appeared.
    pub fn rules(&self) -> (r: &Vec<(Selector, Vec<Rule>)>)
        ensures
            rules_model(r@) == self@.rules,
    {
        &self.rules
    }
}

impl Name for Asset {
    fn name(&self) -> (r: &String)
        ensures
            r@ == self@.name,
    {
        &self.name
    }
}


// ---------------------------------------------------------------------
// The parser's specification state machine.
// ---------------------------------------------------------------------

/// The parser's state between tokens: the open selector path, the
/// identifier awaiting commitment, the pseudo-class append flag, the
/// brace depth, the current line's indentation, whether the line already
/// committed a component, the active property with its collected value
/// tokens, and the rules gathered so far.
pub struct ParseModel {
    pub path: Seq<Seq<char>>,
    pub pending: Option<Seq<char>>,
    pub append: bool,
    pub depth: int,
    pub line_indent: int,
    pub line_committed: bool,
    pub prop: Option<Property>,
    pub vbuf: Seq<TokenModel>,
    pub rules: Seq<(Seq<Seq<char>>, Seq<RuleModel>)>,
}

pub open spec fn parse_init() -> ParseModel {
    ParseModel {
        path: Seq::empty(),
        pending: None,
        append: false,
        depth: 0,
        line_indent: 0,
        line_committed: false,
        prop: None,
        vbuf: Seq::empty(),
        rules: Seq::empty(),
    }
}

/// Index of `path` among the rule entries, or the entry count when it is
/// absent.
pub open spec fn rule_idx(rules: Seq<(Seq<Seq<char>>, Seq<RuleModel>)>, path: Seq<Seq<char>>) -> int
    decreases rules.len(),
{
    if rules.len() == 0 {
        0
    } else if rules[0].0 == path {
        0
    } else {
        1 + rule_idx(rules.drop_first(), path)
    }
}

pub proof fn lemma_rule_idx(rules: Seq<(Seq<Seq<char>>, Seq<RuleModel>)>, path: Seq<Seq<char>>)
    ensures
        0 <= rule_idx(rules, path) <= rules.len(),
        rule_idx(rules, path) < rules.len() ==> rules[rule_idx(rules, path)].0 == path,
        forall|j: int| 0 <= j < rule_idx(rules, path) ==> rules[j].0 != path,
    decreases rules.len(),
{
    if rules.len() > 0 && rules[0].0 != path {
        lemma_rule_idx(rules.drop_first(), path);
        assert forall|j: int| 0 <= j < rule_idx(rules, path) implies rules[j].0 != path by {
            if j > 0 {
                assert(rules.drop_first()[j - 1] == rules[j]);
            }
        }
    }
}

/// Appends a rule under `path`: to the existing entry when there is one,
/// else as a new entry at the end.
pub open spec fn add_rule(
    rules: Seq<(Seq<Seq<char>>, Seq<RuleModel>)>,
    path: Seq<Seq<char>>,
    rm: RuleModel,
) -> Seq<(Seq<Seq<char>>, Seq<RuleModel>)> {
    let i = rule_idx(rules, path);
    if i < rules.len() {
        rules.update(i, (path, rules[i].1.push(rm)))
    } else {
        rules.push((path, seq![rm]))
    }
}

/// Where a committed selector component goes: in the indentation syntax a
/// line's first component replaces everything deeper than the line's
/// indent; otherwise components chain.
pub open spec fn commit_path(
    path: Seq<Seq<char>>,
    pending: Option<Seq<char>>,
    line_indent: int,
    line_committed: bool,
    sassy: bool,
) -> Seq<Seq<char>> {
    match pending {
        Some(n) => {
            let base = if sassy && !line_committed && line_indent < path.len() {
                path.take(line_indent)
            } else {
                path
            };
            base.push(n)
        },
        None => path,
    }
}

/// Commits the pending identifier, if any, as a selector component.
pub open spec fn commit(st: ParseModel, sassy: bool) -> ParseModel {
    ParseModel {
        path: commit_path(st.path, st.pending, st.line_indent, st.line_committed, sassy),
        pending: None,
        line_committed: if st.pending is Some {
            true
        } else {
            st.line_committed
        },
        ..st
    }
}

/// Ends the active declaration, if any: its value tokens go through the
/// value grammar and the rule is attached under the open selector path.
pub open spec fn finalize_decl(st: ParseModel) -> Result<ParseModel, Error> {
    match st.prop {
        Some(p) => {
            let sub = (match p {
                Property::Background(bp) => bp,
            });
            match bg::bg_value_spec(sub, st.vbuf) {
                Some(v) => Ok(
                    ParseModel {
                        prop: None,
                        vbuf: Seq::empty(),
                        rules: add_rule(st.rules, st.path, (p, ValueModel::Background(v))),
                        ..st
                    },
                ),
                None => Err(Error::InvalidValue),
            }
        },
        None => Ok(st),
    }
}

/// Closes a brace-delimited block: underflow is a syntax error; the
/// innermost selector component is dropped.
pub open spec fn close_brace(st: ParseModel) -> Result<ParseModel, Error> {
    if st.depth == 0 {
        Err(Error::SyntaxError)
    } else {
        Ok(
            ParseModel {
                depth: st.depth - 1,
                path: if st.path.len() > 0 {
                    st.path.drop_last()
                } else {
                    st.path
                },
                pending: None,
                append: false,
                ..st
            },
        )
    }
}

/// One parser step, consuming one token under the chosen syntax.
pub open spec fn parse_step(st: ParseModel, t: TokenModel, sassy: bool) -> Result<
    ParseModel,
    Error,
> {
    if st.prop is Some {
        if sassy {
            match t {
                TokenModel::Ind(crate::lex::Indent::NewLine) => match finalize_decl(st) {
                    Ok(st2) => Ok(
                        ParseModel { line_indent: 0, line_committed: false, ..st2 },
                    ),
                    Err(e) => Err(e),
                },
                TokenModel::Ind(_) => Ok(st),
                TokenModel::Other(c) => if c == "{"@ || c == "}"@ {
                    Err(Error::SyntaxError)
                } else {
                    Ok(ParseModel { vbuf: st.vbuf.push(t), ..st })
                },
                _ => Ok(ParseModel { vbuf: st.vbuf.push(t), ..st }),
            }
        } else {
            match t {
                TokenModel::Other(c) => if c == ";"@ {
                    finalize_decl(st)
                } else if c == "}"@ {
                    match finalize_decl(st) {
                        Ok(st2) => close_brace(st2),
                        Err(e) => Err(e),
                    }
                } else {
                    Ok(ParseModel { vbuf: st.vbuf.push(t), ..st })
                },
                _ => Ok(ParseModel { vbuf: st.vbuf.push(t), ..st }),
            }
        }
    } else {
        match t {
            TokenModel::Identifier(n) => {
                if st.append {
                    let joined = (match st.pending {
                        Some(p) => p,
                        None => Seq::empty(),
                    }) + seq![':'] + n;
                    Ok(ParseModel { pending: Some(joined), append: false, ..st })
                } else {
                    let st2 = commit(st, sassy);
                    Ok(ParseModel { pending: Some(n), ..st2 })
                }
            },
            TokenModel::Other(c) => {
                if sassy && (c == "{"@ || c == "}"@) {
                    Err(Error::SyntaxError)
                } else if !sassy && c == "{"@ {
                    let st2 = commit(st, false);
                    Ok(ParseModel { depth: st2.depth + 1, append: false, ..st2 })
                } else if !sassy && c == "}"@ {
                    close_brace(st)
                } else if c == ":"@ {
                    let at_top = if sassy {
                        st.line_indent == 0
                    } else {
                        st.depth == 0
                    };
                    if at_top {
                        Ok(ParseModel { append: true, ..st })
                    } else {
                        match st.pending {
                            Some(p) => match property_of(p) {
                                Some(prop) => if st.path.len() >= 1 {
                                    Ok(
                                        ParseModel {
                                            prop: Some(prop),
                                            pending: None,
                                            vbuf: Seq::empty(),
                                            ..st
                                        },
                                    )
                                } else {
                                    Err(Error::SyntaxError)
                                },
                                None => Err(Error::InvalidProperty),
                            },
                            None => Err(Error::SyntaxError),
                        }
                    }
                } else {
                    Ok(st)
                }
            },
            TokenModel::Ind(crate::lex::Indent::NewLine) => {
                if sassy {
                    let st2 = commit(st, true);
                    Ok(ParseModel { line_indent: 0, line_committed: false, append: false, ..st2 })
                } else {
                    Ok(st)
                }
            },
            TokenModel::Ind(crate::lex::Indent::Tab) => {
                if sassy && st.pending is None && !st.line_committed {
                    Ok(ParseModel { line_indent: st.line_indent + 1, ..st })
                } else {
                    Ok(st)
                }
            },
            _ => Ok(st),
        }
    }
}

/// Runs the parser from `st` over all of `toks`.
pub open spec fn parse_from(st: ParseModel, toks: Seq<TokenModel>, sassy: bool) -> Result<
    ParseModel,
    Error,
>
    decreases toks.len(),
{
    if toks.len() == 0 {
        Ok(st)
    } else {
        match parse_from(st, toks.drop_last(), sassy) {
            Ok(st2) => parse_step(st2, toks.last(), sassy),
            Err(e) => Err(e),
        }
    }
}

/// The end of input: the open declaration is finalized, the pending
/// identifier committed, and in the brace syntax every block must have
/// been closed.
pub open spec fn parse_finish(st: ParseModel, sassy: bool) -> Result<
    Seq<(Seq<Seq<char>>, Seq<RuleModel>)>,
    Error,
> {
    match finalize_decl(st) {
        Ok(st1) => {
            let st2 = commit(st1, sassy);
            if !sassy && st2.depth != 0 {
                Err(Error::SyntaxError)
            } else {
                Ok(st2.rules)
            }
        },
        Err(e) => Err(e),
    }
}

/// What parsing a whole token sequence yields: the rule table, or the
/// first error.
pub open spec fn parse_tokens_spec(toks: Seq<TokenModel>, sassy: bool) -> Result<
    Seq<(Seq<Seq<char>>, Seq<RuleModel>)>,
    Error,
> {
    match parse_from(parse_init(), toks, sassy) {
        Ok(st) => parse_finish(st, sassy),
        Err(e) => Err(e),
    }
}

/// What parsing source text yields: lexing (under any mode with the
/// stylesheet settings), then parsing; a failed lex is the `Unknown`
/// error.
pub open spec fn parse_source_spec(src: Seq<char>, m: Mode, sassy: bool) -> Result<
    Seq<(Seq<Seq<char>>, Seq<RuleModel>)>,
    Error,
> {
    match lex_spec(src, m) {
        Some(tm) => parse_tokens_spec(tm, sassy),
        None => Err(Error::Unknown),
    }
}

/// The lexing configuration the stylesheet parser uses: permissive
/// literals, `$` and `-` continuing identifiers, and indent tokens only
/// for the indentation syntax.
pub open spec fn style_mode_ok(m: Mode, sassy: bool) -> bool {
    &&& m.strict_literals == false
    &&& m.schar_identp == true
    &&& m.indents == (if sassy {
        IndentMode { spaces: false, tabs: true, newlines: true }
    } else {
        IndentMode { spaces: false, tabs: false, newlines: false }
    })
    &&& match m.schar_vals {
        Some(v) => v@ == seq!['$', '-'],
        None => false,
    }
}

/// Lexing depends only on the mode's settings, not on which value
/// carries them.
pub proof fn lemma_lex_mode_eq(st: LexState, s: Seq<char>, m1: Mode, m2: Mode)
    requires
        m1.strict_literals == m2.strict_literals,
        m1.indents == m2.indents,
        m1.schar_identp == m2.schar_identp,
        match (m1.schar_vals, m2.schar_vals) {
            (Some(a), Some(b)) => a@ == b@,
            (None, None) => true,
            _ => false,
        },
    ensures
        crate::lex::lex_from(st, s, m1) == crate::lex::lex_from(st, s, m2),
    decreases s.len(),
{
    if s.len() > 0 {
        lemma_lex_mode_eq(st, s.drop_last(), m1, m2);
        match crate::lex::lex_from(st, s.drop_last(), m1) {
            Some(st2) => {
                assert(crate::lex::schar_extends(m1, s.last()) == crate::lex::schar_extends(
                    m2,
                    s.last(),
                ));
                assert(crate::lex::lex_step(st2, s.last(), m1) == crate::lex::lex_step(
                    st2,
                    s.last(),
                    m2,
                ));
            },
            None => {},
        }
    }
}

// ---------------------------------------------------------------------
// Laws of the parser.
// ---------------------------------------------------------------------

/// Once the parser has failed on a prefix, the whole input fails with
/// that same error.
pub proof fn lemma_parse_err_extends(toks: Seq<TokenModel>, i: int, sassy: bool, e: Error)
    requires
        0 <= i <= toks.len(),
        parse_from(parse_init(), toks.take(i), sassy) == Err::<ParseModel, Error>(e),
    ensures
        parse_from(parse_init(), toks, sassy) == Err::<ParseModel, Error>(e),
        parse_tokens_spec(toks, sassy) == Err::<Seq<(Seq<Seq<char>>, Seq<RuleModel>)>, Error>(e),
    decreases toks.len() - i,
{
    if i < toks.len() {
        assert(toks.take(i + 1).drop_last() =~= toks.take(i));
        assert(parse_from(parse_init(), toks.take(i + 1), sassy) == Err::<ParseModel, Error>(e));
        lemma_parse_err_extends(toks, i + 1, sassy, e);
    } else {
        assert(toks.take(i) =~= toks);
    }
}

/// Law: the indentation syntax rejects every brace. An input whose
/// tokens hold a literal `{` or `}` fails; when the parser reaches the
/// brace, the failure is precisely the syntax error.
pub proof fn lemma_indent_rejects_braces(toks: Seq<TokenModel>, i: int)
    requires
        0 <= i < toks.len(),
        toks[i] == TokenModel::Other("{"@) || toks[i] == TokenModel::Other("}"@),
    ensures
        parse_tokens_spec(toks, true) is Err,
        parse_from(parse_init(), toks.take(i), true) is Ok ==> parse_tokens_spec(toks, true)
            == Err::<Seq<(Seq<Seq<char>>, Seq<RuleModel>)>, Error>(Error::SyntaxError),
{
    assert(toks.take(i + 1).drop_last() =~= toks.take(i));
    assert(toks.take(i + 1).last() == toks[i]);
    match parse_from(parse_init(), toks.take(i), true) {
        Ok(st) => {
            assert(parse_step(st, toks[i], true) == Err::<ParseModel, Error>(Error::SyntaxError));
            lemma_parse_err_extends(toks, i + 1, true, Error::SyntaxError);
        },
        Err(e) => {
            lemma_parse_err_extends(toks, i, true, e);
        },
    }
}

/// Law: in the brace syntax, a closing brace reached outside any block
/// fails the parse with precisely the syntax error.
pub proof fn lemma_unmatched_close(toks: Seq<TokenModel>, i: int)
    requires
        0 <= i < toks.len(),
        toks[i] == TokenModel::Other("}"@),
        parse_from(parse_init(), toks.take(i), false) is Ok,
        parse_from(parse_init(), toks.take(i), false)->Ok_0.depth == 0,
        parse_from(parse_init(), toks.take(i), false)->Ok_0.prop is None,
    ensures
        parse_tokens_spec(toks, false) == Err::<Seq<(Seq<Seq<char>>, Seq<RuleModel>)>, Error>(
            Error::SyntaxError,
        ),
{
    let st = parse_from(parse_init(), toks.take(i), false)->Ok_0;
    assert(toks.take(i + 1).drop_last() =~= toks.take(i));
    assert(toks.take(i + 1).last() == toks[i]);
    reveal_strlit("{");
    reveal_strlit("}");
    assert("{"@ != "}"@) by {
        assert("{"@[0] == '{' && "}"@[0] == '}');
    }
    assert(parse_step(st, toks[i], false) == Err::<ParseModel, Error>(Error::SyntaxError));
    lemma_parse_err_extends(toks, i + 1, false, Error::SyntaxError);
}


// ---------------------------------------------------------------------
// The executable parser.
// ---------------------------------------------------------------------

/// The mathematical shape of a component vector.
pub open spec fn comps_model(v: Seq<String>) -> Seq<Seq<char>> {
    v.map_values(|s: String| s@)
}

/// The mathematical shape of a pending identifier.
pub open spec fn pend_model(p: Option<String>) -> Option<Seq<char>> {
    match p {
        Some(s) => Some(s@),
        None => None,
    }
}

/// Whether `sel`'s path equals the first `k` components.
fn sel_matches(sel: &Selector, comps: &Vec<String>, k: usize) -> (r: bool)
    requires
        k <= comps@.len(),
    ensures
        r == (sel@ == comps_model(comps@).take(k as int)),
    decreases sel,
{
    let ghost cm = comps_model(comps@);
    proof {
        lemma_selector_path_len(*sel);
        assert(forall|i: int| 0 <= i < comps@.len() ==> cm[i] == #[trigger] comps@[i]@);
    }
    if k == 0 {
        proof {
            assert(cm.take(0).len() == 0);
        }
        false
    } else {
        match &sel.parent {
            None => {
                if k == 1 {
                    let r = str_eq(sel.name.as_str(), comps[0].as_str());
                    proof {
                        if r {
                            assert(sel@ =~= cm.take(1));
                        } else {
                            assert(sel@[0] == sel.name@);
                            assert(cm.take(1)[0] == cm[0]);
                        }
                    }
                    r
                } else {
                    proof {
                        assert(cm.take(k as int).len() == k);
                        assert(sel@.len() == 1);
                    }
                    false
                }
            }
            Some(p) => {
                proof {
                    assert(sel@ == p@.push(sel.name@));
                    lemma_selector_path_len(**p);
                }
                let nm = str_eq(sel.name.as_str(), comps[k - 1].as_str());
                if nm {
                    let rp = sel_matches(p, comps, k - 1);
                    proof {
                        assert(cm.take(k as int).drop_last() =~= cm.take(k - 1));
                        assert(cm.take(k as int).last() == cm[k - 1]);
                        if rp {
                            assert(sel@ =~= cm.take(k as int));
                        } else {
                            if sel@ == cm.take(k as int) {
                                assert(sel@.drop_last() == p@);
                                assert(p@ == cm.take(k - 1));
                            }
                        }
                    }
                    rp
                } else {
                    proof {
                        if sel@ == cm.take(k as int) {
                            assert(sel@.last() == sel.name@);
                            assert(cm.take(k as int).last() == cm[k - 1]);
                        }
                    }
                    false
                }
            }
        }
    }
}

/// Builds the selector chain for the first `k` components.
fn selector_from(comps: &Vec<String>, k: usize) -> (r: Selector)
    requires
        1 <= k <= comps@.len(),
    ensures
        r@ == comps_model(comps@).take(k as int),
    decreases k,
{
    let ghost cm = comps_model(comps@);
    proof {
        assert(forall|i: int| 0 <= i < comps@.len() ==> cm[i] == #[trigger] comps@[i]@);
    }
    let name = comps[k - 1].clone();
    if k == 1 {
        let r = Selector { name, parent: None };
        proof {
            assert(r@ =~= cm.take(1));
        }
        r
    } else {
        let par = selector_from(comps, k - 1);
        let r = Selector { name, parent: Some(Box::new(par)) };
        proof {
            assert(cm.take(k as int).drop_last() =~= cm.take(k - 1));
            assert(cm.take(k as int).last() == cm[k - 1]);
            assert(r@ =~= cm.take(k as int));
        }
        r
    }
}

/// The entry whose selector path equals the components, when present.
fn find_entry(rules: &Vec<(Selector, Vec<Rule>)>, comps: &Vec<String>) -> (r: Option<usize>)
    requires
        comps@.len() >= 1,
    ensures
        match r {
            Some(i) => i == rule_idx(rules_model(rules@), comps_model(comps@)) && i
                < rules@.len(),
            None => rule_idx(rules_model(rules@), comps_model(comps@)) == rules@.len(),
        },
{
    let ghost rm0 = rules_model(rules@);
    let ghost path = comps_model(comps@);
    proof {
        lemma_rule_idx(rm0, path);
        assert(forall|i: int|
            0 <= i < rules@.len() ==> rm0[i] == (#[trigger] rules@[i].0@, rules@[i].1@.map_values(
                |r: Rule| r@,
            )));
        assert(path.take(comps@.len() as int) =~= path);
    }
    let n = comps.len();
    let mut i: usize = 0;
    while i < rules.len()
        invariant
            0 <= i <= rules@.len(),
            n == comps@.len(),
            comps@.len() >= 1,
            rm0 == rules_model(rules@),
            path == comps_model(comps@),
            forall|j: int| 0 <= j < i ==> rm0[j].0 != path,
            rm0.len() == rules@.len(),
            forall|j: int|
                0 <= j < rules@.len() ==> rm0[j] == (#[trigger] rules@[j].0@, rules@[j].1@
                    .map_values(|r: Rule| r@)),
            path.take(n as int) == path,
        decreases rules@.len() - i,
    {
        if sel_matches(&rules[i].0, comps, n) {
            proof {
                lemma_rule_idx(rm0, path);
                assert(rm0[i as int].0 == path);
                if rule_idx(rm0, path) < i {
                    assert(rm0[rule_idx(rm0, path)].0 != path);
                }
            }
            return Some(i);
        }
        i += 1;
    }
    proof {
        lemma_rule_idx(rm0, path);
        if rule_idx(rm0, path) < rm0.len() {
            assert(rm0[rule_idx(rm0, path)].0 == path);
        }
    }
    None
}

/// Appends `rule` under the path the components spell, per [`add_rule`].
fn attach_rule(rules: &mut Vec<(Selector, Vec<Rule>)>, comps: &Vec<String>, rule: Rule)
    requires
        comps@.len() >= 1,
    ensures
        rules_model(final(rules)@) == add_rule(
            rules_model(old(rules)@),
            comps_model(comps@),
            rule@,
        ),
{
    let ghost rm0 = rules_model(rules@);
    let ghost path = comps_model(comps@);
    let ghost rulem = rule@;
    proof {
        assert(forall|i: int|
            0 <= i < rules@.len() ==> rm0[i] == (#[trigger] rules@[i].0@, rules@[i].1@.map_values(
                |r: Rule| r@,
            )));
    }
    let n = comps.len();
    match find_entry(rules, comps) {
        Some(i) => {
            proof {
                lemma_rule_idx(rm0, path);
            }
            let ghost pre = rules@;
            let mut entry = rules.remove(i);
            let ghost entry_rules_pre = entry.1@;
            entry.1.push(rule);
            let ghost entry_snap = entry;
            proof {
                assert(entry.1@.map_values(|r: Rule| r@) =~= entry_rules_pre.map_values(
                    |r: Rule| r@,
                ).push(rulem));
            }
            rules.insert(i, entry);
            proof {
                assert(rules@.len() == pre.len());
                assert forall|j: int| 0 <= j < rules@.len() implies rules@[j] == pre.update(
                    i as int,
                    entry_snap,
                )[j] by {
                    if j < i {
                        assert(pre.remove(i as int)[j] == pre[j]);
                        assert(rules@[j] == pre.remove(i as int)[j]);
                    } else if j == i {
                        assert(rules@[j] == entry_snap);
                    } else {
                        assert(pre.remove(i as int)[j - 1] == pre[j]);
                        assert(rules@[j] == pre.remove(i as int)[j - 1]);
                    }
                }
                assert(rules@ =~= pre.update(i as int, entry_snap));
                let ghost target = rm0.update(i as int, (path, rm0[i as int].1.push(rulem)));
                assert forall|j: int| 0 <= j < rules@.len() implies rules_model(rules@)[j]
                    == target[j] by {
                    assert(rules_model(rules@)[j] == (rules@[j].0@, rules@[j].1@.map_values(
                        |r: Rule| r@,
                    )));
                    if j == i {
                        assert(rules@[j] == entry_snap);
                        assert(entry_snap.0 == pre[i as int].0);
                        assert(rm0[i as int] == (pre[i as int].0@, pre[i as int].1@.map_values(
                            |r: Rule| r@,
                        )));
                        assert(entry_snap.1@.map_values(|r: Rule| r@) == rm0[i as int].1.push(
                            rulem,
                        ));
                    } else {
                        assert(rules@[j] == pre[j]);
                        assert(rm0[j] == (pre[j].0@, pre[j].1@.map_values(|r: Rule| r@)));
                    }
                }
                assert(rules_model(rules@) =~= target);
            }
        }
        None => {
            let sel = selector_from(comps, n);
            let mut rv: Vec<Rule> = Vec::new();
            rv.push(rule);
            rules.push((sel, rv));
            proof {
                assert(rv@.map_values(|r: Rule| r@) =~= seq![rulem]);
                assert(path.take(n as int) =~= path);
                assert(sel@ == path);
                assert(rules_model(rules@) =~~= rm0.push((path, seq![rulem])));
            }
        }
    }
}

/// Commits the pending identifier as a selector component, per
/// [`commit_path`].
fn commit_comp(
    comps: &mut Vec<String>,
    pending: Option<String>,
    line_indent: usize,
    line_committed: bool,
    sassy: bool,
)
    ensures
        comps_model(final(comps)@) == commit_path(
            comps_model(old(comps)@),
            pend_model(pending),
            line_indent as int,
            line_committed,
            sassy,
        ),
{
    let ghost pre = comps@;
    match pending {
        Some(n) => {
            let ghost nm = n@;
            if sassy && !line_committed && line_indent < comps.len() {
                comps.truncate(line_indent);
                proof {
                    assert(comps@ =~= pre.take(line_indent as int));
                    assert(comps_model(comps@) =~= comps_model(pre).take(line_indent as int));
                }
            }
            let ghost base = comps@;
            comps.push(n);
            proof {
                assert(comps_model(comps@) =~= comps_model(base).push(nm));
            }
        }
        None => {}
    }
}


/// Appends a copy of `t` to the value buffer.
fn push_tok(vbuf: &mut Vec<Token>, t: &Token)
    ensures
        toks_model(final(vbuf)@) == toks_model(old(vbuf)@).push(t@),
{
    let ghost pre = vbuf@;
    vbuf.push(t.duplicate());
    proof {
        assert(toks_model(vbuf@) =~= toks_model(pre).push(t@));
    }
}

/// Ends the active declaration: the collected value tokens go through
/// the value grammar and the rule is attached under the open path.
fn finalize_x(
    rules: &mut Vec<(Selector, Vec<Rule>)>,
    comps: &Vec<String>,
    prop: Property,
    vbuf: &Vec<Token>,
) -> (r: Result<(), Error>)
    requires
        comps@.len() >= 1,
    ensures
        ({
            let sub = (match prop {
                Property::Background(bp) => bp,
            });
            match bg::bg_value_spec(sub, toks_model(vbuf@)) {
                Some(v) => r is Ok && rules_model(final(rules)@) == add_rule(
                    rules_model(old(rules)@),
                    comps_model(comps@),
                    (prop, ValueModel::Background(v)),
                ),
                None => r is Err && r->Err_0 == Error::InvalidValue && final(rules)@ == old(
                    rules,
                )@,
            }
        }),
{
    let sub = (match prop {
        Property::Background(bp) => bp,
    });
    match bg::parse(&sub, vbuf) {
        Ok(v) => {
            let rule = Rule { property: prop, value: Value::Background(v) };
            attach_rule(rules, comps, rule);
            Ok(())
        }
        Err(_) => Err(Error::InvalidValue),
    }
}

impl Asset {
    /// Parses a token sequence under the chosen syntax, exactly as
    /// [`parse_tokens_spec`] describes; `name` becomes the asset's name.
    pub fn from_tokens(name: &str, tokens: &Tokens, sassy: bool) -> (r: Result<Asset, Error>)
        ensures
            match parse_tokens_spec(tokens@, sassy) {
                Ok(rules) => r is Ok && r->Ok_0@.rules == rules && r->Ok_0@.name == name@,
                Err(e) => r is Err && r->Err_0 == e,
            },
    {
        let ghost tm = tokens@;
        let mut comps: Vec<String> = Vec::new();
        let mut pending: Option<String> = None;
        let mut append: bool = false;
        let mut depth: usize = 0;
        let mut line_indent: usize = 0;
        let mut line_committed: bool = false;
        let mut prop: Option<Property> = None;
        let mut vbuf: Vec<Token> = Vec::new();
        let mut rules: Vec<(Selector, Vec<Rule>)> = Vec::new();
        let mut i: usize = 0;
        proof {
            assert(tm.take(0) =~= Seq::<TokenModel>::empty());
            assert(comps_model(comps@) =~= Seq::<Seq<char>>::empty());
            assert(toks_model(vbuf@) =~= Seq::<TokenModel>::empty());
            assert(rules_model(rules@) =~= Seq::<(Seq<Seq<char>>, Seq<RuleModel>)>::empty());
        }
        let n = tokens.len();
        while i < n
            invariant
                0 <= i <= n,
                n == tm.len(),
                tm == tokens@,
                depth <= i,
                line_indent <= i,
                parse_from(parse_init(), tm.take(i as int), sassy) == Ok::<ParseModel, Error>(
                    ParseModel {
                        path: comps_model(comps@),
                        pending: pend_model(pending),
                        append,
                        depth: depth as int,
                        line_indent: line_indent as int,
                        line_committed,
                        prop,
                        vbuf: toks_model(vbuf@),
                        rules: rules_model(rules@),
                    },
                ),
                prop is Some ==> comps@.len() >= 1,
            decreases n - i,
        {
            let ghost st = ParseModel {
                path: comps_model(comps@),
                pending: pend_model(pending),
                append,
                depth: depth as int,
                line_indent: line_indent as int,
                line_committed,
                prop,
                vbuf: toks_model(vbuf@),
                rules: rules_model(rules@),
            };
            proof {
                assert(tm.take(i + 1).drop_last() =~= tm.take(i as int));
                assert(tm.take(i + 1).last() == tm[i as int]);
                reveal_strlit("{");
                reveal_strlit("}");
                reveal_strlit(";");
                reveal_strlit(":");
            }
            let t = tokens.get(i);
            match prop {
                Some(p) => {
                    if sassy {
                        match t {
                            Token::Indent(crate::lex::Indent::NewLine) => {
                                match finalize_x(&mut rules, &comps, p, &vbuf) {
                                    Ok(_u) => {
                                        prop = None;
                                        vbuf = Vec::new();
                                        line_indent = 0;
                                        line_committed = false;
                                        proof {
                                            assert(toks_model(vbuf@)
                                                =~= Seq::<TokenModel>::empty());
                                        }
                                    }
                                    Err(e) => {
                                        proof {
                                            lemma_parse_err_extends(tm, i + 1, sassy, e);
                                        }
                                        return Err(e);
                                    }
                                }
                            }
                            Token::Indent(_) => {}
                            Token::Other(c) => {
                                if str_eq(c.as_str(), "{") || str_eq(c.as_str(), "}") {
                                    proof {
                                        lemma_parse_err_extends(
                                            tm,
                                            i + 1,
                                            sassy,
                                            Error::SyntaxError,
                                        );
                                    }
                                    return Err(Error::SyntaxError);
                                } else {
                                    push_tok(&mut vbuf, t);
                                }
                            }
                            _ => {
                                push_tok(&mut vbuf, t);
                            }
                        }
                    } else {
                        match t {
                            Token::Other(c) => {
                                if str_eq(c.as_str(), ";") {
                                    match finalize_x(&mut rules, &comps, p, &vbuf) {
                                        Ok(_u) => {
                                            prop = None;
                                            vbuf = Vec::new();
                                            proof {
                                                assert(toks_model(vbuf@)
                                                    =~= Seq::<TokenModel>::empty());
                                            }
                                        }
                                        Err(e) => {
                                            proof {
                                                lemma_parse_err_extends(tm, i + 1, sassy, e);
                                            }
                                            return Err(e);
                                        }
                                    }
                                } else if str_eq(c.as_str(), "}") {
                                    match finalize_x(&mut rules, &comps, p, &vbuf) {
                                        Ok(_u) => {
                                            prop = None;
                                            vbuf = Vec::new();
                                            proof {
                                                assert(toks_model(vbuf@)
                                                    =~= Seq::<TokenModel>::empty());
                                            }
                                            if depth == 0 {
                                                proof {
                                                    lemma_parse_err_extends(
                                                        tm,
                                                        i + 1,
                                                        sassy,
                                                        Error::SyntaxError,
                                                    );
                                                }
                                                return Err(Error::SyntaxError);
                                            }
                                            depth = depth - 1;
                                            if comps.len() > 0 {
                                                let ghost cpre = comps@;
                                                let _last = comps.pop();
                                                proof {
                                                    assert(comps_model(comps@) =~= comps_model(
                                                        cpre,
                                                    ).drop_last());
                                                }
                                            }
                                            pending = None;
                                            append = false;
                                        }
                                        Err(e) => {
                                            proof {
                                                lemma_parse_err_extends(tm, i + 1, sassy, e);
                                            }
                                            return Err(e);
                                        }
                                    }
                                } else {
                                    push_tok(&mut vbuf, t);
                                }
                            }
                            _ => {
                                push_tok(&mut vbuf, t);
                            }
                        }
                    }
                }
                None => {
                    match t {
                        Token::Identifier(nm) => {
                            if append {
                                let mut joined = (match pending {
                                    Some(pv) => pv,
                                    None => String::new(),
                                });
                                joined.append(":");
                                joined.append(nm.as_str());
                                pending = Some(joined);
                                append = false;
                                proof {
                                    assert(":"@ =~= seq![':']);
                                }
                            } else {
                                let had = pending.is_some();
                                let pv = pending;
                                pending = None;
                                commit_comp(&mut comps, pv, line_indent, line_committed, sassy);
                                if had {
                                    line_committed = true;
                                }
                                pending = Some(nm.clone());
                            }
                        }
                        Token::Other(c) => {
                            if sassy && (str_eq(c.as_str(), "{") || str_eq(c.as_str(), "}")) {
                                proof {
                                    lemma_parse_err_extends(tm, i + 1, sassy, Error::SyntaxError);
                                }
                                return Err(Error::SyntaxError);
                            } else if !sassy && str_eq(c.as_str(), "{") {
                                let had = pending.is_some();
                                let pv = pending;
                                pending = None;
                                commit_comp(&mut comps, pv, line_indent, line_committed, sassy);
                                if had {
                                    line_committed = true;
                                }
                                append = false;
                                depth = depth + 1;
                            } else if !sassy && str_eq(c.as_str(), "}") {
                                if depth == 0 {
                                    proof {
                                        lemma_parse_err_extends(
                                            tm,
                                            i + 1,
                                            sassy,
                                            Error::SyntaxError,
                                        );
                                    }
                                    return Err(Error::SyntaxError);
                                }
                                depth = depth - 1;
                                if comps.len() > 0 {
                                    let ghost cpre = comps@;
                                    let _last = comps.pop();
                                    proof {
                                        assert(comps_model(comps@) =~= comps_model(
                                            cpre,
                                        ).drop_last());
                                    }
                                }
                                pending = None;
                                append = false;
                            } else if str_eq(c.as_str(), ":") {
                                let at_top = if sassy {
                                    line_indent == 0
                                } else {
                                    depth == 0
                                };
                                if at_top {
                                    append = true;
                                } else {
                                    match &pending {
                                        Some(pn) => {
                                            match Property::from_str(pn.as_str()) {
                                                Ok(propv) => {
                                                    if comps.len() >= 1 {
                                                        prop = Some(propv);
                                                        pending = None;
                                                        vbuf = Vec::new();
                                                        proof {
                                                            assert(toks_model(vbuf@)
                                                                =~= Seq::<TokenModel>::empty());
                                                        }
                                                    } else {
                                                        proof {
                                                            lemma_parse_err_extends(
                                                                tm,
                                                                i + 1,
                                                                sassy,
                                                                Error::SyntaxError,
                                                            );
                                                        }
                                                        return Err(Error::SyntaxError);
                                                    }
                                                }
                                                Err(_) => {
                                                    proof {
                                                        lemma_parse_err_extends(
                                                            tm,
                                                            i + 1,
                                                            sassy,
                                                            Error::InvalidProperty,
                                                        );
                                                    }
                                                    return Err(Error::InvalidProperty);
                                                }
                                            }
                                        }
                                        None => {
                                            proof {
                                                lemma_parse_err_extends(
                                                    tm,
                                                    i + 1,
                                                    sassy,
                                                    Error::SyntaxError,
                                                );
                                            }
                                            return Err(Error::SyntaxError);
                                        }
                                    }
                                }
                            } else {
                                // punctuation with no structural meaning
                            }
                        }
                        Token::Indent(crate::lex::Indent::NewLine) => {
                            if sassy {
                                let had = pending.is_some();
                                let pv = pending;
                                pending = None;
                                commit_comp(&mut comps, pv, line_indent, line_committed, sassy);
                                if had {
                                    line_committed = true;
                                }
                                line_indent = 0;
                                line_committed = false;
                                append = false;
                            }
                        }
                        Token::Indent(crate::lex::Indent::Tab) => {
                            if sassy && pending.is_none() && !line_committed {
                                line_indent = line_indent + 1;
                            }
                        }
                        _ => {}
                    }
                }
            }
            proof {
                assert(parse_step(st, tm[i as int], sassy) == Ok::<ParseModel, Error>(
                    ParseModel {
                        path: comps_model(comps@),
                        pending: pend_model(pending),
                        append,
                        depth: depth as int,
                        line_indent: line_indent as int,
                        line_committed,
                        prop,
                        vbuf: toks_model(vbuf@),
                        rules: rules_model(rules@),
                    },
                ));
            }
            i += 1;
        }
        proof {
            assert(tm.take(n as int) =~= tm);
        }
        match prop {
            Some(p) => {
                match finalize_x(&mut rules, &comps, p, &vbuf) {
                    Ok(_u) => {
                        prop = None;
                    }
                    Err(e) => {
                        return Err(e);
                    }
                }
            }
            None => {}
        }
        let pv = pending;
        commit_comp(&mut comps, pv, line_indent, line_committed, sassy);
        if !sassy && depth != 0 {
            return Err(Error::SyntaxError);
        }
        Ok(Asset { name: name.to_owned(), rules })
    }
}


/// The lexing configuration for stylesheet source (see
/// [`style_mode_ok`]).
pub fn style_mode(sassy: bool) -> (m: Mode)
    ensures
        style_mode_ok(m, sassy),
{
    let schars = vec!['$', '-'];
    proof {
        assert(schars@ =~= seq!['$', '-']);
    }
    Mode {
        strict_literals: false,
        indents: if sassy {
            IndentMode::strong()
        } else {
            IndentMode::min()
        },
        schar_identp: true,
        schar_vals: Some(schars),
    }
}

impl Asset {
    /// Parses stylesheet source text: it is lexed under the stylesheet
    /// mode for the chosen syntax and the tokens are parsed, exactly as
    /// [`parse_source_spec`] describes. `name` becomes the asset's name.
    pub fn parse(name: &str, src: &str, sassy: bool) -> (r: Result<Asset, Error>)
        ensures
            forall|m: Mode|
                #[trigger] style_mode_ok(m, sassy) ==> (match parse_source_spec(src@, m, sassy) {
                    Ok(rules) => r is Ok && r->Ok_0@.rules == rules && r->Ok_0@.name == name@,
                    Err(e) => r is Err && r->Err_0 == e,
                }),
    {
        let m0 = style_mode(sassy);
        let r = (match crate::lex::tokenize(src, &m0) {
            Ok(toks) => Self::from_tokens(name, &toks, sassy),
            Err(_) => Err(Error::Unknown),
        });
        proof {
            assert forall|m: Mode| #[trigger] style_mode_ok(m, sassy) implies (
            match parse_source_spec(src@, m, sassy) {
                Ok(rules) => r is Ok && r->Ok_0@.rules == rules && r->Ok_0@.name == name@,
                Err(e) => r is Err && r->Err_0 == e,
            }) by {
                lemma_lex_mode_eq(crate::lex::init_state(), src@, m, m0);
                assert(lex_spec(src@, m) == lex_spec(src@, m0));
            }
        }
        r
    }
}

} // verus!
