use vstd::prelude::*;
use vstd::string::{StrSliceExecFns, StringExecFns};

use crate::error::{Fault, ParseError};
use crate::grammar::lemma_host_form;
use crate::token::{lemma_trees, trees, Delimiter, Spacing, Token, TokenTree};


verus! {

broadcast use vstd::seq::group_seq_axioms;

#[verifier::external_type_specification]
#[verifier::external_body]
pub struct ExHostStream(proc_macro2::TokenStream);

/// Whether `c` has the Unicode property XID_Start.
pub uninterp spec fn xid_start(c: char) -> bool;

/// Whether `c` has the Unicode property XID_Continue.
pub uninterp spec fn xid_continue(c: char) -> bool;

/// Relies on `unicode_ident::is_xid_start`: whether `c` has the Unicode
/// property XID_Start.
#[verifier::external_body]
fn is_xid_start(c: char) -> (r: bool)
    ensures
        r == xid_start(c),
{
    unicode_ident::is_xid_start(c)
}

/// Relies on `unicode_ident::is_xid_continue`: whether `c` has the Unicode
/// property XID_Continue.
#[verifier::external_body]
fn is_xid_continue(c: char) -> (r: bool)
    ensures
        r == xid_continue(c),
{
    unicode_ident::is_xid_continue(c)
}

/// Whether `s` is an identifier: `_` or an XID_Start character, then
/// XID_Continue characters.
pub open spec fn ident_ok(s: Seq<char>) -> bool {
    &&& s.len() > 0
    &&& (s[0] == '_' || xid_start(s[0]))
    &&& forall|i: int| 1 <= i < s.len() ==> xid_continue(#[trigger] s[i])
}

/// Whether `s` is the text of an identifier the host can build: an
/// identifier, or `r#` and an identifier that may be raw.
pub open spec fn ident_form(s: Seq<char>) -> bool {
    if s.len() >= 2 && s[0] == 'r' && s[1] == '#' {
        let name = s.skip(2);
        &&& ident_ok(name)
        &&& name != "_"@
        &&& name != "super"@
        &&& name != "self"@
        &&& name != "Self"@
        &&& name != "crate"@
    } else {
        ident_ok(s)
    }
}

/// Whether `c` is a punctuation character the host can build.
pub open spec fn punct_form(c: char) -> bool {
    c == '!' || c == '#' || c == '$' || c == '%' || c == '&' || c == '\'' || c == '*' || c == '+'
        || c == ',' || c == '-' || c == '.' || c == '/' || c == ':' || c == ';' || c == '<' || c
        == '=' || c == '>' || c == '?' || c == '@' || c == '^' || c == '|' || c == '~'
}

/// Whether the host can build the token tree `t`.
pub open spec fn tree_form(t: TokenTree) -> bool
    decreases t,
{
    match t {
        TokenTree::Ident(s) => ident_form(s),
        TokenTree::Punct(c, _) => punct_form(c),
        TokenTree::Literal(_) => true,
        TokenTree::Group(_, inner) => host_form(inner),
    }
}

/// Whether the host can build every token tree of `s`.
pub open spec fn host_form(s: Seq<TokenTree>) -> bool
    decreases s,
{
    if s.len() == 0 {
        true
    } else {
        host_form(s.drop_last()) && tree_form(s.last())
    }
}

/// Whether `s` is an identifier.
fn name_ok(s: &str) -> (r: bool)
    ensures
        r == ident_ok(s@),
{
    let n = s.unicode_len();
    if n == 0 {
        return false;
    }
    let first = s.get_char(0);
    if !(first == '_' || is_xid_start(first)) {
        return false;
    }
    let mut i: usize = 1;
    while i < n
        invariant
            1 <= i <= n,
            n == s@.len(),
            forall|j: int| 1 <= j < i ==> xid_continue(#[trigger] s@[j]),
        decreases n - i,
    {
        if !is_xid_continue(s.get_char(i)) {
            return false;
        }
        i = i + 1;
    }
    true
}

/// Whether the host can build an identifier with text `s`.
fn ident_text_ok(s: &String) -> (r: bool)
    ensures
        r == ident_form(s@),
{
    let t = s.as_str();
    let n = t.unicode_len();
    if n >= 2 && t.get_char(0) == 'r' && t.get_char(1) == '#' {
        let name = t.substring_char(2, n);
        assert(name@ == s@.skip(2));
        if !name_ok(name) {
            return false;
        }
        let owned = String::from_str(name);
        !(owned == String::from_str("_") || owned == String::from_str("super") || owned
            == String::from_str("self") || owned == String::from_str("Self") || owned
            == String::from_str("crate"))
    } else {
        name_ok(t)
    }
}

/// Whether `c` is a punctuation character the host can build.
fn punct_ok(c: char) -> (r: bool)
    ensures
        r == punct_form(c),
{
    c == '!' || c == '#' || c == '$' || c == '%' || c == '&' || c == '\'' || c == '*' || c == '+'
        || c == ',' || c == '-' || c == '.' || c == '/' || c == ':' || c == ';' || c == '<' || c
        == '=' || c == '>' || c == '?' || c == '@' || c == '^' || c == '|' || c == '~'
}

/// Whether the host can build the token.
fn tree_ok(t: &Token) -> (r: bool)
    ensures
        r == tree_form(t.tree()),
    decreases t,
{
    match t {
        Token::Ident(s) => ident_text_ok(s),
        Token::Punct(c, _) => punct_ok(*c),
        Token::Literal(_) => true,
        Token::Group(_, v) => is_host_form(v),
    }
}

/// Whether the host can build every token: identifiers as proc-macro2
/// accepts them, and its punctuation characters.
pub fn is_host_form(tokens: &Vec<Token>) -> (r: bool)
    ensures
        r == host_form(trees(tokens@)),
    decreases tokens,
{
    proof {
        lemma_trees(tokens@);
        lemma_host_form(trees(tokens@));
    }
    let mut i: usize = 0;
    while i < tokens.len()
        invariant
            i <= tokens.len(),
            trees(tokens@).len() == tokens.len(),
            forall|j: int| 0 <= j < tokens.len() ==> #[trigger] trees(tokens@)[j] == tokens@[j].tree(),
            host_form(trees(tokens@)) <==> forall|j: int|
                0 <= j < tokens.len() ==> tree_form(#[trigger] trees(tokens@)[j]),
            forall|j: int| 0 <= j < i ==> tree_form(#[trigger] trees(tokens@)[j]),
        decreases tokens.len() - i,
    {
        proof {
            assert(decreases_to!(tokens => tokens[i as int]));
        }
        if !tree_ok(&tokens[i]) {
            assert(!tree_form(trees(tokens@)[i as int]));
            return false;
        }
        i = i + 1;
    }
    true
}

/// What building a token sequence on the host and parsing it as one Rust
/// expression says: nothing when each literal text lexes and the whole
/// sequence is one expression; otherwise the literal lexer's message, or
/// the expression parser's.
pub uninterp spec fn expression_error(s: Seq<TokenTree>) -> Option<Seq<char>>;

/// Relies on proc-macro2's `Group::new`: one host group with the same
/// delimiter around `inner`.
#[verifier::external_body]
fn host_group(d: Delimiter, inner: proc_macro2::TokenStream) -> proc_macro2::TokenStream {
    let delimiter = match d {
        Delimiter::Parenthesis => proc_macro2::Delimiter::Parenthesis,
        Delimiter::Brace => proc_macro2::Delimiter::Brace,
        Delimiter::Bracket => proc_macro2::Delimiter::Bracket,
        Delimiter::Invisible => proc_macro2::Delimiter::None,
    };
    proc_macro2::TokenTree::from(proc_macro2::Group::new(delimiter, inner)).into()
}

/// Relies on proc-macro2's `Ident::new` and `Ident::new_raw`: one host
/// identifier, raw when the text starts with `r#`.
#[verifier::external_body]
fn host_ident(s: &String) -> proc_macro2::TokenStream
    requires
        ident_form(s@),
{
    let span = proc_macro2::Span::call_site();
    let ident = match s.strip_prefix("r#") {
        Some(raw) => proc_macro2::Ident::new_raw(raw, span),
        None => proc_macro2::Ident::new(s, span),
    };
    proc_macro2::TokenTree::from(ident).into()
}

/// Relies on proc-macro2's `Punct::new` and `Literal::from_str`: one host
/// token per token, or the lexer's message for a literal text that is not
/// one literal.
#[verifier::external_body]
fn host_tree(token: &Token) -> Result<proc_macro2::TokenStream, String>
    requires
        tree_form(token.tree()),
{
    let tree: proc_macro2::TokenTree = match token {
        Token::Ident(s) => return Ok(host_ident(s)),
        Token::Punct(c, Spacing::Alone) => proc_macro2::Punct::new(*c, proc_macro2::Spacing::Alone).into(),
        Token::Punct(c, _) => proc_macro2::Punct::new(*c, proc_macro2::Spacing::Joint).into(),
        Token::Literal(s) => s.parse::<proc_macro2::Literal>().map_err(|e| e.to_string())?.into(),
        Token::Group(d, inner) => return Ok(host_group(*d, host_stream(inner)?)),
    };
    Ok(tree.into())
}

/// Relies on proc-macro2's `TokenStream::from_iter`: the host tokens in order.
#[verifier::external_body]
fn host_stream(tokens: &Vec<Token>) -> Result<proc_macro2::TokenStream, String>
    requires
        host_form(trees(tokens@)),
{
    let parts = tokens.iter().map(host_tree).collect::<Result<Vec<_>, String>>()?;
    Ok(proc_macro2::TokenStream::from_iter(parts))
}

/// Relies on `syn::parse2::<syn::Expr>` over the host tokens built one for
/// one from `tokens`: whether all of them form one expression, and syn's
/// message when they do not. Before that, each literal's own text is lexed
/// as one literal by proc-macro2's `Literal::from_str`; a text that does not
/// lex yields that lexer's message instead. No other text is lexed, so the
/// outcome depends on the token values alone.
#[verifier::external_body]
fn parse_expression(tokens: &Vec<Token>) -> (r: Option<String>)
    requires
        host_form(trees(tokens@)),
    ensures
        match r {
            Option::None => expression_error(trees(tokens@)) is None,
            Option::Some(m) => expression_error(trees(tokens@)) == Option::Some(m@),
        },
{
    match host_stream(tokens) {
        Ok(stream) => syn::parse2::<syn::Expr>(stream).err().map(|e| e.to_string()),
        Err(message) => Some(message),
    }
}

/// Whether a token sequence is one Rust expression; its fault lies at the
/// sequence's first token.
pub open spec fn expression_check(s: Seq<TokenTree>) -> Result<(), Fault> {
    match expression_error(s) {
        Option::None => Ok(()),
        Option::Some(m) => Err(Fault::Syntax { message: m, at: 0 }),
    }
}

/// Checks that the tokens form one Rust expression.
pub fn check_expression(tokens: &Vec<Token>) -> (r: Result<(), ParseError>)
    requires
        host_form(trees(tokens@)),
    ensures
        match r {
            Ok(()) => expression_check(trees(tokens@)) is Ok,
            Err(e) => expression_check(trees(tokens@)) == Err::<(), Fault>(e@),
        },
{
    match parse_expression(tokens) {
        Option::None => Ok(()),
        Option::Some(message) => Err(ParseError::Syntax { message, at: 0 }),
    }
}

} // verus!
