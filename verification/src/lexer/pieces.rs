//! Taking a line apart: the token-level steps that the construct builders
//! share.

use vstd::prelude::*;
use crate::lexer::classify::is_operator;
use crate::lexer::grammar::first_operator;
use crate::lexer::grammar::list_items;
use crate::lexer::grammar::operation_of;
use crate::lexer::grammar::strip_colon;
use crate::lexer::grammar::unglued;
use crate::lexer::grammar::without_eol;
use crate::lexer::grammar::without_eol_first;
use crate::lexer::node::Operations;
use crate::lexer::scan::scan_from;
use crate::token::lemma_tokens_view_push;
use crate::token::token_is;
use crate::token::tokens_view;

verus! {

/// The tokens of each list of a list of token lists.
pub open spec fn token_lists_view(lists: Seq<Vec<String>>) -> Seq<Seq<Seq<char>>> {
    Seq::new(lists.len(), |k: int| tokens_view(lists[k]@))
}

/// A copy of a token list with every `EOL` left out.
pub fn strip_line_ends(tokens: &Vec<String>) -> (kept: Vec<String>)
    ensures
        tokens_view(kept@) == without_eol(tokens_view(tokens@)),
        kept.len() <= tokens.len(),
{
    let ghost view = tokens_view(tokens@);
    let mut kept: Vec<String> = Vec::new();
    let mut k: usize = 0;
    while k < tokens.len()
        invariant
            k <= tokens.len(),
            view == tokens_view(tokens@),
            tokens_view(kept@) == without_eol_first(view, k as nat),
            kept.len() <= k,
        decreases tokens.len() - k,
    {
        if !token_is(&tokens[k], "EOL") {
            let ghost earlier = kept@;
            kept.push(tokens[k].clone());
            proof {
                lemma_tokens_view_push(earlier, kept@.last());
            }
        }
        k += 1;
    }
    kept
}

/// A copy of a token without the colon that ends it, if one does.
pub fn without_glued_colon(t: &String) -> (kept: String)
    ensures
        kept@ == unglued(t@),
{
    let text = t.as_str();
    let length = text.unicode_len();
    if length > 0 && text.get_char(length - 1) == ':' {
        String::from_str(text.substring_char(0, length - 1))
    } else {
        t.clone()
    }
}

/// A token list without the colon that ends it, if one does. The colon may
/// be a token of its own or the last character of the last token.
pub fn without_final_colon(mut tokens: Vec<String>) -> (kept: Vec<String>)
    ensures
        tokens_view(kept@) == strip_colon(tokens_view(tokens@)),
{
    let n = tokens.len();
    if n == 0 {
        return tokens;
    }
    if token_is(&tokens[n - 1], ":") {
        tokens.pop();
    } else {
        let last = without_glued_colon(&tokens[n - 1]);
        tokens.pop();
        tokens.push(last);
    }
    tokens
}

/// Whether a token is an operator of arithmetic or comparison.
pub fn is_operator_token(t: &String) -> (found: bool)
    ensures
        found == is_operator(t@),
{
    token_is(t, "+") || token_is(t, "-") || token_is(t, "*") || token_is(t, "/") || token_is(
        t,
        ">",
    ) || token_is(t, "<") || token_is(t, "<=") || token_is(t, ">=")
}

/// The operation that an operator token denotes.
pub fn operation_from(t: &String) -> (operation: Operations)
    ensures
        operation == operation_of(t@),
{
    if token_is(t, "+") {
        Operations::ADD
    } else if token_is(t, "-") {
        Operations::SUB
    } else if token_is(t, "*") {
        Operations::MUL
    } else if token_is(t, "/") {
        Operations::DIV
    } else if token_is(t, ">") {
        Operations::GR
    } else if token_is(t, "<") {
        Operations::LT
    } else if token_is(t, "<=") {
        Operations::EQLT
    } else if token_is(t, ">=") {
        Operations::EQGR
    } else {
        Operations::NULL
    }
}

/// The position of the first operator at or after `from`, or the length of
/// the list when there is none.
pub fn find_operator(tokens: &Vec<String>, from: usize) -> (at: usize)
    requires
        from <= tokens.len(),
    ensures
        at == first_operator(tokens_view(tokens@), from as int),
        from <= at <= tokens.len(),
{
    let mut k: usize = from;
    while k < tokens.len()
        invariant
            from <= k <= tokens.len(),
            first_operator(tokens_view(tokens@), from as int) == first_operator(
                tokens_view(tokens@),
                k as int,
            ),
        decreases tokens.len() - k,
    {
        if is_operator_token(&tokens[k]) {
            return k;
        }
        k += 1;
    }
    k
}

/// The items of a list written with `separator` between them, read from
/// position `first` on.
pub fn split_list(tokens: &Vec<String>, separator: &str, first: usize) -> (items: Vec<
    Vec<String>,
>)
    ensures
        token_lists_view(items@) == list_items(tokens_view(tokens@), separator@, first as int),
{
    let ghost view = tokens_view(tokens@);
    let mut items: Vec<Vec<String>> = Vec::new();
    let mut pos: usize = first;
    assert(token_lists_view(items@) + list_items(view, separator@, pos as int) =~= list_items(
        view,
        separator@,
        first as int,
    ));
    while pos < tokens.len()
        invariant
            view == tokens_view(tokens@),
            token_lists_view(items@) + list_items(view, separator@, pos as int) == list_items(
                view,
                separator@,
                first as int,
            ),
        decreases tokens.len() - pos,
    {
        let found = scan_from(separator, tokens, pos);
        let item = strip_line_ends(&found.1);
        let ghost rest = list_items(view, separator@, found.0 as int);
        let ghost earlier = token_lists_view(items@);
        if item.len() > 0 {
            items.push(item);
            assert(token_lists_view(items@) + rest =~= earlier + (seq![tokens_view(item@)]
                + rest));
        }
        pos = found.0;
    }
    assert(token_lists_view(items@) + Seq::<Seq<Seq<char>>>::empty() =~= token_lists_view(
        items@,
    ));
    items
}

} // verus!
