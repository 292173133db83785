//! Which construct begins at a position: the rule table of the dispatch loop.
//! The first rule that applies wins.

use vstd::prelude::*;
use crate::token::find_token;
use crate::token::lemma_first_index_of;
use crate::token::spec_is_digit;
use crate::token::starts_with;
use crate::token::starts_with_digit;
use crate::token::token_is;
use crate::token::tokens_view;

verus! {

/// How `has` combines what it finds.
pub enum Mode {
    /// One of the things is enough.
    OR,
    /// All of the things are needed.
    AND,
}

/// The construct that begins at a position.
#[derive(Debug, Clone, Copy, PartialEq, Eq, Structural)]
pub enum Construct {
    /// A `#`: the rest of the line is skipped.
    Comment,
    /// An `EOL`: a separator that stands for nothing.
    Separator,
    /// `include` or `return`.
    Statement,
    /// `true` or `false`.
    Boolean,
    /// `let`.
    Let,
    /// `const`.
    Const,
    /// `if` or `else`.
    Conditional,
    /// `while`.
    While,
    /// `match`.
    Match,
    /// `struct`.
    Struct,
    /// `fun`.
    Function,
    /// A call: the line holds both `(` and `)`.
    Call,
    /// Arithmetic or a comparison: the line holds an operator.
    Arithmetic,
    /// A string literal.
    Text,
    /// A number literal.
    Number,
    /// None of these: the token is dropped.
    Nothing,
}

/// The text of each of `things`.
pub open spec fn texts_view(things: Seq<&str>) -> Seq<Seq<char>> {
    Seq::new(things.len(), |k: int| things[k]@)
}

/// Every one of `things` occurs in `data`.
pub open spec fn has_all(data: Seq<Seq<char>>, things: Seq<Seq<char>>) -> bool {
    forall|k: int| 0 <= k < things.len() ==> data.contains(#[trigger] things[k])
}

/// At least one of `things` occurs in `data`.
pub open spec fn has_any(data: Seq<Seq<char>>, things: Seq<Seq<char>>) -> bool {
    exists|k: int| 0 <= k < things.len() && data.contains(#[trigger] things[k])
}

/// The operators of arithmetic and comparison.
pub open spec fn operators() -> Seq<Seq<char>> {
    seq!["+"@, "-"@, "*"@, "/"@, ">"@, "<"@, "<="@, ">="@]
}

/// Whether a token is an operator of arithmetic or comparison.
pub open spec fn is_operator(t: Seq<char>) -> bool {
    t == "+"@ || t == "-"@ || t == "*"@ || t == "/"@ || t == ">"@ || t == "<"@ || t == "<="@ || t
        == ">="@
}

/// The rule table. `text` is the token at the position and `flat` what the
/// scan to the end of the line read outside blocks.
pub open spec fn classification(text: Seq<char>, flat: Seq<Seq<char>>) -> Construct {
    if text == "#"@ {
        Construct::Comment
    } else if text == "EOL"@ {
        Construct::Separator
    } else if text == "include"@ || text == "return"@ {
        Construct::Statement
    } else if text == "true"@ || text == "false"@ {
        Construct::Boolean
    } else if text == "let"@ {
        Construct::Let
    } else if text == "const"@ {
        Construct::Const
    } else if text == "if"@ || text == "else"@ {
        Construct::Conditional
    } else if text == "while"@ {
        Construct::While
    } else if text == "match"@ {
        Construct::Match
    } else if text == "struct"@ {
        Construct::Struct
    } else if text == "fun"@ {
        Construct::Function
    } else if flat.contains("("@) && flat.contains(")"@) {
        Construct::Call
    } else if exists|k: int| 0 <= k < flat.len() && is_operator(#[trigger] flat[k]) {
        Construct::Arithmetic
    } else if text.len() > 0 && text[0] == '"' {
        Construct::Text
    } else if text.len() > 0 && spec_is_digit(text[0]) {
        Construct::Number
    } else {
        Construct::Nothing
    }
}

/// Whether `data` holds a token equal to `thing`.
pub fn holds(data: &Vec<String>, thing: &str) -> (found: bool)
    ensures
        found == tokens_view(data@).contains(thing@),
{
    let at = find_token(data, thing, 0);
    proof {
        lemma_first_index_of(tokens_view(data@), thing@, 0);
    }
    at < data.len()
}

/// Whether `data` holds all of `things` (`Mode::AND`) or one of them
/// (`Mode::OR`).
pub fn has(data: &Vec<String>, things: Vec<&str>, mode: Mode) -> (found: bool)
    ensures
        found == match mode {
            Mode::AND => has_all(tokens_view(data@), texts_view(things@)),
            Mode::OR => has_any(tokens_view(data@), texts_view(things@)),
        },
{
    let ghost tokens = tokens_view(data@);
    let ghost texts = texts_view(things@);
    match mode {
        Mode::AND => {
            let mut k: usize = 0;
            while k < things.len()
                invariant
                    k <= things.len(),
                    tokens == tokens_view(data@),
                    texts == texts_view(things@),
                    mode is AND,
                    forall|m: int| 0 <= m < k ==> tokens.contains(#[trigger] texts[m]),
                decreases things.len() - k,
            {
                if !holds(data, things[k]) {
                    assert(!tokens.contains(texts[k as int]));
                    return false;
                }
                k += 1;
            }
            true
        },
        Mode::OR => {
            let mut k: usize = 0;
            while k < things.len()
                invariant
                    k <= things.len(),
                    tokens == tokens_view(data@),
                    texts == texts_view(things@),
                    mode is OR,
                    forall|m: int| 0 <= m < k ==> !tokens.contains(#[trigger] texts[m]),
                decreases things.len() - k,
            {
                if holds(data, things[k]) {
                    assert(tokens.contains(texts[k as int]));
                    return true;
                }
                k += 1;
            }
            false
        },
    }
}

/// An occurrence of one of the operators is an operator token, and back.
pub proof fn lemma_has_any_operator(flat: Seq<Seq<char>>)
    ensures
        has_any(flat, operators()) == (exists|k: int|
            0 <= k < flat.len() && is_operator(#[trigger] flat[k])),
{
    let ops = operators();
    if has_any(flat, ops) {
        let k = choose|k: int| 0 <= k < ops.len() && flat.contains(#[trigger] ops[k]);
        let at = choose|i: int| 0 <= i < flat.len() && flat[i] == ops[k];
        assert(is_operator(flat[at]));
    }
    if exists|k: int| 0 <= k < flat.len() && is_operator(#[trigger] flat[k]) {
        let at = choose|k: int| 0 <= k < flat.len() && is_operator(#[trigger] flat[k]);
        let t = flat[at];
        assert(flat.contains(t));
        let k = if t == "+"@ {
            0int
        } else if t == "-"@ {
            1
        } else if t == "*"@ {
            2
        } else if t == "/"@ {
            3
        } else if t == ">"@ {
            4
        } else if t == "<"@ {
            5
        } else if t == "<="@ {
            6
        } else {
            7
        };
        assert(ops[k] == t);
    }
}

/// Decides which construct begins at a token, given what the scan to the end
/// of the line read outside blocks.
pub fn classify(text: &String, flat: &Vec<String>) -> (kind: Construct)
    ensures
        kind == classification(text@, tokens_view(flat@)),
{
    let parens = vec!["(", ")"];
    let signs = vec!["+", "-", "*", "/", ">", "<", "<=", ">="];
    proof {
        let tokens = tokens_view(flat@);
        lemma_has_any_operator(tokens);
        assert(texts_view(parens@) =~= seq!["("@, ")"@]);
        assert(texts_view(signs@) =~= operators());
        assert(has_all(tokens, seq!["("@, ")"@]) == (tokens.contains("("@) && tokens.contains(
            ")"@,
        ))) by {
            let both = seq!["("@, ")"@];
            assert(both[0] == "("@ && both[1] == ")"@);
        }
    }
    if token_is(text, "#") {
        Construct::Comment
    } else if token_is(text, "EOL") {
        Construct::Separator
    } else if token_is(text, "include") || token_is(text, "return") {
        Construct::Statement
    } else if token_is(text, "true") || token_is(text, "false") {
        Construct::Boolean
    } else if token_is(text, "let") {
        Construct::Let
    } else if token_is(text, "const") {
        Construct::Const
    } else if token_is(text, "if") || token_is(text, "else") {
        Construct::Conditional
    } else if token_is(text, "while") {
        Construct::While
    } else if token_is(text, "match") {
        Construct::Match
    } else if token_is(text, "struct") {
        Construct::Struct
    } else if token_is(text, "fun") {
        Construct::Function
    } else if has(flat, parens, Mode::AND) {
        Construct::Call
    } else if has(flat, signs, Mode::OR) {
        Construct::Arithmetic
    } else if starts_with(text, '"') {
        Construct::Text
    } else if starts_with_digit(text) {
        Construct::Number
    } else {
        Construct::Nothing
    }
}

/// Whether a token is one that a rule of its own stands for: the comment
/// sign, the line end or a keyword.
pub open spec fn has_own_rule(text: Seq<char>) -> bool {
    text == "#"@ || text == "EOL"@ || text == "include"@ || text == "return"@ || text == "true"@
        || text == "false"@ || text == "let"@ || text == "const"@ || text == "if"@ || text
        == "else"@ || text == "while"@ || text == "match"@ || text == "struct"@ || text == "fun"@
}

/// Dispatch priority: where no keyword rule applies, a line that holds both
/// parentheses is a call, whatever operators it holds besides.
pub proof fn lemma_call_before_arithmetic(text: Seq<char>, flat: Seq<Seq<char>>)
    requires
        !has_own_rule(text),
        flat.contains("("@),
        flat.contains(")"@),
    ensures
        classification(text, flat) == Construct::Call,
{
}

} // verus!
