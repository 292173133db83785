//! Tokens are opaque pieces of text. Contracts speak of a token as the
//! sequence of its characters, and of a token list as a sequence of those.

use vstd::prelude::*;
use vstd::utf8::encode_utf8;
use vstd::utf8::encode_utf8_decode_utf8;

verus! {

/// The characters of each token of a list, in order.
pub open spec fn tokens_view(tokens: Seq<String>) -> Seq<Seq<char>> {
    Seq::new(tokens.len(), |i: int| tokens[i]@)
}

/// Appending a token to a list appends its characters to the view.
pub proof fn lemma_tokens_view_push(tokens: Seq<String>, token: String)
    ensures
        tokens_view(tokens.push(token)) == tokens_view(tokens).push(token@),
{
}

/// The position of the first token equal to `wanted` at or after `from`,
/// or the length of the list when there is none.
pub open spec fn first_index_of(tokens: Seq<Seq<char>>, wanted: Seq<char>, from: int) -> int
    decreases tokens.len() - from,
{
    if from >= tokens.len() {
        tokens.len() as int
    } else if from >= 0 && tokens[from] == wanted {
        from
    } else {
        first_index_of(tokens, wanted, from + 1)
    }
}

/// `first_index_of` returns a position in range that holds the token, with
/// no occurrence before it.
pub proof fn lemma_first_index_of(tokens: Seq<Seq<char>>, wanted: Seq<char>, from: int)
    requires
        0 <= from <= tokens.len(),
    ensures
        from <= first_index_of(tokens, wanted, from) <= tokens.len(),
        first_index_of(tokens, wanted, from) < tokens.len() ==> tokens[first_index_of(
            tokens,
            wanted,
            from,
        )] == wanted,
        forall|k: int| from <= k < first_index_of(tokens, wanted, from) ==> tokens[k] != wanted,
    decreases tokens.len() - from,
{
    if from < tokens.len() && tokens[from] != wanted {
        lemma_first_index_of(tokens, wanted, from + 1);
    }
}

/// The tokens that shape a scan are six different texts.
pub proof fn lemma_structural_tokens_differ()
    ensures
        "{"@ != "}"@,
        "{"@ != "("@,
        "{"@ != ")"@,
        "{"@ != "#"@,
        "{"@ != "EOL"@,
        "}"@ != "("@,
        "}"@ != ")"@,
        "}"@ != "#"@,
        "}"@ != "EOL"@,
        "("@ != ")"@,
        "("@ != "#"@,
        "("@ != "EOL"@,
        ")"@ != "#"@,
        ")"@ != "EOL"@,
        "#"@ != "EOL"@,
{
    reveal_strlit("{");
    reveal_strlit("}");
    reveal_strlit("(");
    reveal_strlit(")");
    reveal_strlit("#");
    reveal_strlit("EOL");
    assert("{"@[0] == '{' && "}"@[0] == '}' && "("@[0] == '(' && ")"@[0] == ')' && "#"@[0] == '#');
    assert("{"@.len() == 1 && "}"@.len() == 1 && "("@.len() == 1 && ")"@.len() == 1 && "#"@.len()
        == 1);
}

/// Whether two pieces of text hold the same characters.
pub fn same_text(a: &str, b: &str) -> (same: bool)
    ensures
        same == (a@ == b@),
{
    let x = a.as_bytes();
    let y = b.as_bytes();
    proof {
        encode_utf8_decode_utf8(a@);
        encode_utf8_decode_utf8(b@);
    }
    if x.len() != y.len() {
        return false;
    }
    let mut k: usize = 0;
    while k < x.len()
        invariant
            k <= x.len(),
            x.len() == y.len(),
            x@ == encode_utf8(a@),
            y@ == encode_utf8(b@),
            forall|m: int| 0 <= m < k ==> x@[m] == y@[m],
        decreases x.len() - k,
    {
        if x[k] != y[k] {
            return false;
        }
        k += 1;
    }
    assert(x@ =~= y@);
    true
}

/// Whether a token is exactly the given text.
pub fn token_is(token: &String, text: &str) -> (same: bool)
    ensures
        same == (token@ == text@),
{
    same_text(token.as_str(), text)
}

/// Whether the token has a first character and it is `c`.
pub fn starts_with(token: &String, c: char) -> (found: bool)
    ensures
        found == (token@.len() > 0 && token@[0] == c),
{
    let s = token.as_str();
    !s.is_empty() && s.get_char(0) == c
}

/// Whether the token has a first character and it is an ASCII digit.
pub fn starts_with_digit(token: &String) -> (found: bool)
    ensures
        found == (token@.len() > 0 && is_digit(token@[0])),
{
    let s = token.as_str();
    !s.is_empty() && is_digit(s.get_char(0))
}

/// Whether `c` is one of the ten ASCII digits.
#[verifier::when_used_as_spec(spec_is_digit)]
pub fn is_digit(c: char) -> (digit: bool)
    ensures
        digit == spec_is_digit(c),
{
    c >= '0' && c <= '9'
}

/// Whether `c` is one of the ten ASCII digits.
pub open spec fn spec_is_digit(c: char) -> bool {
    '0' <= c && c <= '9'
}

/// Appends copies of the tokens at positions `from..to` to `copy`.
pub fn append_range(copy: &mut Vec<String>, tokens: &Vec<String>, from: usize, to: usize)
    requires
        from <= to <= tokens.len(),
    ensures
        tokens_view(final(copy)@) == tokens_view(old(copy)@) + tokens_view(tokens@).subrange(
            from as int,
            to as int,
        ),
{
    let ghost before = tokens_view(copy@);
    let mut k: usize = from;
    while k < to
        invariant
            from <= k <= to <= tokens.len(),
            tokens_view(copy@) == before + tokens_view(tokens@).subrange(from as int, k as int),
        decreases to - k,
    {
        let ghost earlier = copy@;
        copy.push(tokens[k].clone());
        proof {
            lemma_tokens_view_push(earlier, copy@.last());
            assert(tokens_view(copy@) =~= before + tokens_view(tokens@).subrange(
                from as int,
                k + 1,
            ));
        }
        k += 1;
    }
}

/// A copy of the tokens at positions `from..to`.
pub fn copy_range(tokens: &Vec<String>, from: usize, to: usize) -> (copy: Vec<String>)
    requires
        from <= to <= tokens.len(),
    ensures
        tokens_view(copy@) == tokens_view(tokens@).subrange(from as int, to as int),
        copy.len() == to - from,
{
    let mut copy: Vec<String> = Vec::new();
    append_range(&mut copy, tokens, from, to);
    copy
}

/// The position of the first token equal to `wanted` at or after `from`,
/// or the length of the list when there is none.
pub fn find_token(tokens: &Vec<String>, wanted: &str, from: usize) -> (at: usize)
    requires
        from <= tokens.len(),
    ensures
        at == first_index_of(tokens_view(tokens@), wanted@, from as int),
        from <= at <= tokens.len(),
{
    let mut k: usize = from;
    while k < tokens.len()
        invariant
            from <= k <= tokens.len(),
            first_index_of(tokens_view(tokens@), wanted@, from as int) == first_index_of(
                tokens_view(tokens@),
                wanted@,
                k as int,
            ),
        decreases tokens.len() - k,
    {
        if token_is(&tokens[k], wanted) {
            return k;
        }
        k += 1;
    }
    k
}

} // verus!
