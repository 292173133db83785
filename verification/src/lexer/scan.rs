//! The segment scanner: one forward walk over a flat token list that finds
//! where a statement ends and lifts out the block it opens, if any.
//!
//! The walk is described position by position. `state_at` is what the
//! scanner remembers just before it looks at a token; `ends` says whether
//! the walk stops on that token; `goes_to_flat` and `goes_to_block` say
//! where the token is kept. `scan` puts these together.

use vstd::prelude::*;
use crate::token::lemma_structural_tokens_differ;
use crate::token::same_text;
use crate::token::token_is;
use crate::token::tokens_view;
use crate::token::lemma_tokens_view_push;

verus! {

/// What the scanner remembers between two tokens.
pub struct ScanState {
    /// Opening braces seen minus closing braces seen, outside comments.
    pub depth: int,
    /// Inside a parenthesised call that is not what the scan looks for.
    pub in_call: bool,
    /// Inside a comment, which a `#` opens and the next `EOL` closes.
    pub in_comment: bool,
}

/// The state at the first token of a scan.
pub open spec fn initial_state() -> ScanState {
    ScanState { depth: 0, in_call: false, in_comment: false }
}

/// A token of a comment: the `#` that opens it, the `EOL` that closes it and
/// all between them. Such a token ends no scan, opens or closes no block and
/// enters or leaves no call.
pub open spec fn inert(s: ScanState, t: Seq<char>) -> bool {
    s.in_comment || t == "#"@
}

/// `t` is the `EOL` that closes a comment. It is the one token of a comment
/// that is kept among the outputs.
pub open spec fn closes_comment(s: ScanState, t: Seq<char>) -> bool {
    s.in_comment && t == "EOL"@
}

/// The nesting depth once `t` is counted as a possible opening brace.
pub open spec fn depth_entering(s: ScanState, t: Seq<char>) -> int {
    if t == "{"@ {
        s.depth + 1
    } else {
        s.depth
    }
}

/// Whether `t` is read inside a suppressed call. A `(` enters one unless the
/// scan is looking for `(` itself.
pub open spec fn call_entering(s: ScanState, t: Seq<char>, terminator: Seq<char>) -> bool {
    s.in_call || (t == "("@ && terminator != "("@)
}

/// The scan stops on `t` because it is the terminator, met at depth zero
/// and outside a suppressed call.
pub open spec fn ends_on_terminator(s: ScanState, t: Seq<char>, terminator: Seq<char>) -> bool {
    &&& !inert(s, t)
    &&& t == terminator
    &&& depth_entering(s, t) == 0
    &&& !call_entering(s, t, terminator)
}

/// The scan stops on `t` because it is the brace that closes the block.
pub open spec fn ends_on_close(s: ScanState, t: Seq<char>, terminator: Seq<char>) -> bool {
    &&& !inert(s, t)
    &&& !ends_on_terminator(s, t, terminator)
    &&& t == "}"@
    &&& s.depth == 1
}

/// The scan stops on `t`.
pub open spec fn ends(s: ScanState, t: Seq<char>, terminator: Seq<char>) -> bool {
    ends_on_terminator(s, t, terminator) || ends_on_close(s, t, terminator)
}

/// `t` is kept among the flat tokens: it is read at depth zero or below. Of
/// a comment only the `EOL` that closes it is kept.
pub open spec fn goes_to_flat(s: ScanState, t: Seq<char>, terminator: Seq<char>) -> bool {
    if inert(s, t) {
        closes_comment(s, t) && s.depth <= 0
    } else {
        !ends(s, t, terminator) && depth_entering(s, t) <= 0
    }
}

/// `t` is kept among the block tokens: it is read inside the block. The
/// brace that opens the block is not part of its interior. Of a comment only
/// the `EOL` that closes it is kept.
pub open spec fn goes_to_block(s: ScanState, t: Seq<char>, terminator: Seq<char>) -> bool {
    if inert(s, t) {
        closes_comment(s, t) && s.depth > 0
    } else {
        &&& !ends(s, t, terminator)
        &&& depth_entering(s, t) > 0
        &&& !(t == "{"@ && s.depth == 0)
    }
}

/// `t` is a closing brace that the scan counts.
pub open spec fn closes(s: ScanState, t: Seq<char>, terminator: Seq<char>) -> bool {
    &&& !inert(s, t)
    &&& !ends_on_terminator(s, t, terminator)
    &&& t == "}"@
}

/// The state after `t`, for a scan that does not stop on it.
pub open spec fn advance(s: ScanState, t: Seq<char>, terminator: Seq<char>) -> ScanState {
    if inert(s, t) {
        ScanState { depth: s.depth, in_call: s.in_call, in_comment: t != "EOL"@ }
    } else {
        ScanState {
            depth: if t == "}"@ {
                depth_entering(s, t) - 1
            } else {
                depth_entering(s, t)
            },
            in_call: call_entering(s, t, terminator) && t != ")"@,
            in_comment: false,
        }
    }
}

/// The state just before the token at `j`, in a scan that began after
/// position `start`.
pub open spec fn state_at(
    tokens: Seq<Seq<char>>,
    terminator: Seq<char>,
    start: int,
    j: int,
) -> ScanState
    decreases j - start,
{
    if j <= start + 1 {
        initial_state()
    } else {
        advance(state_at(tokens, terminator, start, j - 1), tokens[j - 1], terminator)
    }
}

/// Whether the scan that began after `start` would stop on the token at `j`.
pub open spec fn ends_at(tokens: Seq<Seq<char>>, terminator: Seq<char>, start: int, j: int) -> bool {
    ends(state_at(tokens, terminator, start, j), tokens[j], terminator)
}

/// The first position at or after `j` on which the scan stops, or the first
/// position past the input.
pub open spec fn stop_from(tokens: Seq<Seq<char>>, terminator: Seq<char>, start: int, j: int) -> int
    decreases tokens.len() - j,
{
    if j >= tokens.len() {
        j
    } else if ends_at(tokens, terminator, start, j) {
        j
    } else {
        stop_from(tokens, terminator, start, j + 1)
    }
}

/// The flat tokens among the positions after `start` and before `j`.
pub open spec fn flat_before(
    tokens: Seq<Seq<char>>,
    terminator: Seq<char>,
    start: int,
    j: int,
) -> Seq<Seq<char>>
    decreases j - start,
{
    if j <= start + 1 {
        Seq::empty()
    } else {
        let earlier = flat_before(tokens, terminator, start, j - 1);
        if goes_to_flat(state_at(tokens, terminator, start, j - 1), tokens[j - 1], terminator) {
            earlier.push(tokens[j - 1])
        } else {
            earlier
        }
    }
}

/// The block tokens among the positions after `start` and before `j`.
pub open spec fn block_before(
    tokens: Seq<Seq<char>>,
    terminator: Seq<char>,
    start: int,
    j: int,
) -> Seq<Seq<char>>
    decreases j - start,
{
    if j <= start + 1 {
        Seq::empty()
    } else {
        let earlier = block_before(tokens, terminator, start, j - 1);
        if goes_to_block(state_at(tokens, terminator, start, j - 1), tokens[j - 1], terminator) {
            earlier.push(tokens[j - 1])
        } else {
            earlier
        }
    }
}

/// Whether a closing brace was counted after `start` and before `j`.
pub open spec fn closed_before(
    tokens: Seq<Seq<char>>,
    terminator: Seq<char>,
    start: int,
    j: int,
) -> bool
    decreases j - start,
{
    if j <= start + 1 {
        false
    } else {
        closed_before(tokens, terminator, start, j - 1) || closes(
            state_at(tokens, terminator, start, j - 1),
            tokens[j - 1],
            terminator,
        )
    }
}

/// What a scan returns.
pub struct Scan {
    /// The position just after the last token that the scan consumed: after
    /// the terminator or the closing brace that stopped it, or the first
    /// position past the input where the input ran out.
    pub next_index: int,
    /// The tokens read outside any block.
    pub flat: Seq<Seq<char>>,
    /// The tokens read inside the block.
    pub block: Seq<Seq<char>>,
    /// Whether a closing brace was counted.
    pub found_block: bool,
}

/// The position of the token on which the scan that begins just after
/// `start` stops, or the first position past the input where it meets none.
pub open spec fn stop_index(tokens: Seq<Seq<char>>, terminator: Seq<char>, start: int) -> int {
    stop_from(tokens, terminator, start, start + 1)
}

/// The scan of `tokens` that begins just after position `start` and looks
/// for `terminator`.
pub open spec fn scan(tokens: Seq<Seq<char>>, terminator: Seq<char>, start: int) -> Scan {
    let stop = stop_index(tokens, terminator, start);
    Scan {
        next_index: if stop < tokens.len() {
            stop + 1
        } else {
            stop
        },
        flat: flat_before(tokens, terminator, start, stop),
        block: block_before(tokens, terminator, start, stop),
        found_block: closed_before(tokens, terminator, start, stop) || (stop < tokens.len()
            && ends_on_close(state_at(tokens, terminator, start, stop), tokens[stop], terminator)),
    }
}

/// The scan stops after where it began and, when it began inside the input,
/// not past the end.
pub proof fn lemma_stop_bounds(tokens: Seq<Seq<char>>, terminator: Seq<char>, start: int, j: int)
    ensures
        j <= stop_from(tokens, terminator, start, j),
        j <= tokens.len() ==> stop_from(tokens, terminator, start, j) <= tokens.len(),
        forall|k: int| j <= k < stop_from(tokens, terminator, start, j) ==> !ends_at(tokens, terminator, start, k),
        stop_from(tokens, terminator, start, j) < tokens.len() ==> ends_at(
            tokens,
            terminator,
            start,
            stop_from(tokens, terminator, start, j),
        ),
    decreases tokens.len() - j,
{
    if j < tokens.len() && !ends_at(tokens, terminator, start, j) {
        lemma_stop_bounds(tokens, terminator, start, j + 1);
    }
}

/// The scanner proper: walks `input` from position `first`.
pub fn scan_from(token: &str, input: &Vec<String>, first: usize) -> (found: (
    usize,
    Vec<String>,
    Vec<String>,
    bool,
))
    ensures
        found.0 == scan(tokens_view(input@), token@, first - 1).next_index,
        tokens_view(found.1@) == scan(tokens_view(input@), token@, first - 1).flat,
        tokens_view(found.2@) == scan(tokens_view(input@), token@, first - 1).block,
        found.3 == scan(tokens_view(input@), token@, first - 1).found_block,
        first <= found.0,
        first <= input.len() ==> found.0 <= input.len(),
        first < input.len() ==> first < found.0,
{
    let ghost tokens = tokens_view(input@);
    let ghost start = first - 1;
    let mut output: Vec<String> = Vec::new();
    let mut block: Vec<String> = Vec::new();
    let mut got_block = false;
    let mut depth: i128 = 0;
    let mut in_call = false;
    let mut in_comment = false;
    let mut stopped = false;
    let mut j: usize = first;
    let looks_for_paren = same_text(token, "(");
    proof {
        lemma_stop_bounds(tokens, token@, start, first as int);
    }
    while j < input.len() && !stopped
        invariant
            tokens == tokens_view(input@),
            start == first - 1,
            looks_for_paren == (token@ == "("@),
            first <= j,
            first <= input.len() ==> j <= input.len(),
            state_at(tokens, token@, start, j as int) == (ScanState {
                depth: depth as int,
                in_call,
                in_comment,
            }),
            -(j - first) <= depth <= j - first,
            stop_from(tokens, token@, start, first as int) == stop_from(
                tokens,
                token@,
                start,
                j as int,
            ),
            stopped ==> j < input.len() && ends_at(tokens, token@, start, j as int),
            tokens_view(output@) == flat_before(tokens, token@, start, j as int),
            tokens_view(block@) == block_before(tokens, token@, start, j as int),
            got_block == (closed_before(tokens, token@, start, j as int) || (stopped
                && ends_on_close(
                state_at(tokens, token@, start, j as int),
                tokens[j as int],
                token@,
            ))),
        decreases input.len() - j, if stopped { 0int } else { 1int },
    {
        let text = &input[j];
        proof {
            lemma_structural_tokens_differ();
        }
        if token_is(text, "#") {
            in_comment = true;
        }
        if in_comment {
            if token_is(text, "EOL") {
                // the line end that closes the comment is kept
                if depth > 0 {
                    let ghost earlier = block@;
                    block.push(text.clone());
                    proof {
                        lemma_tokens_view_push(earlier, block@.last());
                    }
                } else {
                    let ghost earlier = output@;
                    output.push(text.clone());
                    proof {
                        lemma_tokens_view_push(earlier, output@.last());
                    }
                }
                in_comment = false;
            }
            j += 1;
        } else {
            let opens = token_is(text, "{");
            let closes = token_is(text, "}");
            let depth_in: i128 = if opens {
                depth + 1
            } else {
                depth
            };
            let call_in = in_call || (token_is(text, "(") && !looks_for_paren);
            if token_is(text, token) && depth_in == 0 && !call_in {
                stopped = true;
            } else if closes && depth == 1 {
                got_block = true;
                stopped = true;
            } else {
                if depth_in > 0 {
                    if !(opens && depth == 0) {
                        let ghost earlier = block@;
                        block.push(text.clone());
                        proof {
                            lemma_tokens_view_push(earlier, block@.last());
                        }
                    }
                } else {
                    let ghost earlier = output@;
                    output.push(text.clone());
                    proof {
                        lemma_tokens_view_push(earlier, output@.last());
                    }
                }
                if closes {
                    got_block = true;
                    depth = depth_in - 1;
                } else {
                    depth = depth_in;
                }
                in_call = call_in && !token_is(text, ")");
                j += 1;
            }
        }
    }
    proof {
        lemma_stop_bounds(tokens, token@, start, j as int);
    }
    let next = if stopped {
        j + 1
    } else {
        j
    };
    (next, output, block, got_block)
}

/// Scans `input` from the position after `i` until `token` is met at
/// nesting depth zero outside a suppressed call, or until the block that was
/// opened on the way is closed, or until the input ends.
///
/// Returns the position just after the last token consumed, which is the
/// terminator or the closing brace where one stopped the scan, then the
/// tokens before any block, the interior of the block, and whether a closing
/// brace was met.
pub fn get_till_token_or_block(token: &str, input: &Vec<String>, i: usize) -> (found: (
    usize,
    Vec<String>,
    Vec<String>,
    bool,
))
    requires
        i < usize::MAX,
    ensures
        found.0 == scan(tokens_view(input@), token@, i as int).next_index,
        tokens_view(found.1@) == scan(tokens_view(input@), token@, i as int).flat,
        tokens_view(found.2@) == scan(tokens_view(input@), token@, i as int).block,
        found.3 == scan(tokens_view(input@), token@, i as int).found_block,
        i < found.0,
        i < input.len() ==> found.0 <= input.len(),
{
    scan_from(token, input, i + 1)
}

} // verus!
