//! What holds of every scan.

use vstd::prelude::*;
use crate::token::lemma_structural_tokens_differ;
use crate::lexer::scan::advance;
use crate::lexer::scan::block_before;
use crate::lexer::scan::closed_before;
use crate::lexer::scan::closes_comment;
use crate::lexer::scan::ends_at;
use crate::lexer::scan::ends_on_close;
use crate::lexer::scan::ends_on_terminator;
use crate::lexer::scan::flat_before;
use crate::lexer::scan::goes_to_block;
use crate::lexer::scan::goes_to_flat;
use crate::lexer::scan::inert;
use crate::lexer::scan::lemma_stop_bounds;
use crate::lexer::scan::scan;
use crate::lexer::scan::state_at;
use crate::lexer::scan::stop_from;
use crate::lexer::scan::stop_index;

verus! {

/// A scan always moves forward, and one that begins inside the input never
/// runs past its end.
pub proof fn lemma_scan_terminates(tokens: Seq<Seq<char>>, terminator: Seq<char>, start: int)
    ensures
        start < scan(tokens, terminator, start).next_index,
        start < tokens.len() ==> scan(tokens, terminator, start).next_index <= tokens.len(),
{
    lemma_stop_bounds(tokens, terminator, start, start + 1);
}

/// A scan that has a token to read consumes at least that token.
pub proof fn lemma_scan_advances(tokens: Seq<Seq<char>>, terminator: Seq<char>, start: int)
    requires
        start + 1 < tokens.len(),
    ensures
        start + 1 < scan(tokens, terminator, start).next_index <= tokens.len(),
{
    lemma_stop_bounds(tokens, terminator, start, start + 1);
}

/// The index that a scan returns stands just after the token that stopped
/// it, or at the end of the input where no token did.
pub proof fn lemma_next_follows_stop(tokens: Seq<Seq<char>>, terminator: Seq<char>, start: int)
    requires
        start < tokens.len(),
    ensures
        ({
            let next = scan(tokens, terminator, start).next_index;
            ||| start + 1 < next && ends_at(tokens, terminator, start, next - 1)
            ||| next == tokens.len()
        }),
        forall|k: int|
            start < k < scan(tokens, terminator, start).next_index - 1 ==> !ends_at(
                tokens,
                terminator,
                start,
                k,
            ),
{
    lemma_stop_bounds(tokens, terminator, start, start + 1);
}

/// Every token is kept at most once, so the two outputs together are no
/// longer than the stretch that was walked.
pub proof fn lemma_kept_lengths(tokens: Seq<Seq<char>>, terminator: Seq<char>, start: int, j: int)
    requires
        start < j,
    ensures
        flat_before(tokens, terminator, start, j).len() + block_before(
            tokens,
            terminator,
            start,
            j,
        ).len() <= j - start - 1,
    decreases j - start,
{
    if j > start + 1 {
        lemma_kept_lengths(tokens, terminator, start, j - 1);
    }
}

/// The outputs of a scan that begins inside the input hold fewer tokens
/// than the input from the starting position on.
pub proof fn lemma_scan_lengths(tokens: Seq<Seq<char>>, terminator: Seq<char>, start: int)
    requires
        start < tokens.len(),
    ensures
        scan(tokens, terminator, start).flat.len() + scan(tokens, terminator, start).block.len()
            < tokens.len() - start,
{
    lemma_stop_bounds(tokens, terminator, start, start + 1);
    lemma_kept_lengths(tokens, terminator, start, stop_index(tokens, terminator, start));
}

/// The tokens at the positions `lo..hi` that a scan keeps where none of them
/// stops it, as the scan that began after `start` sees them: those that are
/// not part of a comment, and the `EOL` that closes a comment.
pub open spec fn outside_comments(
    tokens: Seq<Seq<char>>,
    terminator: Seq<char>,
    start: int,
    lo: int,
    hi: int,
) -> Seq<Seq<char>>
    decreases hi - lo,
{
    if hi <= lo {
        Seq::empty()
    } else {
        let earlier = outside_comments(tokens, terminator, start, lo, hi - 1);
        let s = state_at(tokens, terminator, start, hi - 1);
        if inert(s, tokens[hi - 1]) && !closes_comment(s, tokens[hi - 1]) {
            earlier
        } else {
            earlier.push(tokens[hi - 1])
        }
    }
}

/// The scan that begins after `start` reaches the position `p` at depth
/// zero, finds there the brace that opens a block, and `q` is where the
/// nesting first returns to zero.
pub open spec fn first_balanced_region(
    tokens: Seq<Seq<char>>,
    terminator: Seq<char>,
    start: int,
    p: int,
    q: int,
) -> bool {
    &&& -1 <= start < p < q < tokens.len()
    &&& forall|k: int|
        start < k < p ==> !ends_at(tokens, terminator, start, k) && #[trigger] state_at(
            tokens,
            terminator,
            start,
            k,
        ).depth == 0
    &&& state_at(tokens, terminator, start, p).depth == 0
    &&& !inert(state_at(tokens, terminator, start, p), tokens[p])
    &&& tokens[p] == "{"@
    &&& forall|k: int| p < k <= q ==> #[trigger] state_at(tokens, terminator, start, k).depth >= 1
    &&& state_at(tokens, terminator, start, q).depth == 1
    &&& !inert(state_at(tokens, terminator, start, q), tokens[q])
    &&& tokens[q] == "}"@
}

proof fn lemma_flat_before_block(
    tokens: Seq<Seq<char>>,
    terminator: Seq<char>,
    start: int,
    p: int,
    q: int,
    j: int,
)
    requires
        first_balanced_region(tokens, terminator, start, p, q),
        start < j <= q,
    ensures
        j <= p ==> flat_before(tokens, terminator, start, j) == outside_comments(
            tokens,
            terminator,
            start,
            start + 1,
            j,
        ),
        j > p ==> flat_before(tokens, terminator, start, j) == outside_comments(
            tokens,
            terminator,
            start,
            start + 1,
            p,
        ),
        j <= p + 1 ==> block_before(tokens, terminator, start, j) == Seq::<Seq<char>>::empty(),
        j > p ==> block_before(tokens, terminator, start, j) == outside_comments(
            tokens,
            terminator,
            start,
            p + 1,
            j,
        ),
        forall|k: int| start < k < j ==> !ends_at(tokens, terminator, start, k),
    decreases j - start,
{
    lemma_structural_tokens_differ();
    if j > start + 1 {
        lemma_flat_before_block(tokens, terminator, start, p, q, j - 1);
        let k = j - 1;
        let s = state_at(tokens, terminator, start, k);
        let after = state_at(tokens, terminator, start, k + 1);
        assert(after == advance(s, tokens[k], terminator));
        if k < p {
            assert(s.depth == 0 && after.depth == 0);
        } else if k > p {
            assert(s.depth >= 1 && after.depth >= 1);
        }
    }
}

/// Depth balance: where the scan meets a balanced region of braces, it stops
/// on the brace that returns the nesting to zero and returns the index after
/// it, reports a block, and returns as the block exactly what lies between
/// the two braces and as the flat tokens exactly what lies before the opening
/// one, comments left out but for the line ends that close them.
pub proof fn lemma_depth_balance(
    tokens: Seq<Seq<char>>,
    terminator: Seq<char>,
    start: int,
    p: int,
    q: int,
)
    requires
        first_balanced_region(tokens, terminator, start, p, q),
    ensures
        scan(tokens, terminator, start).next_index == q + 1,
        scan(tokens, terminator, start).found_block,
        scan(tokens, terminator, start).block == outside_comments(
            tokens,
            terminator,
            start,
            p + 1,
            q,
        ),
        scan(tokens, terminator, start).flat == outside_comments(
            tokens,
            terminator,
            start,
            start + 1,
            p,
        ),
{
    lemma_structural_tokens_differ();
    lemma_flat_before_block(tokens, terminator, start, p, q, q);
    lemma_stop_bounds(tokens, terminator, start, start + 1);
    let s = state_at(tokens, terminator, start, q);
    assert(!ends_on_terminator(s, tokens[q], terminator));
    assert(ends_on_close(s, tokens[q], terminator));
    assert(ends_at(tokens, terminator, start, q));
}

/// The token at `open` is a `(` that enters a suppressed call, and no `)`
/// closes the call before the position `j`.
pub open spec fn inside_call(
    tokens: Seq<Seq<char>>,
    terminator: Seq<char>,
    start: int,
    open: int,
    j: int,
) -> bool {
    &&& -1 <= start < open < j <= tokens.len()
    &&& terminator != "("@
    &&& tokens[open] == "("@
    &&& !inert(state_at(tokens, terminator, start, open), tokens[open])
    &&& forall|k: int|
        open < k < j ==> inert(#[trigger] state_at(tokens, terminator, start, k), tokens[k])
            || tokens[k] != ")"@
}

proof fn lemma_call_stays_open(
    tokens: Seq<Seq<char>>,
    terminator: Seq<char>,
    start: int,
    open: int,
    j: int,
)
    requires
        inside_call(tokens, terminator, start, open, j),
    ensures
        state_at(tokens, terminator, start, j).in_call,
    decreases j - open,
{
    lemma_structural_tokens_differ();
    let s = state_at(tokens, terminator, start, j - 1);
    assert(state_at(tokens, terminator, start, j) == advance(s, tokens[j - 1], terminator));
    if j > open + 1 {
        lemma_call_stays_open(tokens, terminator, start, open, j - 1);
        assert(inert(s, tokens[j - 1]) || tokens[j - 1] != ")"@);
    }
}

/// Call suppression: no token inside `( ... )` ends the scan as its
/// terminator, whatever the token is. Only the brace that closes a block can
/// stop the scan there.
pub proof fn lemma_call_suppression(
    tokens: Seq<Seq<char>>,
    terminator: Seq<char>,
    start: int,
    open: int,
    j: int,
)
    requires
        inside_call(tokens, terminator, start, open, j),
        j < tokens.len(),
    ensures
        !ends_on_terminator(state_at(tokens, terminator, start, j), tokens[j], terminator),
        tokens[j] != "}"@ ==> stop_index(tokens, terminator, start) != j,
{
    lemma_call_stays_open(tokens, terminator, start, open, j);
    lemma_stop_bounds(tokens, terminator, start, start + 1);
}

/// Two token lists differ at most inside comments, at positions after
/// `start` and before `j`, and never in an `EOL`.
pub open spec fn same_outside_comments(
    a: Seq<Seq<char>>,
    b: Seq<Seq<char>>,
    terminator: Seq<char>,
    start: int,
    j: int,
) -> bool {
    &&& a.len() == b.len()
    &&& forall|k: int|
        start < k < j && k < a.len() ==> a[k] == b[k] || ((#[trigger] state_at(
            a,
            terminator,
            start,
            k,
        )).in_comment && a[k] != "EOL"@ && b[k] != "EOL"@)
}

proof fn lemma_same_walk(
    a: Seq<Seq<char>>,
    b: Seq<Seq<char>>,
    terminator: Seq<char>,
    start: int,
    j: int,
)
    requires
        same_outside_comments(a, b, terminator, start, j),
        -1 <= start,
        j <= a.len(),
    ensures
        state_at(a, terminator, start, j) == state_at(b, terminator, start, j),
        flat_before(a, terminator, start, j) == flat_before(b, terminator, start, j),
        block_before(a, terminator, start, j) == block_before(b, terminator, start, j),
        closed_before(a, terminator, start, j) == closed_before(b, terminator, start, j),
    decreases j - start,
{
    if j > start + 1 {
        lemma_same_walk(a, b, terminator, start, j - 1);
        let s = state_at(a, terminator, start, j - 1);
        assert(a[j - 1] == b[j - 1] || (s.in_comment && a[j - 1] != "EOL"@ && b[j - 1]
            != "EOL"@));
    }
}

proof fn lemma_same_stop(
    a: Seq<Seq<char>>,
    b: Seq<Seq<char>>,
    terminator: Seq<char>,
    start: int,
    j: int,
)
    requires
        same_outside_comments(a, b, terminator, start, a.len() as int),
        -1 <= start < j,
    ensures
        stop_from(a, terminator, start, j) == stop_from(b, terminator, start, j),
    decreases a.len() - j,
{
    if j < a.len() {
        lemma_same_walk(a, b, terminator, start, j);
        let s = state_at(a, terminator, start, j);
        assert(a[j] == b[j] || (s.in_comment && a[j] != "EOL"@ && b[j] != "EOL"@));
        lemma_same_stop(a, b, terminator, start, j + 1);
    }
}

/// Comment inertness: a token inside a comment can be replaced by any other
/// text, short of `EOL`, and the scan returns the same. What stands in a
/// comment moves neither the nesting depth nor the place where the scan stops.
pub proof fn lemma_comment_inert(
    tokens: Seq<Seq<char>>,
    terminator: Seq<char>,
    start: int,
    j: int,
    other: Seq<char>,
)
    requires
        -1 <= start < j < tokens.len(),
        state_at(tokens, terminator, start, j).in_comment,
        tokens[j] != "EOL"@,
        other != "EOL"@,
    ensures
        scan(tokens.update(j, other), terminator, start) == scan(tokens, terminator, start),
{
    let changed = tokens.update(j, other);
    assert(same_outside_comments(tokens, changed, terminator, start, tokens.len() as int));
    lemma_same_stop(tokens, changed, terminator, start, start + 1);
    lemma_stop_bounds(tokens, terminator, start, start + 1);
    let stop = stop_index(tokens, terminator, start);
    lemma_same_walk(tokens, changed, terminator, start, stop);
    if stop < tokens.len() {
        let s = state_at(tokens, terminator, start, stop);
        assert(tokens[stop] == changed[stop] || s.in_comment);
    }
}

/// Inside a comment nothing ends the scan, nothing is kept but the line end
/// that closes the comment, and the nesting depth and the call flag stay as
/// they were.
pub proof fn lemma_comment_skipped(
    tokens: Seq<Seq<char>>,
    terminator: Seq<char>,
    start: int,
    j: int,
)
    requires
        start < j < tokens.len(),
        inert(state_at(tokens, terminator, start, j), tokens[j]),
    ensures
        !ends_at(tokens, terminator, start, j),
        tokens[j] != "EOL"@ ==> !goes_to_flat(
            state_at(tokens, terminator, start, j),
            tokens[j],
            terminator,
        ) && !goes_to_block(state_at(tokens, terminator, start, j), tokens[j], terminator),
        tokens[j] == "EOL"@ ==> (goes_to_flat(
            state_at(tokens, terminator, start, j),
            tokens[j],
            terminator,
        ) <==> state_at(tokens, terminator, start, j).depth <= 0) && (goes_to_block(
            state_at(tokens, terminator, start, j),
            tokens[j],
            terminator,
        ) <==> state_at(tokens, terminator, start, j).depth > 0),
        state_at(tokens, terminator, start, j + 1).depth == state_at(
            tokens,
            terminator,
            start,
            j,
        ).depth,
        state_at(tokens, terminator, start, j + 1).in_call == state_at(
            tokens,
            terminator,
            start,
            j,
        ).in_call,
{
    lemma_structural_tokens_differ();
}

} // verus!
