//! What the token sequence of a source is, apart from the kinds: the tokens
//! lie in source order, and together they cover exactly what is not white
//! space between tokens.

use crate::lexer::{lexemes, token_at, token_end};
use crate::scan::{lemma_run_end, run_end, ByteClass, QUOTE};
use crate::exactness::tokens_ordered;
use crate::token::{token_views, tokens_wf, Token, TokenView};
use crate::wellformed::tokens_inside;
use vstd::prelude::*;

verus! {

/// The offset just past a token.
pub open spec fn end_of(token: TokenView) -> int {
    token.start + token.len
}

/// The tokens lie inside `src[from..]`, none is empty, and each ends before
/// the next one starts.
pub open spec fn in_order(src: Seq<u8>, from: int, tokens: Seq<TokenView>) -> bool {
    &&& forall|i: int|
        0 <= i < tokens.len() ==> from <= (#[trigger] tokens[i]).start && tokens[i].len >= 1
            && end_of(tokens[i]) <= src.len()
    &&& forall|i: int, j: int|
        0 <= i < j < tokens.len() ==> end_of(#[trigger] tokens[i]) <= (#[trigger] tokens[j]).start
}

/// The offset `k` lies inside one of the tokens.
pub open spec fn inside_token(tokens: Seq<TokenView>, k: int) -> bool {
    exists|i: int| 0 <= i < tokens.len() && (#[trigger] tokens[i]).start <= k < end_of(tokens[i])
}

/// Every byte of `src[from..]` outside the tokens is white space.
pub open spec fn gaps_are_space(src: Seq<u8>, from: int, tokens: Seq<TokenView>) -> bool {
    forall|k: int|
        from <= k < src.len() && !ByteClass::Space.has(#[trigger] src[k]) ==> inside_token(
            tokens,
            k,
        )
}

/// Every token starts at a byte that is not white space, and only a string
/// literal has white space inside.
pub open spec fn tokens_are_tight(src: Seq<u8>, tokens: Seq<TokenView>) -> bool {
    &&& forall|i: int|
        0 <= i < tokens.len() && 0 <= (#[trigger] tokens[i]).start < src.len()
            ==> !ByteClass::Space.has(src[tokens[i].start as int])
    &&& forall|i: int, k: int|
        0 <= i < tokens.len() && !((#[trigger] tokens[i]).kind is StringLiteral) && tokens[i].start
            <= k < end_of(tokens[i]) && k < src.len() ==> !ByteClass::Space.has(#[trigger] src[k])
}

/// The tokens cover `src[from..]` exactly: they are in order, what lies
/// between them is white space, and they hold no white space themselves
/// (but inside string literals).
pub open spec fn covers_exactly(src: Seq<u8>, from: int, tokens: Seq<TokenView>) -> bool {
    &&& in_order(src, from, tokens)
    &&& gaps_are_space(src, from, tokens)
    &&& tokens_are_tight(src, tokens)
}

/// A token that is no string literal has no white space inside, and no
/// token starts with white space.
#[verifier::spinoff_prover]
proof fn lemma_token_is_tight(src: Seq<u8>, at: int)
    requires
        0 <= at < src.len(),
        !ByteClass::Space.has(src[at]),
    ensures
        at < token_end(src, at) <= src.len(),
        !(token_at(src, at).kind is StringLiteral) ==> forall|k: int|
            at <= k < token_end(src, at) ==> !ByteClass::Space.has(#[trigger] src[k]),
{
    lemma_run_end(src, at + 1, ByteClass::Letter);
    lemma_run_end(src, at + 1, ByteClass::Digit);
    lemma_run_end(src, at + 1, ByteClass::StringBody);
}

/// The token sequence of a source covers the source exactly.
#[verifier::spinoff_prover]
pub proof fn lemma_lexemes_cover(src: Seq<u8>, from: int)
    requires
        0 <= from <= src.len() <= usize::MAX,
    ensures
        covers_exactly(src, from, lexemes(src, from)),
    decreases src.len() - from,
{
    let tokens = lexemes(src, from);
    let at = run_end(src, from, ByteClass::Space);
    lemma_run_end(src, from, ByteClass::Space);
    if at < src.len() {
        let end = token_end(src, at);
        let first = token_at(src, at);
        let rest = lexemes(src, end);
        lemma_token_is_tight(src, at);
        lemma_lexemes_cover(src, end);
        assert(tokens =~= seq![first] + rest);
        assert(tokens[0] == first);
        assert(forall|i: int| 1 <= i < tokens.len() ==> tokens[i] == rest[i - 1]);
        assert(in_order(src, from, tokens)) by {
            assert forall|i: int, j: int| 0 <= i < j < tokens.len() implies end_of(
                #[trigger] tokens[i],
            ) <= (#[trigger] tokens[j]).start by {
                assert(tokens[j] == rest[j - 1]);
                if i > 0 {
                    assert(tokens[i] == rest[i - 1]);
                }
            }
        }
        assert(gaps_are_space(src, from, tokens)) by {
            assert forall|k: int|
                from <= k < src.len() && !ByteClass::Space.has(
                    #[trigger] src[k],
                ) implies inside_token(tokens, k) by {
                if k < end {
                    assert(tokens[0].start <= k < end_of(tokens[0]));
                } else {
                    assert(inside_token(rest, k));
                    let i = choose|i: int|
                        0 <= i < rest.len() && (#[trigger] rest[i]).start <= k < end_of(rest[i]);
                    assert(tokens[i + 1] == rest[i]);
                }
            }
        }
        assert(tokens_are_tight(src, tokens)) by {
            assert forall|i: int|
                0 <= i < tokens.len() && 0 <= (#[trigger] tokens[i]).start
                    < src.len() implies !ByteClass::Space.has(src[tokens[i].start as int]) by {
                if i > 0 {
                    assert(tokens[i] == rest[i - 1]);
                }
            }
            assert forall|i: int, k: int|
                0 <= i < tokens.len() && !((#[trigger] tokens[i]).kind is StringLiteral)
                    && tokens[i].start <= k < end_of(tokens[i]) && k
                    < src.len() implies !ByteClass::Space.has(#[trigger] src[k]) by {
                if i > 0 {
                    assert(tokens[i] == rest[i - 1]);
                }
            }
        }
    } else {
        assert(tokens =~= Seq::<TokenView>::empty());
    }
}

/// The bytes of the tokens, one token after another.
pub open spec fn token_bytes(src: Seq<u8>, tokens: Seq<TokenView>) -> Seq<u8>
    decreases tokens.len(),
{
    if tokens.len() == 0 {
        Seq::empty()
    } else {
        src.subrange(tokens[0].start as int, end_of(tokens[0])) + token_bytes(
            src,
            tokens.drop_first(),
        )
    }
}

/// Whether a byte is something else than white space.
pub open spec fn is_ink() -> spec_fn(u8) -> bool {
    |b: u8| !ByteClass::Space.has(b)
}

/// Filtering keeps a sequence whose members all pass, and empties one whose
/// members all fail.
#[verifier::spinoff_prover]
proof fn lemma_filter_all(bytes: Seq<u8>, pred: spec_fn(u8) -> bool)
    ensures
        (forall|i: int| 0 <= i < bytes.len() ==> pred(#[trigger] bytes[i])) ==> bytes.filter(pred)
            == bytes,
        (forall|i: int| 0 <= i < bytes.len() ==> !pred(#[trigger] bytes[i])) ==> bytes.filter(
            pred,
        ) == Seq::<u8>::empty(),
    decreases bytes.len(),
{
    reveal(Seq::filter);
    if bytes.len() > 0 {
        lemma_filter_all(bytes.drop_last(), pred);
        if forall|i: int| 0 <= i < bytes.len() ==> pred(#[trigger] bytes[i]) {
            assert forall|i: int| 0 <= i < bytes.drop_last().len() implies pred(
                #[trigger] bytes.drop_last()[i],
            ) by {
                assert(bytes.drop_last()[i] == bytes[i]);
            }
            assert(bytes.drop_last().push(bytes.last()) =~= bytes);
        }
        if forall|i: int| 0 <= i < bytes.len() ==> !pred(#[trigger] bytes[i]) {
            assert forall|i: int| 0 <= i < bytes.drop_last().len() implies !pred(
                #[trigger] bytes.drop_last()[i],
            ) by {
                assert(bytes.drop_last()[i] == bytes[i]);
            }
        }
    } else {
        assert(bytes =~= Seq::<u8>::empty());
    }
}

/// Where the source holds no string literal, the bytes of its tokens, put
/// together, are the source without its white space.
#[verifier::spinoff_prover]
pub proof fn lemma_tokens_spell_source(src: Seq<u8>, from: int)
    requires
        0 <= from <= src.len() <= usize::MAX,
        forall|k: int| from <= k < src.len() ==> #[trigger] src[k] != QUOTE,
    ensures
        token_bytes(src, lexemes(src, from)) == src.subrange(from, src.len() as int).filter(
            is_ink(),
        ),
    decreases src.len() - from,
{
    let tokens = lexemes(src, from);
    let at = run_end(src, from, ByteClass::Space);
    let len = src.len() as int;
    lemma_run_end(src, from, ByteClass::Space);
    let gap = src.subrange(from, at);
    lemma_filter_all(gap, is_ink());
    assert(gap.filter(is_ink()) == Seq::<u8>::empty());
    if at < len {
        let end = token_end(src, at);
        let first = token_at(src, at);
        let rest = lexemes(src, end);
        lemma_token_is_tight(src, at);
        lemma_tokens_spell_source(src, end);
        assert(tokens =~= seq![first] + rest);
        assert(tokens.drop_first() =~= rest);
        let text = src.subrange(at, end);
        lemma_filter_all(text, is_ink());
        assert(text.filter(is_ink()) == text);
        let tail = src.subrange(end, len);
        assert(src.subrange(from, len) =~= gap + (text + tail));
        Seq::filter_distributes_over_add(gap, text + tail, is_ink());
        Seq::filter_distributes_over_add(text, tail, is_ink());
        assert(gap.filter(is_ink()) + (text + tail).filter(is_ink()) =~= text + tail.filter(
            is_ink(),
        ));
    } else {
        assert(tokens =~= Seq::<TokenView>::empty());
        assert(src.subrange(from, len) =~= gap);
    }
}

/// Tokens that cover a source exactly are what the parser asks for: each
/// ends inside the source, and each ends before the next one starts.
#[verifier::spinoff_prover]
pub proof fn lemma_covering_tokens_are_ordered(src: Seq<u8>, tokens: Seq<Token>)
    requires
        src.len() <= usize::MAX,
        in_order(src, 0, token_views(tokens)),
    ensures
        tokens_wf(tokens),
        tokens_ordered(tokens),
        tokens_inside(tokens, src.len() as int),
{
    reveal(tokens_ordered);
    let views = token_views(tokens);
    assert forall|i: int| 0 <= i < tokens.len() implies (#[trigger] tokens[i]).end()
        <= src.len() by {
        assert(views[i] == tokens[i]@);
        assert(end_of(views[i]) <= src.len());
    }
    assert forall|i: int, j: int| 0 <= i < j < tokens.len() implies (#[trigger] tokens[i]).end()
        <= (#[trigger] tokens[j]).start by {
        assert(views[i] == tokens[i]@);
        assert(views[j] == tokens[j]@);
        assert(end_of(views[i]) <= views[j].start);
    }
}

} // verus!
