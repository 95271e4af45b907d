//! Lines as sequences of words: joining words with single spaces, and
//! splitting a line back at every space, as a server reading the line does.

use vstd::prelude::*;

verus! {

/// The words of `ws` joined by single spaces.
pub open spec fn join_words(ws: Seq<Seq<char>>) -> Seq<char>
    decreases ws.len(),
{
    if ws.len() == 0 {
        Seq::empty()
    } else if ws.len() == 1 {
        ws[0]
    } else {
        join_words(ws.drop_last()) + seq![' '] + ws.last()
    }
}

/// `s` cut at every space: the pieces between spaces, in order, empty ones
/// included, so that a line with `k` spaces gives `k + 1` pieces.
pub open spec fn split_at_spaces(s: Seq<char>) -> Seq<Seq<char>>
    decreases s.len(),
{
    if s.len() == 0 {
        seq![Seq::empty()]
    } else {
        let rest = split_at_spaces(s.drop_first());
        if s[0] == ' ' {
            seq![Seq::empty()] + rest
        } else {
            rest.update(0, seq![s[0]] + rest[0])
        }
    }
}

/// Whether `s` holds no space.
pub open spec fn has_no_space(s: Seq<char>) -> bool {
    forall|i: int| 0 <= i < s.len() ==> s[i] != ' '
}

/// Cutting any text gives at least one piece, and at least two where the
/// text holds a space.
pub proof fn lemma_split_len(s: Seq<char>)
    ensures
        split_at_spaces(s).len() >= 1,
        !has_no_space(s) ==> split_at_spaces(s).len() >= 2,
    decreases s.len(),
{
    if s.len() > 0 {
        lemma_split_len(s.drop_first());
        if !has_no_space(s) && s[0] != ' ' {
            let i = choose|i: int| 0 <= i < s.len() && s[i] == ' ';
            assert(s.drop_first()[i - 1] == ' ');
        }
    }
}

/// Text without a space is a single piece.
pub proof fn lemma_split_no_space(s: Seq<char>)
    requires
        has_no_space(s),
    ensures
        split_at_spaces(s) == seq![s],
    decreases s.len(),
{
    if s.len() == 0 {
        assert(s =~= Seq::<char>::empty());
    } else {
        let t = s.drop_first();
        assert(has_no_space(t)) by {
            assert forall|i: int| 0 <= i < t.len() implies t[i] != ' ' by {
                assert(t[i] == s[i + 1]);
            }
        }
        lemma_split_no_space(t);
        assert(seq![s[0]] + t =~= s);
        assert(split_at_spaces(s) =~= seq![s]);
    }
}

/// Cutting `a`, a space and `b` gives the pieces of `a` followed by those
/// of `b`.
pub proof fn lemma_split_around_space(a: Seq<char>, b: Seq<char>)
    ensures
        split_at_spaces(a + seq![' '] + b) == split_at_spaces(a) + split_at_spaces(b),
    decreases a.len(),
{
    let s = a + seq![' '] + b;
    if a.len() == 0 {
        assert(s.drop_first() =~= b);
        assert(split_at_spaces(s) =~= split_at_spaces(a) + split_at_spaces(b));
    } else {
        let a1 = a.drop_first();
        assert(s.drop_first() =~= a1 + seq![' '] + b);
        lemma_split_around_space(a1, b);
        lemma_split_len(a1);
        let ra = split_at_spaces(a1);
        let rb = split_at_spaces(b);
        if a[0] == ' ' {
            assert(split_at_spaces(s) =~= split_at_spaces(a) + rb);
        } else {
            assert((ra + rb).update(0, seq![a[0]] + (ra + rb)[0]) =~= ra.update(
                0,
                seq![a[0]] + ra[0],
            ) + rb);
            assert(split_at_spaces(s) =~= split_at_spaces(a) + rb);
        }
    }
}

/// Words that hold no space, joined and cut again, are the same words.
pub proof fn lemma_split_join(ws: Seq<Seq<char>>)
    requires
        ws.len() >= 1,
        forall|k: int| 0 <= k < ws.len() ==> has_no_space(#[trigger] ws[k]),
    ensures
        split_at_spaces(join_words(ws)) == ws,
    decreases ws.len(),
{
    if ws.len() == 1 {
        lemma_split_no_space(ws[0]);
        assert(seq![ws[0]] =~= ws);
    } else {
        let init = ws.drop_last();
        assert forall|k: int| 0 <= k < init.len() implies has_no_space(#[trigger] init[k]) by {
            assert(init[k] == ws[k]);
        }
        lemma_split_join(init);
        lemma_split_around_space(join_words(init), ws.last());
        lemma_split_no_space(ws.last());
        assert(init + seq![ws.last()] =~= ws);
    }
}

/// Joined words cut again give at least as many pieces as there were
/// words, and more where a word holds a space.
pub proof fn lemma_split_join_len(ws: Seq<Seq<char>>)
    requires
        ws.len() >= 1,
    ensures
        split_at_spaces(join_words(ws)).len() >= ws.len(),
        (exists|k: int| 0 <= k < ws.len() && !has_no_space(#[trigger] ws[k]))
            ==> split_at_spaces(join_words(ws)).len() > ws.len(),
    decreases ws.len(),
{
    if ws.len() == 1 {
        lemma_split_len(ws[0]);
    } else {
        let init = ws.drop_last();
        lemma_split_join_len(init);
        lemma_split_around_space(join_words(init), ws.last());
        lemma_split_len(ws.last());
        if exists|k: int| 0 <= k < ws.len() && !has_no_space(#[trigger] ws[k]) {
            let k = choose|k: int| 0 <= k < ws.len() && !has_no_space(#[trigger] ws[k]);
            if k < init.len() {
                assert(init[k] == ws[k]);
            }
        }
    }
}

} // verus!
