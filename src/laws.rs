//! Properties that hold across several editor operations.
use vstd::prelude::*;
use crate::actions::{
    apply_edit, delete_high, delete_low, edit_cursor, insert_at, inverse_edit, spec_insert,
    spec_remove,
};
use crate::editor::{landing, Editor};
use crate::movement::delete_span;
use crate::words::{
    class_of, first_boundary_from, last_word_start_below, next_word, word_boundary, word_start,
    word_steps, CharacterType, WordStep,
};

verus! {

/// Inserting `t` at the cursor records a deletion; undoing it (applying that
/// deletion) gives the text back and sends the cursor back where it was.
pub proof fn law_insert_then_undo(e: Editor, t: Seq<char>)
    requires
        e.wf(),
    ensures
        ({
            let s = e.text();
            let p = e.pos();
            let inserted = spec_insert(s, p, t);
            let recorded = (false, p, p + t.len(), Seq::<char>::empty());
            &&& apply_edit(recorded, inserted) == s
            &&& landing(
                apply_edit(recorded, inserted),
                edit_cursor(recorded, inserted),
                e.inserting(),
            ) == p
        }),
{
    let s = e.text();
    let p = e.pos();
    e.lemma_landing_at_cursor();
    let inserted = spec_insert(s, p, t);
    assert(inserted.take(p) =~= s.take(p));
    assert(inserted.skip(p + t.len()) =~= s.skip(p));
    assert(spec_remove(inserted, p, p + t.len()) =~= s);
}

/// Any edit, applied and then undone by its inverse, gives the text back.
pub proof fn law_edit_then_inverse(a: (bool, int, int, Seq<char>), s: Seq<char>)
    requires
        a.1 >= 0,
        a.2 >= 0,
    ensures
        apply_edit(inverse_edit(a, s), apply_edit(a, s)) == s,
{
    let s1 = apply_edit(a, s);
    if a.0 {
        let at = insert_at(s, a.1);
        assert(s1.take(at) =~= s.take(at));
        assert(s1.skip(at + a.3.len()) =~= s.skip(at));
        assert(delete_low(s1, at, at + a.3.len()) == at);
        assert(delete_high(s1, at, at + a.3.len()) == at + a.3.len());
        assert(spec_remove(s1, at, at + a.3.len()) =~= s);
    } else {
        let lo = delete_low(s, a.1, a.2);
        let hi = delete_high(s, a.1, a.2);
        assert(insert_at(s1, lo) == lo);
        assert(s1.take(lo) =~= s.take(lo));
        assert(s1.skip(lo) =~= s.skip(hi));
        assert(spec_insert(s1, lo, s.subrange(lo, hi)) =~= s);
    }
}

/// An edit as the history records it, valid on text `s`: an insertion at an
/// offset of `s`, or a deletion of an ordered range of `s`.
pub open spec fn recorded_on(r: (bool, int, int, Seq<char>), s: Seq<char>) -> bool {
    if r.0 {
        0 <= r.1 == r.2 <= s.len()
    } else {
        0 <= r.1 <= r.2 <= s.len() && r.3 == Seq::<char>::empty()
    }
}

/// Undo applies recorded edit `r` to the post-edit text `s` and keeps its
/// inverse; redo applies that inverse. Redo gives back the post-edit text, the
/// recorded edit, and the offset the cursor had when the edit was first made
/// (after inserted text, or where deleted text was).
pub proof fn law_undo_then_redo(r: (bool, int, int, Seq<char>), s: Seq<char>)
    requires
        recorded_on(r, s),
    ensures
        ({
            let undone = apply_edit(r, s);
            let kept = inverse_edit(r, s);
            &&& apply_edit(kept, undone) == s
            &&& inverse_edit(kept, undone) == r
            &&& edit_cursor(kept, undone) == if r.0 {
                r.1
            } else {
                r.2
            }
        }),
{
    let undone = apply_edit(r, s);
    let kept = inverse_edit(r, s);
    if r.0 {
        let at = r.1;
        assert(undone.take(at) =~= s.take(at));
        assert(undone.skip(at + r.3.len()) =~= s.skip(at));
        assert(spec_remove(undone, at, at + r.3.len()) =~= s);
        assert(undone.subrange(at, at + r.3.len()) =~= r.3);
    } else {
        let lo = r.1;
        let hi = r.2;
        assert(undone.take(lo) =~= s.take(lo));
        assert(undone.skip(lo) =~= s.skip(hi));
        assert(spec_insert(undone, lo, s.subrange(lo, hi)) =~= s);
    }
}

/// After inserting `t` at `p` (as `insert`, `insert_char`, `insert_newline`,
/// `paste` and opening a line do, recording the deletion of `p..p + len(t)`),
/// undo then redo gives back the text, the recorded edit, and the cursor
/// target `p + len(t)` that the insertion left.
pub proof fn law_redo_after_insert(s: Seq<char>, p: int, t: Seq<char>)
    requires
        0 <= p <= s.len(),
    ensures
        ({
            let edited = spec_insert(s, p, t);
            let recorded = (false, p, p + t.len(), Seq::<char>::empty());
            let undone = apply_edit(recorded, edited);
            let kept = inverse_edit(recorded, edited);
            &&& undone == s
            &&& apply_edit(kept, undone) == edited
            &&& inverse_edit(kept, undone) == recorded
            &&& edit_cursor(kept, undone) == p + t.len()
        }),
{
    let edited = spec_insert(s, p, t);
    let recorded = (false, p, p + t.len(), Seq::<char>::empty());
    assert(edited.take(p) =~= s.take(p));
    assert(edited.skip(p + t.len()) =~= s.skip(p));
    assert(spec_remove(edited, p, p + t.len()) =~= s);
    law_undo_then_redo(recorded, edited);
}

/// After deleting `from..to` of `s` (as a delete over a motion does,
/// recording the insertion of the deleted text at `from`), undo then redo
/// gives back the text, the recorded edit, and the cursor target `from`.
pub proof fn law_redo_after_delete(s: Seq<char>, from: int, to: int)
    requires
        0 <= from <= to <= s.len(),
    ensures
        ({
            let edited = spec_remove(s, from, to);
            let recorded = (true, from, from, s.subrange(from, to));
            let undone = apply_edit(recorded, edited);
            let kept = inverse_edit(recorded, edited);
            &&& undone == s
            &&& apply_edit(kept, undone) == edited
            &&& inverse_edit(kept, undone) == recorded
            &&& edit_cursor(kept, undone) == from
        }),
{
    let edited = spec_remove(s, from, to);
    let recorded = (true, from, from, s.subrange(from, to));
    assert(edited.take(from) =~= s.take(from));
    assert(edited.skip(from) =~= s.skip(to));
    assert(spec_insert(edited, from, s.subrange(from, to)) =~= s);
    law_undo_then_redo(recorded, edited);
}

/// In every state that the commands keep, the cursor lies inside the text
/// and inside the viewport.
pub proof fn law_cursor_in_bounds(e: Editor)
    requires
        e.wf(),
    ensures
        0 <= e.pos() <= e.text().len(),
        e.cur().screen_cursor_position.x < e.screen.width,
        e.cur().screen_cursor_position.y < e.screen.heigth,
{
    e.lemma_landing_at_cursor();
}

/// Deleting over a motion from offset `p` to offset `q` removes text, unless
/// the cursor is at the end of the text and the motion does not go back.
pub proof fn law_delete_changes_text(s: Seq<char>, p: int, q: int)
    requires
        0 <= p <= s.len(),
        0 <= q <= s.len(),
        p < s.len() || q < p,
    ensures
        spec_remove(s, delete_span(s, p, q).0, delete_span(s, p, q).1) != s,
{
    let span = delete_span(s, p, q);
    assert(spec_remove(s, span.0, span.1).len() < s.len());
}

proof fn lemma_first_boundary(s: Seq<char>, j: int, c0: CharacterType)
    requires
        0 < j,
    ensures
        forall|k: int| j <= k < first_boundary_from(s, j, c0) ==> !word_boundary(s, k, c0),
        first_boundary_from(s, j, c0) >= j || first_boundary_from(s, j, c0) == s.len() - 1,
        first_boundary_from(s, j, c0) < s.len() && word_boundary(s, first_boundary_from(s, j, c0), c0)
            || (first_boundary_from(s, j, c0) == s.len() - 1 && forall|k: int|
            j <= k < s.len() ==> !word_boundary(s, k, c0)),
    decreases s.len() - j,
{
    if j < s.len() && !word_boundary(s, j, c0) {
        lemma_first_boundary(s, j + 1, c0);
    }
}

/// One word forward from a word start, then one back, returns to it; the step
/// forward reaches a word start unless it falls back on the last character.
proof fn lemma_step_back(s: Seq<char>, a: int)
    requires
        word_start(s, a),
        next_word(s, a) > a,
    ensures
        last_word_start_below(s, next_word(s, a)) == a,
        word_start(s, next_word(s, a)) || next_word(s, a) == s.len() - 1,
{
    let c0 = class_of(s[a]);
    let q = next_word(s, a);
    lemma_first_boundary(s, a + 1, c0);
    assert forall|k: int| a < k < q implies !word_start(s, k) by {
        assert(!word_boundary(s, k, c0));
        if word_start(s, k) && k - 1 > a {
            assert(!word_boundary(s, k - 1, c0));
        }
    }
    if q < s.len() && word_boundary(s, q, c0) && q - 1 > a {
        assert(!word_boundary(s, q - 1, c0));
    }
    lemma_prev_word_is(s, a, q);
}

/// The word start before `q` is `w` when no word starts between them.
proof fn lemma_prev_word_is(s: Seq<char>, w: int, q: int)
    requires
        word_start(s, w),
        w < q,
        forall|k: int| w < k < q ==> !word_start(s, k),
    ensures
        last_word_start_below(s, q) == w,
    decreases q - w,
{
    if !word_start(s, q - 1) {
        lemma_prev_word_is(s, w, q - 1);
    }
}

/// Each of `n` forward word steps that all move leaves the cursor on a word
/// start, but possibly the last one.
proof fn lemma_forward_starts(s: Seq<char>, w: int, n: nat, k: nat)
    requires
        k < n,
        word_start(s, w),
        forall|j: nat|
            j < n ==> word_steps(s, w, WordStep::Next, j) < #[trigger] word_steps(
                s,
                w,
                WordStep::Next,
                j + 1,
            ),
    ensures
        word_start(s, word_steps(s, w, WordStep::Next, k)),
    decreases k,
{
    if k > 0 {
        let k1 = (k - 1) as nat;
        lemma_forward_starts(s, w, n, k1);
        let a = word_steps(s, w, WordStep::Next, k1);
        assert(a < word_steps(s, w, WordStep::Next, k1 + 1));
        lemma_step_back(s, a);
        assert(word_steps(s, w, WordStep::Next, k) < word_steps(s, w, WordStep::Next, k + 1));
    }
}

/// Backward steps from the `n`-th forward step retrace the forward steps.
proof fn lemma_back_steps(s: Seq<char>, w: int, n: nat, m: nat)
    requires
        m <= n,
        word_start(s, w),
        forall|j: nat|
            j < n ==> word_steps(s, w, WordStep::Next, j) < #[trigger] word_steps(
                s,
                w,
                WordStep::Next,
                j + 1,
            ),
    ensures
        word_steps(s, word_steps(s, w, WordStep::Next, n), WordStep::Prev, m) == word_steps(
            s,
            w,
            WordStep::Next,
            (n - m) as nat,
        ),
    decreases m,
{
    if m > 0 {
        lemma_back_steps(s, w, n, (m - 1) as nat);
        let k = (n - m) as nat;
        let a = word_steps(s, w, WordStep::Next, k);
        assert(a < word_steps(s, w, WordStep::Next, k + 1));
        lemma_forward_starts(s, w, n, k);
        lemma_step_back(s, a);
    }
}

/// From a word start, `n` words forward then `n` words backward come back to
/// it, whenever each forward step moves the cursor.
pub proof fn law_words_forward_then_back(s: Seq<char>, w: int, n: nat)
    requires
        n >= 1,
        word_start(s, w),
        forall|k: nat|
            k < n ==> word_steps(s, w, WordStep::Next, k) < #[trigger] word_steps(
                s,
                w,
                WordStep::Next,
                k + 1,
            ),
    ensures
        word_steps(s, word_steps(s, w, WordStep::Next, n), WordStep::Prev, n) == w,
{
    lemma_back_steps(s, w, n, n);
}

} // verus!
