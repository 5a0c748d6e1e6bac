//! Laws of a typing round that span several operations.
use vstd::prelude::*;

use crate::typing::{correct_count, mismatches, TypingGame};

verus! {

/// The input never outgrows the goal: every operation on a session keeps
/// `wf`, and a well-formed session has typed at most the goal's length.
pub proof fn lemma_input_within_goal(g: TypingGame)
    requires
        g.wf(),
    ensures
        0 <= g.current@.len() <= g.goal@.len(),
{
}

/// After `reset`, nothing is typed, so nothing is correct or mismatched: the
/// accuracy that follows scores an empty input, with zero correct characters
/// out of zero, and records no mistake.
pub proof fn lemma_reset_scores_nothing(pre: TypingGame, post: TypingGame)
    requires
        post.reset_from(pre),
    ensures
        post.current@.len() == 0,
        post.start_time.is_none(),
        post.mistakes == 0,
        correct_count(post.current@, post.goal@) == 0,
        mismatches(post.current@, post.goal@) == Set::<usize>::empty(),
{
    assert(mismatches(post.current@, post.goal@) =~= Set::<usize>::empty());
}

/// Mistakes are permanent: a position that mismatched when the accuracy was
/// taken stays recorded after the character is erased, the right one is
/// typed, and the accuracy is taken again; the count of mistakes does not
/// go down.
pub proof fn lemma_mistake_permanence(
    s0: TypingGame,
    s1: TypingGame,
    s2: TypingGame,
    s3: TypingGame,
    s4: TypingGame,
    i: usize,
    ch: char,
    now: u64,
)
    requires
        s0.wf(),
        s1.wf(),
        s4.wf(),
        i < s0.current@.len(),
        s0.current@[i as int] != s0.goal@[i as int],
        s1.scored_from(s0),
        s2.edited_from(s1, s1.current@.drop_last()),
        s3.typed_from(s2, ch, now),
        s4.scored_from(s3),
    ensures
        s4.mistake_indices@.contains(i),
        s4.mistakes >= s1.mistakes,
{
    assert(mismatches(s0.current@, s0.goal@).contains(i));
    assert(s1.mistake_indices@.subset_of(s4.mistake_indices@));
    vstd::set_lib::lemma_len_subset(s1.mistake_indices@, s4.mistake_indices@);
}

/// The keystroke that fills the last position of the goal completes the
/// round and stops the clock, and typing after that changes nothing.
pub proof fn lemma_completion(
    pre: TypingGame,
    done: TypingGame,
    after: TypingGame,
    ch: char,
    now: u64,
    ch2: char,
    now2: u64,
)
    requires
        pre.wf(),
        pre.current@.len() + 1 == pre.goal@.len(),
        done.typed_from(pre, ch, now),
        after.typed_from(done, ch2, now2),
    ensures
        done.is_complete(),
        done.end_time == Some(now),
        after == done,
{
}

} // verus!
