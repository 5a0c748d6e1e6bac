//! The typing session: the target phrase, what has been typed so far, the
//! timing marks of the round and the positions that were ever mistyped.
use std::collections::HashSet;
use vstd::prelude::*;

use crate::phrase::{count_spaces, is_phrase, is_whitespace, random_phrase, white_space};

verus! {

broadcast use vstd::std_specs::hash::group_hash_axioms;

/// A character that the phrase source is known to produce by mistake; a goal
/// never holds it.
pub const FORBIDDEN: char = '\u{ba}';

/// How many phrases are drawn, at most, before giving up on finding one free
/// of the forbidden character.
pub const MAX_DRAWS: usize = 64;

/// A goal contains no forbidden character.
pub open spec fn is_clean(g: Seq<char>) -> bool {
    !g.contains(FORBIDDEN)
}

/// The number of positions below `n` at which `cur` and `goal` agree.
pub open spec fn correct_upto(cur: Seq<char>, goal: Seq<char>, n: nat) -> nat
    decreases n,
{
    if n == 0 {
        0
    } else {
        correct_upto(cur, goal, (n - 1) as nat) + if cur[n - 1] == goal[n - 1] {
            1nat
        } else {
            0nat
        }
    }
}

/// The number of positions of `cur` that hold the goal's character.
pub open spec fn correct_count(cur: Seq<char>, goal: Seq<char>) -> nat {
    correct_upto(cur, goal, cur.len())
}

/// The positions of `cur` that differ from the goal.
pub open spec fn mismatches(cur: Seq<char>, goal: Seq<char>) -> Set<usize> {
    Set::new(|i: usize| i < cur.len() && cur[i as int] != goal[i as int])
}

/// The index of the last space in `t`, or -1 if it holds none.
pub open spec fn last_space(t: Seq<char>) -> int
    decreases t.len(),
{
    if t.len() == 0 {
        -1
    } else if t.last() == ' ' {
        t.len() - 1
    } else {
        last_space(t.drop_last())
    }
}

/// `s` without the last word: one trailing space is set aside, the text is
/// cut after the last space that remains, and a single space is all that is
/// left when there is none.
pub open spec fn erase_word(s: Seq<char>) -> Seq<char> {
    let t = if s.len() > 0 && s.last() == ' ' {
        s.drop_last()
    } else {
        s
    };
    if last_space(t) >= 0 {
        s.take(last_space(t) + 1)
    } else {
        seq![' ']
    }
}

/// Whether position `i` of `s` starts a whitespace-delimited word.
pub open spec fn starts_word(s: Seq<char>, i: int) -> bool {
    !white_space(s[i]) && (i == 0 || white_space(s[i - 1]))
}

/// The number of whitespace-delimited words that begin below position `n`.
pub open spec fn words_upto(s: Seq<char>, n: nat) -> nat
    decreases n,
{
    if n == 0 {
        0
    } else {
        words_upto(s, (n - 1) as nat) + if starts_word(s, n - 1) {
            1nat
        } else {
            0nat
        }
    }
}

/// The number of whitespace-delimited words in `s`.
pub open spec fn word_count_of(s: Seq<char>) -> nat {
    words_upto(s, s.len())
}

/// The parts of an accuracy score. The score in percent is
/// `(net + correct) / 2 * 100 / typed`, undefined when nothing is typed.
#[derive(Debug, Clone, Copy, PartialEq, Eq, Structural)]
pub struct Score {
    /// Positions of the input that hold the goal's character.
    pub correct: usize,
    /// `correct` less the positions ever mistyped this round, or zero.
    pub net: usize,
    /// Length of the input.
    pub typed: usize,
}

/// A finite set of indices all below `n` has at most `n` elements.
proof fn lemma_bounded_indices(s: Set<usize>, n: nat)
    requires
        s.finite(),
        forall|i: usize| s.contains(i) ==> i < n,
    ensures
        s.len() <= n,
    decreases n,
{
    if n == 0 {
        if s.len() > 0 {
            let x = s.choose();
            assert(s.contains(x));
        }
    } else {
        let r = s.remove((n - 1) as usize);
        lemma_bounded_indices(r, (n - 1) as nat);
    }
}

/// How a fragment of the displayed phrase is to be shown.
#[derive(Debug, Clone, Copy, PartialEq, Eq, Structural)]
pub enum SpanKind {
    /// A typed character that matches the goal.
    Match,
    /// A typed character that differs from the goal.
    Mismatch,
    /// The part of the goal not typed yet.
    Pending,
    /// The insertion point after the typed characters.
    Cursor,
}

/// A piece of text with its classification, ready for display.
#[derive(Debug)]
pub struct Fragment {
    pub text: Vec<char>,
    pub kind: SpanKind,
}

/// The classification of typed position `i`.
pub open spec fn kind_at(cur: Seq<char>, goal: Seq<char>, i: int) -> SpanKind {
    if cur[i] == goal[i] {
        SpanKind::Match
    } else {
        SpanKind::Mismatch
    }
}

/// The character shown at typed position `i`: the goal's, except where the
/// goal holds a space, which shows what was typed there instead.
pub open spec fn shown_at(cur: Seq<char>, goal: Seq<char>, i: int) -> char {
    if goal[i] != ' ' {
        goal[i]
    } else {
        cur[i]
    }
}

/// The glyph of the cursor.
pub const CURSOR: char = '\u{2588}';

/// Words typed over a span of time; words per minute is
/// `words / (millis / 60000)`.
#[derive(Debug, Clone, Copy, PartialEq, Eq, Structural)]
pub struct Rate {
    pub words: usize,
    pub millis: u64,
}

/// Counts the whitespace-delimited words of `s`.
pub fn count_words(s: &Vec<char>) -> (r: usize)
    ensures
        r == word_count_of(s@),
{
    let mut n: usize = 0;
    let mut i: usize = 0;
    let mut prev_white = true;
    while i < s.len()
        invariant
            i <= s@.len(),
            n == words_upto(s@, i as nat),
            n <= i,
            i > 0 ==> prev_white == white_space(s@[i - 1]),
            i == 0 ==> prev_white,
        decreases s@.len() - i,
    {
        let white = is_whitespace(s[i]);
        if !white && prev_white {
            n = n + 1;
        }
        prev_white = white;
        i = i + 1;
    }
    n
}

/// Whether `g` holds the forbidden character.
fn has_forbidden(g: &Vec<char>) -> (r: bool)
    ensures
        r == !is_clean(g@),
{
    let mut i: usize = 0;
    while i < g.len()
        invariant
            i <= g@.len(),
            forall|j: int| 0 <= j < i ==> g@[j] != FORBIDDEN,
        decreases g@.len() - i,
    {
        if g[i] == FORBIDDEN {
            return true;
        }
        i = i + 1;
    }
    false
}

/// Draws phrases of `words` words until one is free of the forbidden
/// character, giving up after `MAX_DRAWS` draws. A phrase handed back is one
/// that the source drew for `words` words.
fn draw_goal(words: usize) -> (r: Option<Vec<char>>)
    ensures
        r matches Some(g) ==> {
            &&& is_clean(g@)
            &&& is_phrase(g@, words as nat)
            &&& word_count_of(g@) == words
        },
{
    let mut n: usize = 0;
    while n < MAX_DRAWS
        decreases MAX_DRAWS - n,
    {
        let g = random_phrase(words);
        if !has_forbidden(&g) {
            proof {
                lemma_phrase_word_count(g@, words as nat);
            }
            return Some(g);
        }
        n = n + 1;
    }
    None
}

/// A phrase of `n` words, as the phrase source draws it, has `n`
/// whitespace-delimited words.
pub proof fn lemma_phrase_word_count(s: Seq<char>, n: nat)
    requires
        is_phrase(s, n),
    ensures
        word_count_of(s) == n,
{
    if s.len() > 0 {
        lemma_words_upto_phrase(s, n, s.len());
        assert(s.take(s.len() as int) =~= s);
    }
}

/// In a phrase, the words that begin in the first `k` characters are the
/// spaces among them, plus one unless the `k`-th character is a space.
proof fn lemma_words_upto_phrase(s: Seq<char>, n: nat, k: nat)
    requires
        is_phrase(s, n),
        1 <= k <= s.len(),
    ensures
        words_upto(s, k) == count_spaces(s.take(k as int)) + if s[k - 1] == ' ' {
            0nat
        } else {
            1nat
        },
    decreases k,
{
    assert(s.take(k as int).drop_last() =~= s.take(k - 1));
    if k == 1 {
        assert(words_upto(s, 0) == 0);
        assert(count_spaces(s.take(0)) == 0);
        assert(!white_space(s[0]));
    } else {
        lemma_words_upto_phrase(s, n, (k - 1) as nat);
        if s[k - 1] == ' ' {
            assert(white_space(s[k - 1]));
        } else {
            assert(!white_space(s[k - 1]));
            assert(white_space(s[k - 2]) <==> s[k - 2] == ' ');
        }
    }
}

/// One round of typing against a goal phrase. Times are milliseconds on a
/// clock of the caller's choosing.
#[derive(Debug)]
pub struct TypingGame {
    pub goal: Vec<char>,
    pub current: Vec<char>,
    pub start_time: Option<u64>,
    pub end_time: Option<u64>,
    pub word_count: usize,
    pub mistakes: usize,
    pub mistake_indices: HashSet<usize>,
}

impl TypingGame {
    /// The session's invariant.
    pub open spec fn wf(&self) -> bool {
        &&& self.current@.len() <= self.goal@.len()
        &&& self.end_time.is_some() ==> self.start_time.is_some() && self.is_complete()
        &&& self.current@.len() > 0 ==> self.start_time.is_some()
        &&& self.is_complete() && self.goal@.len() > 0 ==> self.end_time.is_some()
        &&& self.mistake_indices@.finite()
        &&& forall|i: usize| self.mistake_indices@.contains(i) ==> i < self.goal@.len()
        &&& self.mistakes == self.mistake_indices@.len()
    }

    /// The whole goal has been typed.
    pub open spec fn is_complete(&self) -> bool {
        self.current@.len() == self.goal@.len()
    }

    /// `self` is `pre` after `type_char(ch, now)`.
    pub open spec fn typed_from(&self, pre: TypingGame, ch: char, now: u64) -> bool {
        if pre.is_complete() {
            *self == pre
        } else {
            &&& self.current@ == pre.current@.push(ch)
            &&& self.goal == pre.goal
            &&& self.start_time == if pre.current@.len() == 0 {
                Some(now)
            } else {
                pre.start_time
            }
            &&& self.end_time == if self.is_complete() {
                Some(now)
            } else {
                pre.end_time
            }
            &&& self.word_count == pre.word_count
            &&& self.mistakes == pre.mistakes
            &&& self.mistake_indices == pre.mistake_indices
        }
    }

    /// `self` is `pre` with only its input replaced, by `cur` unless the round
    /// is complete or nothing has been typed.
    pub open spec fn edited_from(&self, pre: TypingGame, cur: Seq<char>) -> bool {
        if pre.is_complete() || pre.current@.len() == 0 {
            *self == pre
        } else {
            &&& self.current@ == cur
            &&& self.goal == pre.goal
            &&& self.start_time == pre.start_time
            &&& self.end_time == pre.end_time
            &&& self.word_count == pre.word_count
            &&& self.mistakes == pre.mistakes
            &&& self.mistake_indices == pre.mistake_indices
        }
    }

    /// `self` is `pre` after `accuracy`: every position of the input that
    /// differs from the goal is now among the mistyped ones.
    pub open spec fn scored_from(&self, pre: TypingGame) -> bool {
        &&& self.mistake_indices@ == pre.mistake_indices@ + mismatches(pre.current@, pre.goal@)
        &&& self.goal == pre.goal
        &&& self.current == pre.current
        &&& self.start_time == pre.start_time
        &&& self.end_time == pre.end_time
        &&& self.word_count == pre.word_count
    }

    /// `self` is `pre` after `reset`: a fresh round on the same goal.
    pub open spec fn reset_from(&self, pre: TypingGame) -> bool {
        &&& self.current@.len() == 0
        &&& self.start_time.is_none()
        &&& self.end_time.is_none()
        &&& self.mistakes == 0
        &&& self.mistake_indices@ == Set::<usize>::empty()
        &&& self.goal == pre.goal
        &&& self.word_count == pre.word_count
    }

    /// A session on the given goal, before any typing; `words` is the number
    /// of words asked of the phrase source on a new goal.
    pub fn from_goal(goal: Vec<char>, words: usize) -> (r: TypingGame)
        ensures
            r.wf(),
            r.goal == goal,
            r.word_count == words,
            r.current@.len() == 0,
            r.start_time.is_none(),
            r.end_time.is_none(),
            r.mistakes == 0,
            r.mistake_indices@ == Set::<usize>::empty(),
    {
        TypingGame {
            goal,
            current: Vec::new(),
            start_time: None,
            end_time: None,
            word_count: words,
            mistakes: 0,
            mistake_indices: HashSet::new(),
        }
    }

    /// Starts the round over on the same goal.
    pub fn reset(&mut self)
        ensures
            final(self).wf(),
            final(self).reset_from(*old(self)),
    {
        self.current = Vec::new();
        self.start_time = None;
        self.end_time = None;
        self.mistake_indices.clear();
        self.mistakes = 0;
    }

    /// Appends a typed character, unless the round is complete. The first
    /// character starts the clock; the one that fills the goal stops it.
    pub fn type_char(&mut self, ch: char, now: u64)
        requires
            old(self).wf(),
        ensures
            final(self).wf(),
            final(self).typed_from(*old(self), ch, now),
            old(self).is_complete() ==> *final(self) == *old(self),
    {
        if self.current.len() < self.goal.len() {
            if self.current.len() == 0 {
                self.start_time = Some(now);
            }
            self.current.push(ch);
            if self.current.len() == self.goal.len() {
                self.end_time = Some(now);
            }
        }
    }

    /// Removes the last typed character, unless the round is complete.
    pub fn backspace(&mut self)
        requires
            old(self).wf(),
        ensures
            final(self).wf(),
            final(self).edited_from(*old(self), old(self).current@.drop_last()),
    {
        if self.current.len() > 0 && self.current.len() < self.goal.len() {
            self.current.pop();
        }
    }

    /// Removes the last typed word, unless the round is complete, and leaves
    /// the input ending in a space.
    pub fn backspace_word(&mut self)
        requires
            old(self).wf(),
        ensures
            final(self).wf(),
            final(self).edited_from(*old(self), erase_word(old(self).current@)),
    {
        let len = self.current.len();
        if len > 0 && len < self.goal.len() {
            let ghost s = self.current@;
            let tlen: usize = if self.current[len - 1] == ' ' {
                len - 1
            } else {
                len
            };
            let ghost t = s.take(tlen as int);
            assert(t =~= if s.last() == ' ' {
                s.drop_last()
            } else {
                s
            });
            let mut k: usize = tlen;
            while k > 0 && self.current[k - 1] != ' '
                invariant
                    k <= tlen <= len,
                    self.current@ == s,
                    len == s.len(),
                    last_space(t) == last_space(s.take(k as int)),
                decreases k,
            {
                assert(s.take(k as int).drop_last() =~= s.take(k - 1));
                k = k - 1;
            }
            if k > 0 {
                assert(s.take(k as int).last() == ' ');
                self.current.truncate(k);
                assert(self.current@ =~= erase_word(s));
            } else {
                assert(last_space(s.take(0)) == -1);
                self.current.clear();
                self.current.push(' ');
                assert(self.current@ =~= erase_word(s));
            }
        }
    }
    /// Records every position of the input that now differs from the goal
    /// as mistyped (once), and scores the input.
    pub fn accuracy(&mut self) -> (r: Score)
        requires
            old(self).wf(),
        ensures
            final(self).wf(),
            final(self).scored_from(*old(self)),
            r.correct == correct_count(old(self).current@, old(self).goal@),
            r.net == if r.correct >= final(self).mistakes {
                r.correct - final(self).mistakes
            } else {
                0
            },
            r.typed == old(self).current@.len(),
    {
        let ghost cur = self.current@;
        let ghost goal = self.goal@;
        let ghost before = self.mistake_indices@;
        let glen: usize = self.goal.len();
        let mut correct: usize = 0;
        let mut i: usize = 0;
        while i < self.current.len()
            invariant
                i <= cur.len() <= goal.len(),
                glen == goal.len(),
                self.current@ == cur,
                self.goal@ == goal,
                self.goal == old(self).goal,
                self.current == old(self).current,
                self.start_time == old(self).start_time,
                self.end_time == old(self).end_time,
                self.word_count == old(self).word_count,
                old(self).wf(),
                correct <= i,
                self.mistake_indices@.finite(),
                self.mistake_indices@ == before + Set::new(
                    |j: usize| j < i && cur[j as int] != goal[j as int],
                ),
                forall|j: usize| self.mistake_indices@.contains(j) ==> j < goal.len(),
                self.mistakes == self.mistake_indices@.len(),
                correct == correct_upto(cur, goal, i as nat),
            decreases cur.len() - i,
        {
            if self.current[i] == self.goal[i] {
                correct = correct + 1;
            } else if !self.mistake_indices.contains(&i) {
                proof {
                    assert(self.mistake_indices@.insert(i).len() == self.mistakes + 1);
                    lemma_bounded_indices(self.mistake_indices@.insert(i), goal.len());
                }
                self.mistakes = self.mistakes + 1;
                self.mistake_indices.insert(i);
            }
            assert(self.mistake_indices@ =~= before + Set::new(
                |j: usize| j < i + 1 && cur[j as int] != goal[j as int],
            ));
            i = i + 1;
        }
        assert(Set::new(|j: usize| j < i && cur[j as int] != goal[j as int]) =~= mismatches(
            cur,
            goal,
        ));
        let net: usize = if correct >= self.mistakes {
            correct - self.mistakes
        } else {
            0
        };
        Score { correct, net, typed: self.current.len() }
    }
    /// One fragment per typed character: the character shown (see
    /// `shown_at`), classed as a match or a mismatch.
    pub fn curr_spans(&self) -> (r: Vec<Fragment>)
        requires
            self.wf(),
        ensures
            r@.len() == self.current@.len(),
            forall|i: int|
                0 <= i < r@.len() ==> {
                    &&& (#[trigger] r@[i]).text@ == seq![shown_at(self.current@, self.goal@, i)]
                    &&& r@[i].kind == kind_at(self.current@, self.goal@, i)
                },
    {
        let mut r: Vec<Fragment> = Vec::new();
        let mut i: usize = 0;
        while i < self.current.len()
            invariant
                self.wf(),
                i <= self.current@.len(),
                r@.len() == i,
                forall|j: int|
                    0 <= j < i ==> {
                        &&& (#[trigger] r@[j]).text@ == seq![shown_at(self.current@, self.goal@, j)]
                        &&& r@[j].kind == kind_at(self.current@, self.goal@, j)
                    },
            decreases self.current@.len() - i,
        {
            let g = self.goal[i];
            let c = self.current[i];
            let kind = if g == c {
                SpanKind::Match
            } else {
                SpanKind::Mismatch
            };
            let shown = if g != ' ' {
                g
            } else {
                c
            };
            r.push(Fragment { text: vec![shown], kind });
            i = i + 1;
        }
        r
    }

    /// One fragment per typed character, showing the goal's character and
    /// classed as a match or a mismatch, then the cursor when anything has
    /// been typed.
    pub fn cursor_spans(&self) -> (r: Vec<Fragment>)
        requires
            self.wf(),
        ensures
            r@.len() == if self.current@.len() == 0 {
                0
            } else {
                self.current@.len() + 1
            },
            forall|i: int|
                0 <= i < self.current@.len() ==> {
                    &&& (#[trigger] r@[i]).text@ == seq![self.goal@[i]]
                    &&& r@[i].kind == kind_at(self.current@, self.goal@, i)
                },
            self.current@.len() > 0 ==> {
                &&& r@.last().text@ == seq![CURSOR]
                &&& r@.last().kind == SpanKind::Cursor
            },
    {
        let mut r: Vec<Fragment> = Vec::new();
        let mut i: usize = 0;
        while i < self.current.len()
            invariant
                self.wf(),
                i <= self.current@.len(),
                r@.len() == i,
                forall|j: int|
                    0 <= j < i ==> {
                        &&& (#[trigger] r@[j]).text@ == seq![self.goal@[j]]
                        &&& r@[j].kind == kind_at(self.current@, self.goal@, j)
                    },
            decreases self.current@.len() - i,
        {
            let g = self.goal[i];
            let kind = if g == self.current[i] {
                SpanKind::Match
            } else {
                SpanKind::Mismatch
            };
            r.push(Fragment { text: vec![g], kind });
            i = i + 1;
        }
        if r.len() > 0 {
            r.push(Fragment { text: vec![CURSOR], kind: SpanKind::Cursor });
        }
        r
    }

    /// The fragments of `curr_spans`, then the untyped rest of the goal as
    /// one pending fragment.
    pub fn spans(&self) -> (r: Vec<Fragment>)
        requires
            self.wf(),
        ensures
            r@.len() == self.current@.len() + 1,
            forall|i: int|
                0 <= i < self.current@.len() ==> {
                    &&& (#[trigger] r@[i]).text@ == seq![shown_at(self.current@, self.goal@, i)]
                    &&& r@[i].kind == kind_at(self.current@, self.goal@, i)
                },
            r@.last().text@ == self.goal@.skip(self.current@.len() as int),
            r@.last().kind == SpanKind::Pending,
    {
        let mut r = self.curr_spans();
        let mut rest: Vec<char> = Vec::new();
        let mut i: usize = self.current.len();
        while i < self.goal.len()
            invariant
                self.wf(),
                self.current@.len() <= i <= self.goal@.len(),
                rest@ == self.goal@.subrange(self.current@.len() as int, i as int),
            decreases self.goal@.len() - i,
        {
            rest.push(self.goal[i]);
            i = i + 1;
            assert(rest@ =~= self.goal@.subrange(self.current@.len() as int, i as int));
        }
        assert(rest@ =~= self.goal@.skip(self.current@.len() as int));
        r.push(Fragment { text: rest, kind: SpanKind::Pending });
        r
    }
    /// A session on a goal of `words` random words, before any typing; `None`
    /// when no phrase free of the forbidden character came in `MAX_DRAWS`
    /// draws.
    pub fn new(words: usize) -> (r: Option<TypingGame>)
        ensures
            r matches Some(game) ==> {
                &&& game.wf()
                &&& is_clean(game.goal@)
                &&& is_phrase(game.goal@, words as nat)
                &&& word_count_of(game.goal@) == words
                &&& game.word_count == words
                &&& game.current@.len() == 0
                &&& game.start_time.is_none()
                &&& game.end_time.is_none()
                &&& game.mistakes == 0
                &&& game.mistake_indices@ == Set::<usize>::empty()
            },
    {
        match draw_goal(words) {
            Some(goal) => Some(TypingGame::from_goal(goal, words)),
            None => None,
        }
    }

    /// Replaces the goal with a new random phrase of `word_count` words and
    /// returns `true`; leaves the session as it is and returns `false` when no
    /// phrase free of the forbidden character came. The input is kept: the
    /// caller starts a new round with `reset`.
    pub fn new_goal(&mut self) -> (r: bool)
        ensures
            r ==> is_clean(final(self).goal@),
            r ==> is_phrase(final(self).goal@, old(self).word_count as nat),
            r ==> word_count_of(final(self).goal@) == old(self).word_count,
            !r ==> final(self).goal == old(self).goal,
            final(self).current == old(self).current,
            final(self).start_time == old(self).start_time,
            final(self).end_time == old(self).end_time,
            final(self).word_count == old(self).word_count,
            final(self).mistakes == old(self).mistakes,
            final(self).mistake_indices == old(self).mistake_indices,
    {
        match draw_goal(self.word_count) {
            Some(goal) => {
                self.goal = goal;
                true
            },
            None => false,
        }
    }

    /// Words typed so far over the time since the first keystroke, at time
    /// `now`, which is not before that keystroke.
    pub fn wpm(&self, now: u64) -> (r: Rate)
        requires
            self.start_time matches Some(start) && start <= now,
        ensures
            r.words == word_count_of(self.current@),
            r.millis == now - self.start_time.unwrap(),
    {
        let start = self.start_time.unwrap();
        Rate { words: count_words(&self.current), millis: now - start }
    }

    /// The configured number of words over the time from the first keystroke
    /// to completion, on a complete round whose clock did not run backwards.
    pub fn final_wpm(&self) -> (r: Rate)
        requires
            self.start_time matches Some(start) && self.end_time matches Some(end) && start <= end,
        ensures
            r.words == self.word_count,
            r.millis == self.end_time.unwrap() - self.start_time.unwrap(),
    {
        let start = self.start_time.unwrap();
        let end = self.end_time.unwrap();
        Rate { words: self.word_count, millis: end - start }
    }
}

} // verus!
