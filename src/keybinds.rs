//! Mapping of key presses to session actions.
use vstd::prelude::*;

use crate::phrase::is_phrase;
use crate::typing::{erase_word, is_clean, word_count_of, TypingGame};

verus! {

/// The key of a key event, as far as the game tells keys apart.
#[derive(Debug, Clone, Copy, PartialEq, Eq, Structural)]
pub enum KeyCode {
    Char(char),
    Backspace,
    Esc,
    Tab,
    Other,
}

/// A key event: the key, the modifiers held, and whether the key was
/// released rather than pressed.
#[derive(Debug, Clone, Copy, PartialEq, Eq, Structural)]
pub struct KeyEvent {
    pub code: KeyCode,
    pub control: bool,
    pub alt: bool,
    pub release: bool,
}

/// The key asks to leave the game.
pub open spec fn is_quit(key: KeyEvent) -> bool {
    key.control && key.code == KeyCode::Char('c')
}

/// Applies one key event to the game, at time `now`. Release events are
/// dropped when `skip_release` is set (on platforms that report them).
/// Control-C returns `Err` and changes nothing; a character is typed;
/// backspace removes a character, or a word with Alt held; Escape starts the
/// round over; Tab draws a new goal and starts the round over.
pub fn handle_keybinds(game: &mut TypingGame, key: &KeyEvent, now: u64, skip_release: bool) -> (r:
    Result<(), ()>)
    requires
        old(game).wf(),
    ensures
        final(game).wf(),
        r.is_err() <==> !(skip_release && key.release) && is_quit(*key),
        (skip_release && key.release) || is_quit(*key) ==> *final(game) == *old(game),
        !(skip_release && key.release) && !is_quit(*key) ==> match key.code {
            KeyCode::Char(ch) => final(game).typed_from(*old(game), ch, now),
            KeyCode::Backspace => if key.alt {
                final(game).edited_from(*old(game), erase_word(old(game).current@))
            } else {
                final(game).edited_from(*old(game), old(game).current@.drop_last())
            },
            KeyCode::Esc => final(game).reset_from(*old(game)),
            KeyCode::Tab => {
                &&& final(game).current@.len() == 0
                &&& final(game).start_time.is_none()
                &&& final(game).end_time.is_none()
                &&& final(game).mistakes == 0
                &&& final(game).word_count == old(game).word_count
                &&& final(game).goal == old(game).goal || {
                    &&& is_clean(final(game).goal@)
                    &&& is_phrase(final(game).goal@, old(game).word_count as nat)
                    &&& word_count_of(final(game).goal@) == old(game).word_count
                }
            },
            KeyCode::Other => *final(game) == *old(game),
        },
{
    if skip_release && key.release {
        return Ok(());
    }
    if key.control && key.code == KeyCode::Char('c') {
        return Err(());
    }
    match key.code {
        KeyCode::Char(ch) => game.type_char(ch, now),
        KeyCode::Backspace => {
            if key.alt {
                game.backspace_word();
            } else {
                game.backspace();
            }
        },
        KeyCode::Esc => game.reset(),
        KeyCode::Tab => {
            game.new_goal();
            game.reset();
        },
        KeyCode::Other => {},
    }
    Ok(())
}

} // verus!
