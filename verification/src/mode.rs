//! The formatting state machine: which styles are active after each
//! character of the document, in document order.

use vstd::prelude::*;

verus! {

/// The styles active at one point of the document, together with the
/// bookkeeping the transitions need: the length of the current run of
/// `*` characters and the previously processed character.
pub struct Mode {
    /// Active heading level, `0` when no heading is active, at most `6`.
    pub heading_level: usize,
    /// How many `*` characters the current emphasis run has seen. The
    /// counter is only ever raised by a `*` (saturating, so that the
    /// transition stays total) and cleared by the new-run rule; another
    /// character never clears it.
    pub active_star_symbols: usize,
    /// The previously processed character, `'\0'` before the first one.
    pub last_char: char,
    /// Bold emphasis is active.
    pub bold: bool,
    /// Italic emphasis is active.
    pub italic: bool,
    /// A blockquote is active.
    pub quote: bool,
}

impl Mode {
    /// The state before any character has been processed.
    pub open spec fn spec_initial() -> Mode {
        Mode {
            heading_level: 0,
            active_star_symbols: 0,
            last_char: '\0',
            bold: false,
            italic: false,
            quote: false,
        }
    }

    /// The state is well formed: the heading level is at most six.
    pub open spec fn wf(self) -> bool {
        self.heading_level <= 6
    }

    /// What `incr_heading_level` leaves behind: one more `#`, saturating
    /// at level six.
    pub open spec fn spec_incr_heading(self) -> Mode {
        if self.heading_level < 6 {
            Mode { heading_level: (self.heading_level + 1) as usize, ..self }
        } else {
            self
        }
    }

    /// What `set_quote` leaves behind.
    pub open spec fn spec_set_quote(self) -> Mode {
        Mode { quote: true, ..self }
    }

    /// What `handle_newline` leaves behind: the heading ends, and a
    /// second consecutive newline (a blank line) ends the blockquote.
    pub open spec fn spec_newline(self) -> Mode {
        let cleared = Mode { heading_level: 0, ..self };
        if self.last_char == '\n' {
            Mode { quote: false, ..cleared }
        } else {
            cleared
        }
    }

    /// What `change_bold_italic` leaves behind: the `*`-run counter is
    /// raised; a run that reaches two without following a `*` is a new
    /// run and is first cleared together with both emphasis flags; then
    /// a run of one turns italic on, a run of two turns bold on, and a
    /// run of four turns bold off. Other run lengths change nothing.
    pub open spec fn spec_star(self) -> Mode {
        let bumped = Mode {
            active_star_symbols: if self.active_star_symbols < usize::MAX {
                (self.active_star_symbols + 1) as usize
            } else {
                self.active_star_symbols
            },
            ..self
        };
        let started = if bumped.active_star_symbols == 2 && bumped.last_char != '*' {
            Mode { italic: false, bold: false, active_star_symbols: 0, ..bumped }
        } else {
            bumped
        };
        if started.active_star_symbols == 1 {
            Mode { italic: true, bold: false, ..started }
        } else if started.active_star_symbols == 2 {
            Mode { italic: false, bold: true, ..started }
        } else if started.active_star_symbols == 4 {
            Mode { bold: false, ..started }
        } else {
            started
        }
    }

    /// The state before any character has been processed.
    pub fn initial() -> (m: Mode)
        ensures
            m == Mode::spec_initial(),
    {
        Mode {
            heading_level: 0,
            active_star_symbols: 0,
            last_char: '\0',
            bold: false,
            italic: false,
            quote: false,
        }
    }

    /// The italic flag.
    pub fn is_italic(&self) -> (r: bool)
        ensures
            r == self.italic,
    {
        self.italic
    }

    /// The bold flag.
    pub fn is_bold(&self) -> (r: bool)
        ensures
            r == self.bold,
    {
        self.bold
    }

    /// The blockquote flag.
    pub fn is_quote(&self) -> (r: bool)
        ensures
            r == self.quote,
    {
        self.quote
    }

    /// The active heading level, `0` when none is active.
    pub fn get_heading_level(&self) -> (r: usize)
        ensures
            r == self.heading_level,
    {
        self.heading_level
    }

    /// Raises the heading level by one, saturating at six.
    pub fn incr_heading_level(&mut self)
        ensures
            *final(self) == old(self).spec_incr_heading(),
    {
        if self.heading_level < 6 {
            self.heading_level += 1;
        }
    }

    /// Starts a blockquote.
    pub fn set_quote(&mut self)
        ensures
            *final(self) == old(self).spec_set_quote(),
    {
        self.quote = true;
    }

    /// Ends the heading; a blank line (two consecutive newlines) also
    /// ends the blockquote.
    pub fn handle_newline(&mut self)
        ensures
            *final(self) == old(self).spec_newline(),
    {
        self.heading_level = 0;

        if self.last_char == '\n' {
            self.quote = false;
        }
    }

    /// Applies one `*` of an emphasis run to the bold and italic flags.
    pub fn change_bold_italic(&mut self)
        ensures
            *final(self) == old(self).spec_star(),
    {
        if self.active_star_symbols < usize::MAX {
            self.active_star_symbols += 1;
        }

        if self.active_star_symbols == 2 && self.last_char != '*' {
            self.italic = false;
            self.bold = false;
            self.active_star_symbols = 0;
        }

        if self.active_star_symbols == 1 {
            self.italic = true;
            self.bold = false;
        } else if self.active_star_symbols == 2 {
            self.italic = false;
            self.bold = true;
        } else if self.active_star_symbols == 4 {
            self.bold = false;
        }
    }
}

/// The full transition for one character: `#` deepens the heading, `*`
/// advances the emphasis run, `>` starts a blockquote, a newline ends
/// the heading (and the quote after a blank line); every character
/// becomes the new `last_char`.
pub open spec fn spec_update(m: Mode, c: char) -> Mode {
    let stepped = if c == '#' {
        m.spec_incr_heading()
    } else if c == '*' {
        m.spec_star()
    } else if c == '>' {
        m.spec_set_quote()
    } else if c == '\n' {
        m.spec_newline()
    } else {
        m
    };
    Mode { last_char: c, ..stepped }
}

/// The state after a whole sequence of characters, processed in order.
pub open spec fn fold_update(m: Mode, s: Seq<char>) -> Mode
    decreases s.len(),
{
    if s.len() == 0 {
        m
    } else {
        fold_update(spec_update(m, s[0]), s.subrange(1, s.len() as int))
    }
}

/// The initial state is well formed, and every transition keeps the
/// state well formed: the heading level saturates at six.
pub proof fn lemma_update_preserves_wf(m: Mode, c: char)
    ensures
        Mode::spec_initial().wf(),
        m.wf() ==> spec_update(m, c).wf(),
{
}

/// A newline always resets the heading level to zero, whatever state
/// came before it.
pub proof fn lemma_newline_resets_heading(m: Mode)
    ensures
        spec_update(m, '\n').heading_level == 0,
{
}

/// A blockquote persists across a single newline; only a second
/// consecutive newline — a blank line — ends it.
pub proof fn lemma_quote_across_newline(m: Mode)
    ensures
        m.last_char != '\n' ==> spec_update(m, '\n').quote == m.quote,
        m.last_char == '\n' ==> !spec_update(m, '\n').quote,
{
}

/// Processing a sequence and then one more character is processing the
/// sequence with that character appended.
pub proof fn lemma_fold_snoc(m: Mode, s: Seq<char>, c: char)
    ensures
        fold_update(m, s.push(c)) == spec_update(fold_update(m, s), c),
    decreases s.len(),
{
    if s.len() == 0 {
        assert(s.push(c)[0] == c);
        assert(s.push(c).subrange(1, 1) =~= Seq::<char>::empty());
        assert(fold_update(m, s.push(c)) == fold_update(spec_update(m, c), Seq::<char>::empty()));
        assert(fold_update(spec_update(m, c), Seq::<char>::empty()) == spec_update(m, c));
    } else {
        assert(s.push(c)[0] == s[0]);
        assert(s.push(c).subrange(1, s.len() as int + 1) =~= s.subrange(1, s.len() as int).push(c));
        assert(fold_update(m, s.push(c)) == fold_update(
            spec_update(m, s[0]),
            s.subrange(1, s.len() as int).push(c),
        ));
        lemma_fold_snoc(spec_update(m, s[0]), s.subrange(1, s.len() as int), c);
        assert(fold_update(m, s) == fold_update(spec_update(m, s[0]), s.subrange(1, s.len() as int)));
    }
}

/// Consumes one character and returns the next state.
pub fn update_modes(mode: Mode, c: char) -> (m: Mode)
    ensures
        m == spec_update(mode, c),
{
    let mut mode = mode;
    if c == '#' {
        mode.incr_heading_level();
    } else if c == '*' {
        mode.change_bold_italic();
    } else if c == '>' {
        mode.set_quote();
    } else if c == '\n' {
        mode.handle_newline();
    }

    mode.last_char = c;
    mode
}

} // verus!
