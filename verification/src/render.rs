//! The renderer: what one character contributes to the output, given the
//! styles active after it was consumed, and the pass over a whole
//! document.

use crate::mode::fold_update;
use crate::mode::lemma_fold_snoc;
use crate::mode::update_modes;
use crate::mode::Mode;
use crate::style::bold_str;
use crate::style::char_to_string;
use crate::style::italic_str;
use crate::style::reset_count;
use crate::style::truecolor_str;
use crate::style::underline_str;
use vstd::prelude::*;
use vstd::string::StringExecFns;

verus! {

/// A character is suppressed when a heading is active and it is a `#`
/// or a space: the heading markers and the space after them are not
/// echoed.
pub open spec fn spec_suppressed(m: Mode, c: char) -> bool {
    m.heading_level >= 1 && (c == ' ' || c == '#')
}

/// No style is active: such a character is echoed unchanged.
pub open spec fn spec_plain(m: Mode) -> bool {
    m.heading_level == 0 && !m.bold && !m.italic && !m.quote
}

/// The output fragment for one character under the given state:
/// nothing when the character is suppressed, the bare character when no
/// style is active, and otherwise the character wrapped in the active
/// styles (bold, italic, the muted blockquote color, and the color,
/// bold and — up to level three — underline of the heading level).
pub fn render_char_as_string(mode: &Mode, c: char) -> (r: String)
    ensures
        spec_suppressed(*mode, c) ==> r@ == Seq::<char>::empty(),
        !spec_suppressed(*mode, c) && spec_plain(*mode) ==> r@ == seq![c],
        !spec_suppressed(*mode, c) ==> r@.len() >= 1,
        !spec_suppressed(*mode, c) ==> r@.contains(c),
        r@.len() <= 256,
{
    if mode.get_heading_level() >= 1 && (c == ' ' || c == '#') {
        return String::new();
    }

    let mut result = char_to_string(c);
    assert(reset_count(result@) == 0);
    assert(result@.contains(c)) by {
        assert(result@[0] == c);
    }

    if mode.is_bold() {
        result = bold_str(result.as_str());
    }
    assert(result@.len() <= 9 && reset_count(result@) <= 1);

    if mode.is_italic() {
        result = italic_str(result.as_str());
    }
    assert(result@.len() <= 21 && reset_count(result@) <= 2);

    if mode.is_quote() {
        result = truecolor_str(result.as_str(), 131, 131, 131);
    }
    assert(result@.len() <= 82 && reset_count(result@) <= 3);

    let level = mode.get_heading_level();
    if level == 1 {
        result = truecolor_str(result.as_str(), 123, 178, 65);
        result = bold_str(result.as_str());
        result = underline_str(result.as_str());
    } else if level == 2 {
        result = truecolor_str(result.as_str(), 103, 184, 176);
        result = bold_str(result.as_str());
        result = underline_str(result.as_str());
    } else if level == 3 {
        result = truecolor_str(result.as_str(), 37, 196, 216);
        result = bold_str(result.as_str());
        result = underline_str(result.as_str());
    } else if level == 4 {
        result = truecolor_str(result.as_str(), 3, 169, 244);
        result = bold_str(result.as_str());
    } else if level == 5 {
        result = truecolor_str(result.as_str(), 156, 40, 176);
        result = bold_str(result.as_str());
    } else if level == 6 {
        result = truecolor_str(result.as_str(), 229, 29, 97);
        result = bold_str(result.as_str());
    }

    result
}

/// After at least one `#` and then only `#` characters, a heading is
/// active.
proof fn lemma_hash_prefix_heading(m: Mode, s: Seq<char>, j: int)
    requires
        m.heading_level == 0,
        1 <= j <= s.len(),
        forall|i: int| 0 <= i < j ==> s[i] == '#',
    ensures
        fold_update(m, s.subrange(0, j)).heading_level >= 1,
    decreases j,
{
    if j == 1 {
        assert(s.subrange(0, 1) =~= Seq::<char>::empty().push(s[0]));
        lemma_fold_snoc(m, Seq::<char>::empty(), s[0]);
    } else {
        lemma_hash_prefix_heading(m, s, j - 1);
        assert(s.subrange(0, j) =~= s.subrange(0, j - 1).push(s[j - 1]));
        lemma_fold_snoc(m, s.subrange(0, j - 1), s[j - 1]);
    }
}

/// A run of `#` characters followed by a single space, beginning where
/// no heading is active, is fully suppressed: each of those characters
/// contributes nothing to the output. A newline resets the heading
/// level to zero, so a later run on a later line is suppressed
/// independently, by this same fact.
pub proof fn lemma_hash_run_suppressed(m: Mode, s: Seq<char>, k: int)
    requires
        m.heading_level == 0,
        1 <= k,
        s.len() == k + 1,
        forall|i: int| 0 <= i < k ==> s[i] == '#',
        s[k] == ' ',
    ensures
        forall|i: int|
            0 <= i < s.len() ==> spec_suppressed(fold_update(m, s.subrange(0, i + 1)), s[i]),
{
    assert forall|i: int| 0 <= i < s.len() implies spec_suppressed(
        fold_update(m, s.subrange(0, i + 1)),
        s[i],
    ) by {
        if i == 0 {
            assert(s.subrange(0, 1) =~= Seq::<char>::empty().push(s[0]));
            lemma_fold_snoc(m, Seq::<char>::empty(), s[0]);
        } else {
            lemma_hash_prefix_heading(m, s, i);
            assert(s.subrange(0, i + 1) =~= s.subrange(0, i).push(s[i]));
            lemma_fold_snoc(m, s.subrange(0, i), s[i]);
        }
    }
}

/// No character of `s` is a style marker.
pub open spec fn spec_no_markers(s: Seq<char>) -> bool {
    forall|i: int| 0 <= i < s.len() ==> s[i] != '#' && s[i] != '*' && s[i] != '>'
}

/// What `render_char_as_string` promises of the fragment for character
/// `c` under state `m`: suppressed characters contribute nothing, a
/// character under no active style is echoed alone, and any other
/// character survives inside a fragment of boundedly many characters.
pub open spec fn spec_good_fragment(m: Mode, c: char, frag: Seq<char>) -> bool {
    &&& (spec_suppressed(m, c) ==> frag == Seq::<char>::empty())
    &&& (!spec_suppressed(m, c) && spec_plain(m) ==> frag == seq![c])
    &&& (!spec_suppressed(m, c) ==> frag.len() >= 1 && frag.contains(c))
    &&& frag.len() <= 256
}

/// Renders a whole document: every character is fed to the state
/// machine and its output fragment, possibly empty and possibly styled,
/// is appended to the output. Suppression only removes characters and
/// styling adds boundedly many, so the output stays within a fixed
/// per-character overhead; a document without style markers is returned
/// unchanged.
pub fn render_text(input: &Vec<char>) -> (out: String)
    ensures
        out@.len() <= 256 * input@.len(),
        spec_no_markers(input@) ==> out@ == input@,
        exists|frags: Seq<Seq<char>>|
            #![auto]
            frags.len() == input@.len() && out@ == frags.flatten() && (forall|i: int|
                0 <= i < input@.len() ==> spec_good_fragment(
                    fold_update(Mode::spec_initial(), input@.take(i + 1)),
                    input@[i],
                    frags[i],
                )),
{
    let mut out = String::new();
    let mut mode = Mode::initial();
    let ghost mut frags: Seq<Seq<char>> = Seq::empty();
    let mut i: usize = 0;
    while i < input.len()
        invariant
            i <= input.len(),
            out@.len() <= 256 * i,
            frags.len() == i,
            out@ == frags.flatten(),
            mode == fold_update(Mode::spec_initial(), input@.take(i as int)),
            forall|j: int|
                0 <= j < i ==> spec_good_fragment(
                    fold_update(Mode::spec_initial(), input@.take(j + 1)),
                    input@[j],
                    #[trigger] frags[j],
                ),
            spec_no_markers(input@.take(i as int)) ==> spec_plain(mode)
                && mode.active_star_symbols == 0 && out@ == input@.take(i as int),
        decreases input.len() - i,
    {
        let c = input[i];
        proof {
            assert(input@.take(i + 1) =~= input@.take(i as int).push(c));
            lemma_fold_snoc(Mode::spec_initial(), input@.take(i as int), c);
        }
        mode = update_modes(mode, c);
        let frag = render_char_as_string(&mode, c);
        out.append(frag.as_str());
        proof {
            frags.lemma_flatten_push(frag@);
            frags = frags.push(frag@);
            let done = input@.take(i + 1);
            if spec_no_markers(done) {
                assert forall|j: int| 0 <= j < i as int implies #[trigger] input@.take(
                    i as int,
                )[j] != '#' && input@.take(i as int)[j] != '*' && input@.take(i as int)[j]
                    != '>' by {
                    assert(input@.take(i as int)[j] == done[j]);
                }
                assert(spec_no_markers(input@.take(i as int)));
                assert(done[i as int] == c);
                assert(input@.take(i as int) + seq![c] =~= done);
            }
        }
        i += 1;
    }
    proof {
        assert(input@.take(input@.len() as int) =~= input@);
        assert(frags.len() == input@.len() && out@ == frags.flatten() && (forall|j: int|
            0 <= j < input@.len() ==> spec_good_fragment(
                fold_update(Mode::spec_initial(), input@.take(j + 1)),
                input@[j],
                #[trigger] frags[j],
            )));
    }
    out
}

} // verus!


