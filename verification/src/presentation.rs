//! Emoji / text presentation resolution for a grapheme cluster.
//!
//! A grapheme renders either in text style or in emoji style.  An
//! explicit variation selector (`U+FE0E` text, `U+FE0F` emoji) after a
//! base character that participates in the variation sequences wins;
//! absent a valid selector, the grapheme falls back to the default
//! presentation property of its characters.
//!
//! The character classes here are a curated, versioned data table: they
//! cover the blocks a terminal meets in practice and default everything
//! else to text presentation.  The table is replaceable data, not
//! exhaustive truth about future Unicode revisions.

use vstd::prelude::*;

verus! {

/// The glyph style a grapheme asks for; the font-selection layer uses
/// this to pick an emoji-capable or a text font.
#[derive(Debug, Clone, Copy, PartialEq, Eq, Structural)]
pub enum Presentation {
    Text,
    Emoji,
}

/// The text-presentation selector, `U+FE0E`.
pub const VARIATION_SELECTOR_TEXT: char = '\u{fe0e}';

/// The emoji-presentation selector, `U+FE0F`.
pub const VARIATION_SELECTOR_EMOJI: char = '\u{fe0f}';

/// Characters whose default presentation is emoji style.
pub open spec fn spec_default_emoji(cp: u32) -> bool {
    ||| (0x1F1E6 <= cp && cp <= 0x1F1FF)  // regional indicators
    ||| (0x1F300 <= cp && cp <= 0x1F64F)  // pictographs, emoticons
    ||| (0x1F680 <= cp && cp <= 0x1F6FF)  // transport
    ||| (0x1F900 <= cp && cp <= 0x1F9FF)  // supplemental pictographs
    ||| (0x1FA70 <= cp && cp <= 0x1FAFF)  // extended pictographs
    ||| (0x270A <= cp && cp <= 0x270B)  // raised fist, raised hand
    ||| cp == 0x2728  // sparkles
}

/// Characters that form registered variation sequences: only these may
/// be followed by `U+FE0E` or `U+FE0F` to force a presentation.
pub open spec fn spec_variation_base(cp: u32) -> bool {
    ||| cp == 0x00A9  // copyright
    ||| cp == 0x00AE  // registered
    ||| cp == 0x203C  // double exclamation
    ||| cp == 0x2049  // exclamation question
    ||| cp == 0x2139  // information
    ||| (0x2194 <= cp && cp <= 0x2199)  // arrows
    ||| (0x21A9 <= cp && cp <= 0x21AA)  // hooked arrows
    ||| (0x2600 <= cp && cp <= 0x2604)  // sun, cloud, umbrella, snowman, comet
    ||| (0x2639 <= cp && cp <= 0x263A)  // faces
    ||| (0x2640 <= cp && cp <= 0x2642)  // gender signs
    ||| (0x2660 <= cp && cp <= 0x2666)  // card suits
    ||| (0x270C <= cp && cp <= 0x270D)  // victory hand, writing hand
    ||| cp == 0x2764  // heavy black heart
    ||| (0x1F300 <= cp && cp <= 0x1F64F)  // pictographs, emoticons
    ||| (0x1F680 <= cp && cp <= 0x1F6FF)  // transport
}

fn default_emoji(c: char) -> (r: bool)
    ensures
        r == spec_default_emoji(c as u32),
{
    let cp = c as u32;
    (0x1F1E6 <= cp && cp <= 0x1F1FF) || (0x1F300 <= cp && cp <= 0x1F64F) || (0x1F680 <= cp && cp
        <= 0x1F6FF) || (0x1F900 <= cp && cp <= 0x1F9FF) || (0x1FA70 <= cp && cp <= 0x1FAFF) || (
    0x270A <= cp && cp <= 0x270B) || cp == 0x2728
}

fn variation_base(c: char) -> (r: bool)
    ensures
        r == spec_variation_base(c as u32),
{
    let cp = c as u32;
    cp == 0x00A9 || cp == 0x00AE || cp == 0x203C || cp == 0x2049 || cp == 0x2139 || (0x2194 <= cp
        && cp <= 0x2199) || (0x21A9 <= cp && cp <= 0x21AA) || (0x2600 <= cp && cp <= 0x2604) || (
    0x2639 <= cp && cp <= 0x263A) || (0x2640 <= cp && cp <= 0x2642) || (0x2660 <= cp && cp
        <= 0x2666) || (0x270C <= cp && cp <= 0x270D) || cp == 0x2764 || (0x1F300 <= cp && cp
        <= 0x1F64F) || (0x1F680 <= cp && cp <= 0x1F6FF)
}

/// The default presentation of a grapheme: emoji style as soon as any of
/// its characters defaults to emoji style, else text style.
pub open spec fn spec_default_presentation(s: Seq<char>) -> Presentation {
    if exists|i: int| 0 <= i < s.len() && #[trigger] spec_default_emoji(s[i] as u32) {
        Presentation::Emoji
    } else {
        Presentation::Text
    }
}

/// The presentation forced by an explicit variation selector, if the
/// grapheme carries a valid one; the rightmost valid selector wins.
pub open spec fn spec_explicit_presentation(s: Seq<char>) -> Option<Presentation>
    decreases s.len(),
{
    if s.len() < 2 {
        None
    } else {
        let last = s[s.len() - 1];
        let base = s[s.len() - 2];
        if last == VARIATION_SELECTOR_EMOJI && spec_variation_base(base as u32) {
            Some(Presentation::Emoji)
        } else if last == VARIATION_SELECTOR_TEXT && spec_variation_base(base as u32) {
            Some(Presentation::Text)
        } else {
            spec_explicit_presentation(s.drop_last())
        }
    }
}

impl Presentation {
    /// Resolve the presentation of a single grapheme cluster: its default
    /// presentation, and the presentation forced by an explicit variation
    /// selector when the cluster carries a valid one.
    pub fn for_grapheme(s: &str) -> (r: (Presentation, Option<Presentation>))
        ensures
            r.0 == spec_default_presentation(s@),
            r.1 == spec_explicit_presentation(s@),
    {
        let n = s.unicode_len();
        let mut any_emoji = false;
        let mut i: usize = 0;
        while i < n
            invariant
                0 <= i <= n,
                n == s@.len(),
                any_emoji == exists|j: int| 0 <= j < i && #[trigger] spec_default_emoji(
                    s@[j] as u32,
                ),
            decreases n - i,
        {
            if default_emoji(s.get_char(i)) {
                any_emoji = true;
            }
            i = i + 1;
        }
        let default = if any_emoji {
            Presentation::Emoji
        } else {
            Presentation::Text
        };

        let mut k: usize = n;
        let mut explicit: Option<Presentation> = None;
        proof {
            assert(s@.take(n as int) =~= s@);
        }
        while k >= 2 && explicit.is_none()
            invariant
                0 <= k <= n,
                n == s@.len(),
                match explicit {
                    Some(p) => spec_explicit_presentation(s@) == Some(p),
                    None => spec_explicit_presentation(s@) == spec_explicit_presentation(
                        s@.take(k as int),
                    ),
                },
            decreases k,
        {
            let last = s.get_char(k - 1);
            let base = s.get_char(k - 2);
            proof {
                assert(s@.take(k as int).drop_last() =~= s@.take(k - 1));
                assert(s@.take(k as int)[k as int - 1] == s@[k as int - 1]);
                assert(s@.take(k as int)[k as int - 2] == s@[k as int - 2]);
            }
            if last == VARIATION_SELECTOR_EMOJI && variation_base(base) {
                explicit = Some(Presentation::Emoji);
                k = 0;
            } else if last == VARIATION_SELECTOR_TEXT && variation_base(base) {
                explicit = Some(Presentation::Text);
                k = 0;
            } else {
                k = k - 1;
            }
        }
        (default, explicit)
    }
}

} // verus!
