//! Column-width resolution for graphemes and strings.
//!
//! The width of a character changed across Unicode revisions (version 9
//! widened many pictographs; version 14 added presentation-selector
//! semantics), and terminals disagree about which tables they follow.
//! The resolver therefore takes an optional conformance version and
//! keeps both the pre-9 and the 9-and-later width of every character.
//!
//! The range tables here are curated, versioned data covering the blocks
//! a terminal meets in practice; everything unlisted (private-use areas
//! included) defaults to width 1.  The tables are replaceable data, not
//! exhaustive truth about future Unicode revisions.

use unicode_segmentation::UnicodeSegmentation;
use vstd::prelude::*;

use crate::presentation::{
    spec_default_emoji, spec_default_presentation, spec_explicit_presentation,
    spec_variation_base, Presentation, VARIATION_SELECTOR_EMOJI, VARIATION_SELECTOR_TEXT,
};

verus! {

/// A Unicode conformance level, by major version number.
#[derive(Debug, Clone, Copy, PartialEq, Eq, Structural)]
pub struct UnicodeVersion(pub u8);

/// The newest conformance level this resolver understands; the default
/// when a caller supplies no explicit version.
pub const LATEST_UNICODE_VERSION: u8 = 14;

/// The version number a width call resolves to.
pub open spec fn spec_version(version: Option<UnicodeVersion>) -> u8 {
    match version {
        Some(v) => v.0,
        None => LATEST_UNICODE_VERSION,
    }
}

/// Characters that occupy no column of their own: combining marks,
/// zero-width joiners and marks, variation selectors, and tag characters.
pub open spec fn spec_zero_width(cp: u32) -> bool {
    ||| (0x0300 <= cp && cp <= 0x036F)  // combining diacritical marks
    ||| (0x200B <= cp && cp <= 0x200F)  // zero-width space, joiners, marks
    ||| cp == 0x2060  // word joiner
    ||| (0xFE00 <= cp && cp <= 0xFE0F)  // variation selectors
    ||| (0xE0000 <= cp && cp <= 0xE007F)  // tag characters
}

/// Characters that are two columns wide under every table version.
pub open spec fn spec_always_wide(cp: u32) -> bool {
    ||| (0x1100 <= cp && cp <= 0x115F)  // hangul jamo
    ||| (0x2E80 <= cp && cp <= 0xA4CF)  // CJK radicals .. yi syllables
    ||| (0xA960 <= cp && cp <= 0xA97F)  // hangul jamo extended
    ||| (0xAC00 <= cp && cp <= 0xD7A3)  // hangul syllables
    ||| (0xF900 <= cp && cp <= 0xFAFF)  // CJK compatibility ideographs
    ||| (0xFE30 <= cp && cp <= 0xFE4F)  // CJK compatibility forms
    ||| (0xFF00 <= cp && cp <= 0xFF60)  // fullwidth forms
    ||| (0xFFE0 <= cp && cp <= 0xFFE6)  // fullwidth signs
    ||| (0x20000 <= cp && cp <= 0x2FFFD)  // CJK extensions
    ||| (0x30000 <= cp && cp <= 0x3FFFD)  // CJK extensions
}

/// Characters the Unicode 9 tables widened from one column to two.
pub open spec fn spec_widened_in_9(cp: u32) -> bool {
    ||| (0x1F300 <= cp && cp <= 0x1F64F)  // pictographs, emoticons
    ||| (0x1F680 <= cp && cp <= 0x1F6FF)  // transport
    ||| (0x1F900 <= cp && cp <= 0x1F9FF)  // supplemental pictographs
    ||| (0x1FA70 <= cp && cp <= 0x1FAFF)  // extended pictographs
}

/// Per-character base width under the selected table: 0, 1 or 2 columns.
/// Unlisted characters (private-use areas included) default to width 1.
pub open spec fn spec_base_width(cp: u32, v9: bool) -> nat {
    if spec_zero_width(cp) {
        0
    } else if spec_always_wide(cp) {
        2
    } else if spec_widened_in_9(cp) {
        if v9 {
            2
        } else {
            1
        }
    } else {
        1
    }
}

fn base_width(c: char, v9: bool) -> (r: u8)
    ensures
        r as nat == spec_base_width(c as u32, v9),
        r <= 2,
{
    let cp = c as u32;
    let zero = (0x0300 <= cp && cp <= 0x036F) || (0x200B <= cp && cp <= 0x200F) || cp == 0x2060
        || (0xFE00 <= cp && cp <= 0xFE0F) || (0xE0000 <= cp && cp <= 0xE007F);
    let wide = (0x1100 <= cp && cp <= 0x115F) || (0x2E80 <= cp && cp <= 0xA4CF) || (0xA960 <= cp
        && cp <= 0xA97F) || (0xAC00 <= cp && cp <= 0xD7A3) || (0xF900 <= cp && cp <= 0xFAFF) || (
    0xFE30 <= cp && cp <= 0xFE4F) || (0xFF00 <= cp && cp <= 0xFF60) || (0xFFE0 <= cp && cp
        <= 0xFFE6) || (0x20000 <= cp && cp <= 0x2FFFD) || (0x30000 <= cp && cp <= 0x3FFFD);
    let widened = (0x1F300 <= cp && cp <= 0x1F64F) || (0x1F680 <= cp && cp <= 0x1F6FF) || (0x1F900
        <= cp && cp <= 0x1F9FF) || (0x1FA70 <= cp && cp <= 0x1FAFF);
    if zero {
        0
    } else if wide {
        2
    } else if widened {
        if v9 {
            2
        } else {
            1
        }
    } else {
        1
    }
}

/// The sum of the per-character base widths of a grapheme.
pub open spec fn spec_base_width_sum(s: Seq<char>, v9: bool) -> nat
    decreases s.len(),
{
    if s.len() == 0 {
        0
    } else {
        spec_base_width_sum(s.drop_last(), v9) + spec_base_width(s.last() as u32, v9)
    }
}

/// The number of columns a single grapheme cluster occupies under the
/// given conformance version: the summed base width clamped to two
/// columns, overridden from version 14 on by the grapheme's emoji or
/// text presentation.
pub open spec fn spec_grapheme_width(s: Seq<char>, version: u8) -> nat {
    let sum = spec_base_width_sum(s, version >= 9);
    let clamped = if sum < 2 {
        sum
    } else {
        2
    };
    if version >= 14 {
        match spec_explicit_presentation(s) {
            Some(Presentation::Emoji) => 2,
            Some(Presentation::Text) => 1,
            None => if spec_default_presentation(s) == Presentation::Emoji {
                2
            } else {
                clamped
            },
        }
    } else {
        clamped
    }
}

/// Returns the number of cells visually occupied by a grapheme.
/// The input string must be a single grapheme.
pub fn grapheme_column_width(s: &str, version: Option<UnicodeVersion>) -> (r: usize)
    ensures
        r as nat == spec_grapheme_width(s@, spec_version(version)),
        r <= 2,
{
    let v: u8 = match version {
        Some(u) => u.0,
        None => LATEST_UNICODE_VERSION,
    };
    let v9 = v >= 9;
    let n = s.unicode_len();
    // Sum the base widths, saturating at 3: only the clamp to two columns
    // survives into the result, so anything at three or above is alike.
    let mut sum: u8 = 0;
    let mut i: usize = 0;
    while i < n
        invariant
            0 <= i <= n,
            n == s@.len(),
            sum as int == vstd::math::min(
                spec_base_width_sum(s@.take(i as int), v9) as int,
                3int,
            ),
        decreases n - i,
    {
        let w = base_width(s.get_char(i), v9);
        proof {
            assert(s@.take(i + 1).drop_last() =~= s@.take(i as int));
            assert(s@.take(i + 1).last() == s@[i as int]);
        }
        if w > 3 - sum {
            sum = 3;
        } else {
            sum = sum + w;
        }
        i = i + 1;
    }
    proof {
        assert(s@.take(n as int) =~= s@);
    }
    let clamped: usize = if sum < 2 {
        sum as usize
    } else {
        2
    };
    if v >= 14 {
        let (default, explicit) = Presentation::for_grapheme(s);
        match explicit {
            Some(Presentation::Emoji) => 2,
            Some(Presentation::Text) => 1,
            None => match default {
                Presentation::Emoji => 2,
                Presentation::Text => clamped,
            },
        }
    } else {
        clamped
    }
}

/// The grapheme clusters of a string, under the extended cluster
/// boundary rules the segmentation library implements.
pub uninterp spec fn graphemes_of(s: Seq<char>) -> Seq<Seq<char>>;

/// Relies on unicode_segmentation's `UnicodeSegmentation::graphemes`
/// with extended cluster boundaries (UAX #29): the clusters partition
/// the string in order, and every cluster is non-empty.
#[verifier::external_body]
fn split_graphemes(s: &str) -> (r: Vec<String>)
    ensures
        r@.map_values(|g: String| g@) == graphemes_of(s@),
        r@.map_values(|g: String| g@).flatten() == s@,
        forall|i: int| 0 <= i < r@.len() ==> r@[i]@.len() > 0,
{
    s.graphemes(true).map(|g| g.to_string()).collect()
}

/// The total number of columns a string occupies: the sum of the widths
/// of its grapheme clusters.
pub open spec fn spec_string_width(gs: Seq<Seq<char>>, version: u8) -> nat
    decreases gs.len(),
{
    if gs.len() == 0 {
        0
    } else {
        spec_string_width(gs.drop_last(), version) + spec_grapheme_width(gs.last(), version)
    }
}

/// Returns the number of cells visually occupied by a sequence of
/// graphemes.  Calls through to `grapheme_column_width` for each
/// grapheme and sums up the lengths, saturating at the machine limit.
pub fn unicode_column_width(s: &str, version: Option<UnicodeVersion>) -> (r: usize)
    ensures
        r as int == vstd::math::min(
            spec_string_width(graphemes_of(s@), spec_version(version)) as int,
            usize::MAX as int,
        ),
{
    let graphemes = split_graphemes(s);
    let ghost gs = graphemes_of(s@);
    let mut total: usize = 0;
    let mut i: usize = 0;
    while i < graphemes.len()
        invariant
            0 <= i <= graphemes.len(),
            graphemes@.map_values(|g: String| g@) == gs,
            total as int == vstd::math::min(
                spec_string_width(gs.take(i as int), spec_version(version)) as int,
                usize::MAX as int,
            ),
        decreases graphemes.len() - i,
    {
        let w = grapheme_column_width(graphemes[i].as_str(), version);
        proof {
            assert(gs.take(i + 1).drop_last() =~= gs.take(i as int));
            assert(gs.take(i + 1).last() == gs[i as int]);
            assert(gs[i as int] == graphemes@.map_values(|g: String| g@)[i as int]);
        }
        if w > usize::MAX - total {
            total = usize::MAX;
        } else {
            total = total + w;
        }
        i = i + 1;
    }
    proof {
        assert(gs.take(graphemes@.len() as int) =~= gs);
    }
    total
}

/// A character the Unicode 9 tables widened is strictly narrower under
/// the version 8 tables than under the version 9 tables.
pub proof fn lemma_width_widened_across_versions(c: char)
    requires
        spec_widened_in_9(c as u32),
    ensures
        spec_grapheme_width(seq![c], 8) < spec_grapheme_width(seq![c], 9),
{
    let s = seq![c];
    assert(s.drop_last() =~= Seq::<char>::empty());
    assert(s.last() == c);
    assert(spec_base_width_sum(Seq::<char>::empty(), false) == 0);
    assert(spec_base_width_sum(Seq::<char>::empty(), true) == 0);
    assert(spec_base_width(c as u32, false) == 1);
    assert(spec_base_width(c as u32, true) == 2);
    assert(spec_base_width_sum(s, false) == 1);
    assert(spec_base_width_sum(s, true) == 2);
}

/// From version 14 on, a variation-sequence base character followed by
/// the text-presentation selector renders one column wide.
pub proof fn lemma_text_presentation_override(c: char, version: u8)
    requires
        spec_variation_base(c as u32),
        version >= 14,
    ensures
        spec_grapheme_width(seq![c, VARIATION_SELECTOR_TEXT], version) == 1,
{
    let s = seq![c, VARIATION_SELECTOR_TEXT];
    assert(s.last() == VARIATION_SELECTOR_TEXT);
    assert(spec_explicit_presentation(s) == Some(Presentation::Text));
}

/// From version 14 on, a variation-sequence base character followed by
/// the emoji-presentation selector renders two columns wide.
pub proof fn lemma_emoji_presentation_override(c: char, version: u8)
    requires
        spec_variation_base(c as u32),
        version >= 14,
    ensures
        spec_grapheme_width(seq![c, VARIATION_SELECTOR_EMOJI], version) == 2,
{
    let s = seq![c, VARIATION_SELECTOR_EMOJI];
    assert(s.last() == VARIATION_SELECTOR_EMOJI);
    assert(spec_explicit_presentation(s) == Some(Presentation::Emoji));
}

/// From version 14 on, a character whose default presentation is emoji
/// style renders two columns wide when no selector follows it.
pub proof fn lemma_default_emoji_width(c: char, version: u8)
    requires
        spec_default_emoji(c as u32),
        version >= 14,
    ensures
        spec_grapheme_width(seq![c], version) == 2,
{
    let s = seq![c];
    assert(spec_explicit_presentation(s) is None);
    assert(spec_default_emoji(s[0] as u32));
    assert(spec_default_presentation(s) == Presentation::Emoji);
}

} // verus!
