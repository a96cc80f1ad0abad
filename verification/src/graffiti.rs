//! The graffiti-text proxy label and the cosmetic emoji stripping used when
//! graffiti is displayed.

use vstd::prelude::*;
use vstd::string::StrSliceExecFns;
use vstd::string::StringExecFns;
use unicode_segmentation::UnicodeSegmentation;

verus! {

/// The lowercase form of a string, as `str::to_lowercase` computes it.
pub uninterp spec fn lower_of(s: Seq<char>) -> Seq<char>;

/// Relies on str::to_lowercase: the lowercase equivalent of the string,
/// a function of its characters alone.
#[verifier::external_body]
fn lowercase(s: &str) -> (r: String)
    ensures
        r@ == lower_of(s@),
{
    s.to_lowercase()
}

/// `needle` occurs in `hay` starting at position `i`.
pub open spec fn contains_at(hay: Seq<char>, needle: Seq<char>, i: int) -> bool {
    0 <= i && i + needle.len() <= hay.len() && hay.subrange(i, i + needle.len()) == needle
}

/// `needle` occurs somewhere in `hay` as a contiguous run of characters.
pub open spec fn contains_seq(hay: Seq<char>, needle: Seq<char>) -> bool {
    exists|i: int| contains_at(hay, needle, i)
}

/// Whether `needle` occurs in `hay` starting at character position `i`.
fn match_at(hay: &str, needle: &str, i: usize) -> (r: bool)
    requires
        i + needle@.len() <= hay@.len(),
        hay@.len() <= usize::MAX,
    ensures
        r == contains_at(hay@, needle@, i as int),
{
    let nlen = needle.unicode_len();
    let mut m: usize = 0;
    while m < nlen
        invariant
            nlen == needle@.len(),
            i + nlen <= hay@.len(),
            hay@.len() <= usize::MAX,
            m <= nlen,
            forall|q: int| 0 <= q < m ==> hay@[i + q] == needle@[q],
        decreases nlen - m,
    {
        if hay.get_char(i + m) != needle.get_char(m) {
            proof {
                assert(hay@.subrange(i as int, i + nlen)[m as int] != needle@[m as int]);
            }
            return false;
        }
        m += 1;
    }
    proof {
        assert(hay@.subrange(i as int, i + nlen) =~= needle@);
    }
    true
}

/// Decides whether `needle` occurs anywhere in `hay`.
fn contains_str(hay: &str, needle: &str) -> (r: bool)
    ensures
        r == contains_seq(hay@, needle@),
{
    let hlen = hay.unicode_len();
    let nlen = needle.unicode_len();
    if nlen > hlen {
        return false;
    }
    if nlen == 0 {
        proof {
            assert(hay@.subrange(0, 0) =~= needle@);
            assert(contains_at(hay@, needle@, 0));
        }
        return true;
    }
    let mut i: usize = 0;
    while i <= hlen - nlen
        invariant
            hlen == hay@.len(),
            nlen == needle@.len(),
            1 <= nlen <= hlen,
            i <= hlen - nlen + 1,
            forall|j: int| 0 <= j < i ==> !contains_at(hay@, needle@, j),
        decreases hlen - nlen + 1 - i,
    {
        if match_at(hay, needle, i) {
            return true;
        }
        i += 1;
    }
    false
}

/// The label token looked for in graffiti, matched case-insensitively.
pub open spec fn lodestar_token() -> Seq<char> {
    "lodestar"@
}

/// The graffiti proxy: the fixed label token occurs in the lowercased
/// graffiti text. An unverified, proposer-controlled label, never a verified
/// client identity.
pub fn is_lodestar_graffiti(graffiti: &str) -> (r: bool)
    ensures
        r == contains_seq(lower_of(graffiti@), lodestar_token()),
{
    let lowered = lowercase(graffiti);
    contains_str(lowered.as_str(), "lodestar")
}

/// The grapheme clusters of a string, as unicode-segmentation's extended
/// grapheme splitting yields them, in order.
pub uninterp spec fn graphemes_of(s: Seq<char>) -> Seq<Seq<char>>;

/// Whether a string is a single emoji, as the emojis crate's lookup table
/// decides it.
pub uninterp spec fn is_emoji(g: Seq<char>) -> bool;

/// Relies on UnicodeSegmentation::graphemes with extended clusters: the
/// split into grapheme clusters is a function of the characters alone.
#[verifier::external_body]
fn split_graphemes(s: &str) -> (r: Vec<String>)
    ensures
        r@.map_values(|g: String| g@) == graphemes_of(s@),
{
    s.graphemes(true).map(|g| g.to_owned()).collect()
}

/// Relies on emojis::get: whether the string names an emoji in the crate's
/// table, a function of its characters alone.
#[verifier::external_body]
fn emoji_lookup(g: &str) -> (r: bool)
    ensures
        r == is_emoji(g@),
{
    emojis::get(g).is_some()
}

/// The characters of the first `n` grapheme clusters that are not emoji,
/// concatenated in order.
pub open spec fn strip_emoji_prefix(gs: Seq<Seq<char>>, n: int) -> Seq<char>
    decreases n,
{
    if n <= 0 {
        Seq::empty()
    } else {
        strip_emoji_prefix(gs, n - 1) + (if is_emoji(gs[n - 1]) {
            Seq::<char>::empty()
        } else {
            gs[n - 1]
        })
    }
}

/// A string with its emoji grapheme clusters removed and everything else
/// kept in order.
pub open spec fn strip_emoji(gs: Seq<Seq<char>>) -> Seq<char> {
    strip_emoji_prefix(gs, gs.len() as int)
}

/// Drops every grapheme cluster that is an emoji and keeps the rest of the
/// text unchanged, in order. Used only to clean graffiti for display.
pub fn remove_emoji(string: &str) -> (r: String)
    ensures
        r@ == strip_emoji(graphemes_of(string@)),
{
    let gs = split_graphemes(string);
    let ghost gview = graphemes_of(string@);
    proof {
        assert(gs@.map_values(|g: String| g@).len() == gview.len());
    }
    let mut out = String::new();
    let mut j: usize = 0;
    while j < gs.len()
        invariant
            gs@.map_values(|g: String| g@) == gview,
            j <= gs@.len(),
            out@ == strip_emoji_prefix(gview, j as int),
        decreases gs@.len() - j,
    {
        proof {
            assert(gs@.map_values(|g: String| g@)[j as int] == gview[j as int]);
        }
        let g = &gs[j];
        if !emoji_lookup(g.as_str()) {
            out.append(g.as_str());
        }
        j += 1;
    }
    out
}

} // verus!
