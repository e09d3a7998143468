//! Source text as a sequence of grapheme clusters.
//!
//! The scanner does not work on code points. A character literal, the
//! contents of a string and the end of a label are all measured in grapheme
//! clusters, so that an emoji made of several code points counts as one.
use unicode_segmentation::UnicodeSegmentation;
use vstd::prelude::*;

verus! {

/// The extended grapheme clusters of a text, in order.
pub uninterp spec fn grapheme_clusters(text: Seq<char>) -> Seq<Seq<char>>;

/// The texts of a sequence of clusters.
pub open spec fn cluster_views(clusters: Seq<String>) -> Seq<Seq<char>> {
    Seq::new(clusters.len(), |i: int| clusters[i]@)
}

/// Splits `text` into its extended grapheme clusters.
///
/// This is `UnicodeSegmentation::graphemes` of the crate
/// `unicode-segmentation`, called with `is_extended` set. Which clusters a
/// text falls into is that crate's reading of the Unicode rules, and is
/// taken on trust: the contract only names the result.
#[verifier::external_body]
pub(crate) fn split_graphemes(text: &str) -> (clusters: Vec<String>)
    ensures
        cluster_views(clusters@) == grapheme_clusters(text@),
{
    text.graphemes(true).map(|cluster| cluster.to_owned()).collect()
}

/// The four pairs of delimiters that enclose a composite literal.
#[derive(Debug, PartialEq, Eq, Clone, Copy, Structural)]
pub enum Bracket {
    /// `(` and `)`, around a substack.
    Round,
    /// `[` and `]`, around a list.
    Square,
    /// `{` and `}`, around a set or a map.
    Curly,
    /// `<` and `>`, around a script.
    Angle,
}

/// What a cluster means to the scanner.
#[derive(Debug, PartialEq, Eq, Clone, Copy, Structural)]
pub enum Kind {
    /// A space, a tab or a carriage return.
    Space,
    /// A line feed, alone or after a carriage return.
    Newline,
    Comma,
    /// `#`, which starts a comment.
    Hash,
    /// `"`
    Quote,
    /// `'`
    Tick,
    Open(Bracket),
    Close(Bracket),
    Colon,
    /// `!`
    Bang,
    /// `@`
    At,
    /// `$`
    Dollar,
    /// A decimal digit, with its value.
    Digit(u8),
    Minus,
    Dot,
    /// Anything else.
    Other,
}

/// What a single code point means to the scanner.
pub open spec fn kind_of_char(c: char) -> Kind {
    if c == ' ' || c == '\t' || c == '\r' {
        Kind::Space
    } else if c == '\n' {
        Kind::Newline
    } else if c == ',' {
        Kind::Comma
    } else if c == '#' {
        Kind::Hash
    } else if c == '"' {
        Kind::Quote
    } else if c == '\'' {
        Kind::Tick
    } else if c == '(' {
        Kind::Open(Bracket::Round)
    } else if c == '[' {
        Kind::Open(Bracket::Square)
    } else if c == '{' {
        Kind::Open(Bracket::Curly)
    } else if c == '<' {
        Kind::Open(Bracket::Angle)
    } else if c == ')' {
        Kind::Close(Bracket::Round)
    } else if c == ']' {
        Kind::Close(Bracket::Square)
    } else if c == '}' {
        Kind::Close(Bracket::Curly)
    } else if c == '>' {
        Kind::Close(Bracket::Angle)
    } else if c == ':' {
        Kind::Colon
    } else if c == '!' {
        Kind::Bang
    } else if c == '@' {
        Kind::At
    } else if c == '$' {
        Kind::Dollar
    } else if '0' <= c && c <= '9' {
        Kind::Digit((c as u32 - '0' as u32) as u8)
    } else if c == '-' {
        Kind::Minus
    } else if c == '.' {
        Kind::Dot
    } else {
        Kind::Other
    }
}

/// What a cluster means to the scanner. Only a cluster of one code point
/// means anything but itself, and the line break of two code points.
pub open spec fn kind_of(cluster: Seq<char>) -> Kind {
    if cluster.len() == 1 {
        kind_of_char(cluster[0])
    } else if cluster.len() == 2 && cluster[0] == '\r' && cluster[1] == '\n' {
        Kind::Newline
    } else {
        Kind::Other
    }
}

/// Whether a cluster separates values without being one.
pub open spec fn is_insignificant(kind: Kind) -> bool {
    kind is Space || kind is Newline || kind is Comma
}

/// Whether a cluster ends a label, a number or a parent reference.
pub open spec fn is_key(kind: Kind) -> bool {
    is_insignificant(kind) || kind is Bang || kind is Hash || kind is Colon || kind is Close
}

/// What a single code point means to the scanner.
fn classify_char(c: char) -> (kind: Kind)
    ensures
        kind == kind_of_char(c),
{
    if c == ' ' || c == '\t' || c == '\r' {
        Kind::Space
    } else if c == '\n' {
        Kind::Newline
    } else if c == ',' {
        Kind::Comma
    } else if c == '#' {
        Kind::Hash
    } else if c == '"' {
        Kind::Quote
    } else if c == '\'' {
        Kind::Tick
    } else if c == '(' {
        Kind::Open(Bracket::Round)
    } else if c == '[' {
        Kind::Open(Bracket::Square)
    } else if c == '{' {
        Kind::Open(Bracket::Curly)
    } else if c == '<' {
        Kind::Open(Bracket::Angle)
    } else if c == ')' {
        Kind::Close(Bracket::Round)
    } else if c == ']' {
        Kind::Close(Bracket::Square)
    } else if c == '}' {
        Kind::Close(Bracket::Curly)
    } else if c == '>' {
        Kind::Close(Bracket::Angle)
    } else if c == ':' {
        Kind::Colon
    } else if c == '!' {
        Kind::Bang
    } else if c == '@' {
        Kind::At
    } else if c == '$' {
        Kind::Dollar
    } else if '0' <= c && c <= '9' {
        Kind::Digit((c as u32 - '0' as u32) as u8)
    } else if c == '-' {
        Kind::Minus
    } else if c == '.' {
        Kind::Dot
    } else {
        Kind::Other
    }
}

/// What a cluster means to the scanner.
pub fn classify(cluster: &str) -> (kind: Kind)
    ensures
        kind == kind_of(cluster@),
{
    let length = cluster.unicode_len();
    if length == 1 {
        classify_char(cluster.get_char(0))
    } else if length == 2 && cluster.get_char(0) == '\r' && cluster.get_char(1) == '\n' {
        Kind::Newline
    } else {
        Kind::Other
    }
}

/// Whether `text` reads exactly as `expected`.
pub fn str_equal(text: &str, expected: &str) -> (same: bool)
    ensures
        same == (text@ == expected@),
{
    let n = text.unicode_len();
    if n != expected.unicode_len() {
        return false;
    }
    let mut i: usize = 0;
    while i < n
        invariant
            i <= n,
            n == text@.len(),
            n == expected@.len(),
            forall|j: int| 0 <= j < i ==> text@[j] == expected@[j],
        decreases n - i,
    {
        if text.get_char(i) != expected.get_char(i) {
            return false;
        }
        i += 1;
    }
    assert(text@ =~= expected@);
    true
}

} // verus!
