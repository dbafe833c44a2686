//! What the command line names: the region selector and the output format.

use vstd::prelude::*;
use crate::region::RegionSelector;
use crate::text::{lemma_texts_push, same_str, texts};

verus! {

/// The pieces of `s` between its separators: one more than there are
/// separators in it, each possibly empty.
pub open spec fn spec_split(s: Seq<char>, sep: char) -> Seq<Seq<char>>
    decreases s.len(),
{
    if s.len() == 0 {
        seq![Seq::empty()]
    } else {
        let before = spec_split(s.drop_last(), sep);
        if s.last() == sep {
            before.push(Seq::empty())
        } else {
            before.drop_last().push(before.last().push(s.last()))
        }
    }
}

/// The text that `pieces` came from: the pieces with `sep` between them.
pub open spec fn spec_join(pieces: Seq<Seq<char>>, sep: char) -> Seq<char>
    decreases pieces.len(),
{
    if pieces.len() == 0 {
        Seq::empty()
    } else if pieces.len() == 1 {
        pieces[0]
    } else {
        spec_join(pieces.drop_last(), sep) + seq![sep] + pieces.last()
    }
}

/// Splitting loses nothing: there is at least one piece, no piece holds the
/// separator, and the pieces joined by it give the text back.
pub proof fn law_split_joins_back(s: Seq<char>, sep: char)
    ensures
        spec_split(s, sep).len() >= 1,
        forall|i: int|
            0 <= i < spec_split(s, sep).len() ==> !(#[trigger] spec_split(s, sep)[i]).contains(sep),
        spec_join(spec_split(s, sep), sep) == s,
    decreases s.len(),
{
    let pieces = spec_split(s, sep);
    if s.len() == 0 {
        assert(pieces =~= seq![Seq::<char>::empty()]);
        assert(spec_join(pieces, sep) =~= s);
    } else {
        let front = s.drop_last();
        let before = spec_split(front, sep);
        law_split_joins_back(front, sep);
        if s.last() == sep {
            assert(pieces.drop_last() =~= before);
            assert(pieces.last() =~= Seq::<char>::empty());
            assert(spec_join(pieces, sep) =~= front + seq![sep] + Seq::<char>::empty());
            assert(front + seq![sep] + Seq::<char>::empty() =~= s);
            assert forall|i: int| 0 <= i < pieces.len() implies !(#[trigger] pieces[i]).contains(
                sep,
            ) by {
                if i < before.len() {
                    assert(pieces[i] == before[i]);
                }
            }
        } else {
            let grown = before.last().push(s.last());
            assert(pieces.drop_last() =~= before.drop_last());
            assert(pieces.last() == grown);
            assert forall|i: int| 0 <= i < pieces.len() implies !(#[trigger] pieces[i]).contains(
                sep,
            ) by {
                if i < before.len() - 1 {
                    assert(pieces[i] == before[i]);
                } else {
                    assert(!before[before.len() - 1].contains(sep));
                    if grown.contains(sep) {
                        let j = choose|j: int| 0 <= j < grown.len() && grown[j] == sep;
                        assert(before.last()[j] == sep);
                    }
                }
            }
            if before.len() == 1 {
                assert(before[0] =~= front);
                assert(spec_join(pieces, sep) =~= s);
            } else {
                assert(spec_join(before, sep) == spec_join(before.drop_last(), sep) + seq![sep]
                    + before.last());
                assert(spec_join(pieces, sep) == spec_join(before.drop_last(), sep) + seq![sep]
                    + grown);
                assert(spec_join(before.drop_last(), sep) + seq![sep] + grown =~= (spec_join(
                    before.drop_last(),
                    sep,
                ) + seq![sep] + before.last()).push(s.last()));
                assert(front.push(s.last()) =~= s);
            }
        }
    }
}

/// The pieces of `s` between its commas.
pub fn split_commas(s: &str) -> (pieces: Vec<String>)
    ensures
        texts(pieces@) == spec_split(s@, ','),
        pieces@.len() >= 1,
{
    let n: usize = s.unicode_len();
    let mut pieces: Vec<String> = Vec::new();
    let mut start: usize = 0;
    let mut i: usize = 0;
    proof {
        assert(s@.take(0) =~= Seq::<char>::empty());
        assert(texts(pieces@).push(s@.subrange(0, 0)) =~= seq![Seq::<char>::empty()]);
    }
    while i < n
        invariant
            n == s@.len(),
            start <= i <= n,
            spec_split(s@.take(i as int), ',') == texts(pieces@).push(
                s@.subrange(start as int, i as int),
            ),
        decreases n - i,
    {
        let c = s.get_char(i);
        let ghost before = spec_split(s@.take(i as int), ',');
        proof {
            assert(s@.take(i as int + 1).drop_last() =~= s@.take(i as int));
            assert(s@.take(i as int + 1).last() == s@[i as int]);
        }
        if c == ',' {
            let piece = String::from_str(s.substring_char(start, i));
            proof {
                lemma_texts_push(pieces@, piece);
                assert(s@.subrange(i as int + 1, i as int + 1) =~= Seq::<char>::empty());
            }
            pieces.push(piece);
            start = i + 1;
        } else {
            proof {
                assert(before.drop_last() =~= texts(pieces@));
                assert(before.last().push(c) =~= s@.subrange(start as int, i as int + 1));
            }
        }
        i = i + 1;
    }
    let piece = String::from_str(s.substring_char(start, n));
    proof {
        lemma_texts_push(pieces@, piece);
        assert(s@.take(n as int) =~= s@);
    }
    pieces.push(piece);
    pieces
}

/// Whether a region argument asks for every region: its first piece is
/// `all`, whatever follows.
pub open spec fn spec_selects_all(s: Seq<char>) -> bool {
    spec_split(s, ',')[0] == "all"@
}

/// Reads a region argument: a comma-separated list whose first piece is
/// `all` stands for every region, any other list for the regions it names.
pub fn parse_selector(s: &str) -> (selector: RegionSelector)
    ensures
        match selector {
            RegionSelector::All => spec_selects_all(s@),
            RegionSelector::Explicit(tokens) => !spec_selects_all(s@) && texts(tokens@)
                == spec_split(s@, ','),
        },
{
    let pieces = split_commas(s);
    if same_str(pieces[0].as_str(), "all") {
        RegionSelector::All
    } else {
        RegionSelector::Explicit(pieces)
    }
}

/// How the report is written out.
#[derive(Debug, Clone, PartialEq, Eq)]
pub enum OutputFormat {
    /// A JSON object that maps each region to its image.
    Json,
}

/// What is said of a format that is not supported.
pub open spec fn spec_format_complaint(s: Seq<char>) -> Seq<char> {
    "invalid format '"@ + s + "'; must be 'json'"@
}

impl OutputFormat {
    /// Reads the name of an output format: `json`, and nothing else.
    pub fn from_str(s: &str) -> (r: Result<OutputFormat, String>)
        ensures
            r is Ok <==> s@ == "json"@,
            r matches Err(m) ==> m@ == spec_format_complaint(s@),
    {
        if same_str(s, "json") {
            Ok(OutputFormat::Json)
        } else {
            Err(String::from_str("invalid format '").concat(s).concat("'; must be 'json'"))
        }
    }
}

} // verus!
