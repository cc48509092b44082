use vstd::prelude::*;
use crate::text::views;
use unicode_segmentation::UnicodeSegmentation;

verus! {

/// The extended grapheme clusters of a text, in order.
pub uninterp spec fn graphemes_of(s: Seq<char>) -> Seq<Seq<char>>;

/// Relies on `UnicodeSegmentation::graphemes(s, true)`: the extended grapheme clusters of
/// the text, in order; they depend on the text alone.
#[verifier::external_body]
fn graphemes(s: &str) -> (r: Vec<String>)
    ensures
        views(r@) == graphemes_of(s@),
{
    s.graphemes(true).map(|g| g.to_string()).collect()
}

/// The texts joined end to end.
pub open spec fn join_all(parts: Seq<Seq<char>>) -> Seq<char>
    decreases parts.len(),
{
    if parts.len() == 0 {
        Seq::empty()
    } else {
        join_all(parts.drop_last()) + parts.last()
    }
}

/// The longest notification body, in grapheme clusters.
pub const MAX_BODY_GRAPHEMES: usize = 5000;

/// Shortens a text given as its grapheme clusters: past the limit, the first clusters
/// followed by an ellipsis; otherwise the text itself.
pub fn truncate_clusters(s: String, clusters: &Vec<String>) -> (r: String)
    ensures
        views(clusters@).len() > MAX_BODY_GRAPHEMES ==> r@ == join_all(
            views(clusters@).take(MAX_BODY_GRAPHEMES as int),
        ) + "..."@,
        views(clusters@).len() <= MAX_BODY_GRAPHEMES ==> r@ == s@,
{
    if clusters.len() > MAX_BODY_GRAPHEMES {
        let ghost cs = views(clusters@);
        let mut out = String::new();
        let mut i: usize = 0;
        assert(cs.take(0) =~= Seq::<Seq<char>>::empty());
        while i < MAX_BODY_GRAPHEMES
            invariant
                cs == views(clusters@),
                cs.len() > MAX_BODY_GRAPHEMES,
                i <= MAX_BODY_GRAPHEMES,
                out@ == join_all(cs.take(i as int)),
            decreases MAX_BODY_GRAPHEMES - i,
        {
            out.append(clusters[i].as_str());
            assert(cs.take(i as int + 1).drop_last() =~= cs.take(i as int));
            i = i + 1;
        }
        out.append("...");
        out
    } else {
        s
    }
}

/// Shortens a notification body to at most `MAX_BODY_GRAPHEMES` grapheme clusters,
/// marking the cut with an ellipsis.
pub fn truncate(s: String) -> (r: String)
    ensures
        graphemes_of(s@).len() > MAX_BODY_GRAPHEMES ==> r@ == join_all(
            graphemes_of(s@).take(MAX_BODY_GRAPHEMES as int),
        ) + "..."@,
        graphemes_of(s@).len() <= MAX_BODY_GRAPHEMES ==> r@ == s@,
{
    let clusters = graphemes(s.as_str());
    truncate_clusters(s, &clusters)
}

} // verus!
