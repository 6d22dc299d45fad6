//! What holds of every run: one element per line, in the order of the lines.
use vstd::prelude::*;
use crate::transcoder::{all_render, document, elements, head, rendered, separator, tail};

verus! {

/// `texts` in order, with `sep` between each two.
pub open spec fn join(texts: Seq<Seq<u8>>, sep: Seq<u8>) -> Seq<u8>
    decreases texts.len(),
{
    if texts.len() == 0 {
        seq![]
    } else if texts.len() == 1 {
        texts[0]
    } else {
        join(texts.drop_last(), sep) + sep + texts.last()
    }
}

/// The encoded value of each line, in the order of the lines.
pub open spec fn element_texts(lines: Seq<Seq<u8>>, pretty: bool) -> Seq<Seq<u8>> {
    lines.map_values(|l: Seq<u8>| rendered(l, pretty).unwrap())
}

/// The elements of the lines are their encoded values joined by separators.
proof fn lemma_elements_join(lines: Seq<Seq<u8>>, pretty: bool)
    ensures
        elements(lines, pretty) == join(element_texts(lines, pretty), separator(pretty)),
    decreases lines.len(),
{
    if lines.len() > 1 {
        lemma_elements_join(lines.drop_last(), pretty);
        assert(element_texts(lines, pretty).drop_last() =~= element_texts(
            lines.drop_last(),
            pretty,
        ));
    }
}

/// For N lines that all hold JSON, the output is an array of exactly N
/// elements: the opening, then the encoded value of line i as element i for
/// each i, with separators between, then the closing.
pub proof fn lemma_one_element_per_line(lines: Seq<Seq<u8>>, pretty: bool)
    requires
        all_render(lines, pretty),
    ensures
        element_texts(lines, pretty).len() == lines.len(),
        forall|i: int|
            0 <= i < lines.len() ==> rendered(lines[i], pretty) == Some(
                #[trigger] element_texts(lines, pretty)[i],
            ),
        document(lines, pretty) == head(pretty) + join(
            element_texts(lines, pretty),
            separator(pretty),
        ) + tail(pretty, lines.len() > 0),
{
    lemma_elements_join(lines, pretty);
    assert forall|i: int| 0 <= i < lines.len() implies rendered(lines[i], pretty) == Some(
        #[trigger] element_texts(lines, pretty)[i],
    ) by {
        assert(rendered(lines[i], pretty) is Some);
    }
}

/// Order is kept: the elements of the lines of `a` followed by those of `b`
/// are the elements of `a`, a separator, then the elements of `b`.
pub proof fn lemma_order_kept(a: Seq<Seq<u8>>, b: Seq<Seq<u8>>, pretty: bool)
    requires
        a.len() > 0,
        b.len() > 0,
    ensures
        elements(a + b, pretty) == elements(a, pretty) + separator(pretty) + elements(b, pretty),
    decreases b.len(),
{
    if b.len() == 1 {
        assert((a + b).drop_last() =~= a);
    } else {
        lemma_order_kept(a, b.drop_last(), pretty);
        assert((a + b).drop_last() =~= a + b.drop_last());
        assert(elements(a + b, pretty) =~= elements(a, pretty) + separator(pretty) + elements(
            b,
            pretty,
        ));
    }
}

} // verus!
