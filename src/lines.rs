//! Splitting input bytes into lines, as a buffered reader yields them.
use vstd::prelude::*;

verus! {

/// The line-feed byte that ends a line.
pub const LINE_FEED: u8 = 10;

/// The carriage-return byte that a line break may start with.
pub const CARRIAGE_RETURN: u8 = 13;

/// A line's content without the carriage return of a CRLF break.
pub open spec fn without_cr(cur: Seq<u8>) -> Seq<u8> {
    if cur.len() > 0 && cur.last() == CARRIAGE_RETURN {
        cur.drop_last()
    } else {
        cur
    }
}

/// Reading `s` from the start: the lines closed by a line feed so far, and
/// the bytes of the line that is still open.
pub open spec fn scan(s: Seq<u8>) -> (Seq<Seq<u8>>, Seq<u8>)
    decreases s.len(),
{
    if s.len() == 0 {
        (seq![], seq![])
    } else {
        let (done, cur) = scan(s.drop_last());
        if s.last() == LINE_FEED {
            (done.push(without_cr(cur)), seq![])
        } else {
            (done, cur.push(s.last()))
        }
    }
}

/// The lines of `s`: each line feed ends one, and a non-empty rest after the
/// last line feed is one more. An empty input has no lines.
pub open spec fn lines_of(s: Seq<u8>) -> Seq<Seq<u8>> {
    let (done, cur) = scan(s);
    if cur.len() == 0 {
        done
    } else {
        done.push(cur)
    }
}

/// The views of a vector of byte vectors.
pub open spec fn views(v: Seq<Vec<u8>>) -> Seq<Seq<u8>> {
    v.map_values(|l: Vec<u8>| l@)
}

/// Splits `input` into its lines, without their line breaks.
pub fn split_lines(input: &[u8]) -> (r: Vec<Vec<u8>>)
    ensures
        views(r@) == lines_of(input@),
{
    let mut lines: Vec<Vec<u8>> = Vec::new();
    let mut cur: Vec<u8> = Vec::new();
    let mut i: usize = 0;
    while i < input.len()
        invariant
            i <= input@.len(),
            scan(input@.take(i as int)) == (views(lines@), cur@),
        decreases input@.len() - i,
    {
        let b = input[i];
        proof {
            assert(input@.take(i + 1).drop_last() =~= input@.take(i as int));
        }
        if b == LINE_FEED {
            let n = cur.len();
            if n > 0 && cur[n - 1] == CARRIAGE_RETURN {
                cur.pop();
            }
            proof {
                assert(views(lines@.push(cur)) =~= views(lines@).push(cur@));
            }
            lines.push(cur);
            cur = Vec::new();
        } else {
            cur.push(b);
        }
        i += 1;
    }
    proof {
        assert(input@.take(input@.len() as int) =~= input@);
    }
    if cur.len() > 0 {
        proof {
            assert(views(lines@.push(cur)) =~= views(lines@).push(cur@));
        }
        lines.push(cur);
    }
    lines
}

} // verus!
