//! The streaming transcoder: JSON Lines in, one JSON array out, written
//! piece by piece with one record in hand at a time.
use vstd::prelude::*;
use crate::codec::{decode, decoded, encode_compact, encode_pretty, compact_text, pretty_text};
use crate::lines::{lines_of, split_lines, views};

verus! {

/// Why a run stopped.
#[derive(Debug, Clone, Copy, PartialEq, Eq)]
pub enum TranscodeError {
    /// A line does not decode as one JSON value.
    InvalidJson,
    /// A decoded value could not be encoded again.
    Unencodable,
}

/// What is written first: `[`, and a line feed in pretty mode.
pub open spec fn head(pretty: bool) -> Seq<u8> {
    if pretty {
        seq![91u8, 10u8]
    } else {
        seq![91u8]
    }
}

/// What stands between two elements: `,`, and a line feed in pretty mode.
pub open spec fn separator(pretty: bool) -> Seq<u8> {
    if pretty {
        seq![44u8, 10u8]
    } else {
        seq![44u8]
    }
}

/// What is written last: `]`, after a line feed in pretty mode when at least
/// one element was written.
pub open spec fn tail(pretty: bool, started: bool) -> Seq<u8> {
    if pretty && started {
        seq![10u8, 93u8]
    } else {
        seq![93u8]
    }
}

/// The encoding of the value on one line, in the given mode, or `None` where
/// the line does not decode or its value does not encode.
pub open spec fn rendered(line: Seq<u8>, pretty: bool) -> Option<Seq<u8>> {
    match decoded(line) {
        Some(v) => if pretty {
            pretty_text(v)
        } else {
            compact_text(v)
        },
        None => None,
    }
}

/// Whether every line renders.
pub open spec fn all_render(lines: Seq<Seq<u8>>, pretty: bool) -> bool {
    forall|i: int| 0 <= i < lines.len() ==> (#[trigger] rendered(lines[i], pretty)) is Some
}

/// Line `k` is the first that does not render.
pub open spec fn first_failure(lines: Seq<Seq<u8>>, pretty: bool, k: int) -> bool {
    &&& 0 <= k < lines.len()
    &&& all_render(lines.take(k), pretty)
    &&& rendered(lines[k], pretty) is None
}

/// The error that a line which does not render stops the run with.
pub open spec fn failure_of(line: Seq<u8>) -> TranscodeError {
    if decoded(line) is None {
        TranscodeError::InvalidJson
    } else {
        TranscodeError::Unencodable
    }
}

/// The array elements for `lines`, each rendered, with separators between.
pub open spec fn elements(lines: Seq<Seq<u8>>, pretty: bool) -> Seq<u8>
    decreases lines.len(),
{
    if lines.len() == 0 {
        seq![]
    } else if lines.len() == 1 {
        rendered(lines[0], pretty).unwrap()
    } else {
        elements(lines.drop_last(), pretty) + separator(pretty) + rendered(
            lines.last(),
            pretty,
        ).unwrap()
    }
}

/// The whole array document for `lines`.
pub open spec fn document(lines: Seq<Seq<u8>>, pretty: bool) -> Seq<u8> {
    head(pretty) + elements(lines, pretty) + tail(pretty, lines.len() > 0)
}

/// What adding line `i` adds to the elements of the lines before it.
pub proof fn lemma_elements_step(lines: Seq<Seq<u8>>, pretty: bool, i: int)
    requires
        0 <= i < lines.len(),
    ensures
        elements(lines.take(i + 1), pretty) == elements(lines.take(i), pretty) + (if i > 0 {
            separator(pretty)
        } else {
            seq![]
        }) + rendered(lines[i], pretty).unwrap(),
{
    assert(lines.take(i + 1).drop_last() =~= lines.take(i));
    if i == 0 {
        assert(elements(lines.take(0), pretty) + seq![] + rendered(lines[0], pretty).unwrap()
            =~= rendered(lines[0], pretty).unwrap());
    }
}

/// The state of one run: the mode, and whether an element was written yet.
pub struct Transcoder {
    pub pretty: bool,
    pub started: bool,
}

impl Transcoder {
    /// A run in the given mode with nothing written yet.
    pub fn new(pretty: bool) -> (r: Transcoder)
        ensures
            r.pretty == pretty,
            !r.started,
    {
        Transcoder { pretty, started: false }
    }

    /// The bytes that open the array.
    pub fn begin(&self) -> (r: Vec<u8>)
        ensures
            r@ == head(self.pretty),
    {
        let mut r: Vec<u8> = Vec::new();
        r.push(91u8);
        if self.pretty {
            r.push(10u8);
        }
        proof {
            assert(r@ =~= head(self.pretty));
        }
        r
    }

    /// Decodes and encodes one line and returns the bytes to write for it:
    /// a separator unless it is the first element, then the element.
    pub fn push_line(&mut self, line: &[u8]) -> (r: Result<Vec<u8>, TranscodeError>)
        ensures
            final(self).pretty == old(self).pretty,
            r is Ok <==> rendered(line@, old(self).pretty) is Some,
            match r {
                Ok(chunk) => {
                    &&& final(self).started
                    &&& chunk@ == (if old(self).started {
                        separator(old(self).pretty)
                    } else {
                        seq![]
                    }) + rendered(line@, old(self).pretty).unwrap()
                },
                Err(e) => {
                    &&& *final(self) == *old(self)
                    &&& e == failure_of(line@)
                },
            },
    {
        let value = match decode(line) {
            Ok(v) => v,
            Err(_) => {
                return Err(TranscodeError::InvalidJson);
            },
        };
        let encoded = if self.pretty {
            encode_pretty(&value)
        } else {
            encode_compact(&value)
        };
        let mut text = match encoded {
            Ok(b) => b,
            Err(_) => {
                return Err(TranscodeError::Unencodable);
            },
        };
        let mut chunk: Vec<u8> = Vec::new();
        if self.started {
            chunk.push(44u8);
            if self.pretty {
                chunk.push(10u8);
            }
        }
        proof {
            assert(chunk@ =~= (if self.started {
                separator(self.pretty)
            } else {
                seq![]
            }));
        }
        chunk.append(&mut text);
        self.started = true;
        Ok(chunk)
    }

    /// The bytes that close the array.
    pub fn finish(&self) -> (r: Vec<u8>)
        ensures
            r@ == tail(self.pretty, self.started),
    {
        let mut r: Vec<u8> = Vec::new();
        if self.pretty && self.started {
            r.push(10u8);
        }
        r.push(93u8);
        proof {
            assert(r@ =~= tail(self.pretty, self.started));
        }
        r
    }
}

/// Transcodes the JSON Lines in `input` into one JSON array appended to
/// `output`. On success every line rendered and the whole document was
/// appended. Otherwise the run stopped at the first line that did not render,
/// with that line's error, and `output` holds the unfinished array up to it.
pub fn process(input: &[u8], output: &mut Vec<u8>, pretty: bool) -> (r: Result<(), TranscodeError>)
    ensures
        r is Ok <==> all_render(lines_of(input@), pretty),
        match r {
            Ok(()) => final(output)@ == old(output)@ + document(lines_of(input@), pretty),
            Err(e) => exists|k: int|
                {
                    &&& first_failure(lines_of(input@), pretty, k)
                    &&& e == failure_of(lines_of(input@)[k])
                    &&& final(output)@ == old(output)@ + head(pretty) + elements(
                        lines_of(input@).take(k),
                        pretty,
                    )
                },
        },
{
    let lines = split_lines(input);
    let ghost ls = lines_of(input@);
    let mut t = Transcoder::new(pretty);
    let mut opening = t.begin();
    output.append(&mut opening);
    let mut i: usize = 0;
    while i < lines.len()
        invariant
            ls == lines_of(input@),
            views(lines@) == ls,
            i <= lines@.len(),
            t.pretty == pretty,
            t.started == (i > 0),
            all_render(ls.take(i as int), pretty),
            output@ == old(output)@ + head(pretty) + elements(ls.take(i as int), pretty),
        decreases lines@.len() - i,
    {
        assert(lines@[i as int]@ == ls[i as int]);
        proof {
            lemma_elements_step(ls, pretty, i as int);
        }
        let line = lines[i].as_slice();
        assert(line@ == ls[i as int]);
        match t.push_line(line) {
            Ok(mut chunk) => {
                output.append(&mut chunk);
            },
            Err(e) => {
                assert(first_failure(ls, pretty, i as int));
                assert(!all_render(ls, pretty)) by {
                    assert(rendered(ls[i as int], pretty) is None);
                }
                assert(e == failure_of(ls[i as int]));
                return Err(e);
            },
        }
        assert forall|j: int| 0 <= j < i + 1 implies (#[trigger] rendered(
            ls.take(i + 1)[j],
            pretty,
        )) is Some by {
            if j < i {
                assert(ls.take(i + 1)[j] == ls.take(i as int)[j]);
            }
        }
        assert(output@ =~= old(output)@ + head(pretty) + elements(ls.take(i + 1), pretty));
        i += 1;
    }
    proof {
        assert(ls.take(ls.len() as int) =~= ls);
    }
    let mut closing = t.finish();
    output.append(&mut closing);
    Ok(())
}

} // verus!
