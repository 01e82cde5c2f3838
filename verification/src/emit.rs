//! Emission: the exposition text of a list of families, the pieces in which it is
//! handed to an output, and the machine that hands them out one write at a time.

use crate::error::PrometheusError;
use crate::family::{Families, FamilyView};
use vstd::prelude::*;

verus! {

/// The sample lines of a family: `key value` and a line feed for each sample, in order.
pub open spec fn sample_lines(samples: Seq<(Seq<char>, Seq<char>)>) -> Seq<char>
    decreases samples.len(),
{
    if samples.len() == 0 {
        Seq::empty()
    } else {
        sample_lines(samples.drop_last()) + samples.last().0 + " "@ + samples.last().1 + "\n"@
    }
}

/// The text of one family: its header block, a line feed, its sample lines.
pub open spec fn family_text(family: FamilyView) -> Seq<char> {
    family.header + "\n"@ + sample_lines(family.samples)
}

/// The exposition text of a list of families: the text of each family in order, with
/// an empty line between two families.
pub open spec fn exposition(fs: Seq<FamilyView>) -> Seq<char>
    decreases fs.len(),
{
    if fs.len() == 0 {
        Seq::empty()
    } else if fs.len() == 1 {
        family_text(fs[0])
    } else {
        exposition(fs.drop_last()) + "\n"@ + family_text(fs.last())
    }
}

/// The pieces in which the sample lines of a family are written: key, blank, value
/// and line feed of each sample.
pub open spec fn sample_chunks(samples: Seq<(Seq<char>, Seq<char>)>) -> Seq<Seq<char>>
    decreases samples.len(),
{
    if samples.len() == 0 {
        Seq::empty()
    } else {
        sample_chunks(samples.drop_last()) + seq![
            samples.last().0,
            " "@,
            samples.last().1,
            "\n"@,
        ]
    }
}

/// The pieces in which one family is written: header block, line feed, sample pieces.
pub open spec fn family_chunks(family: FamilyView) -> Seq<Seq<char>> {
    seq![family.header, "\n"@] + sample_chunks(family.samples)
}

/// The pieces in which a list of families is written, in the order of the writes.
pub open spec fn chunks(fs: Seq<FamilyView>) -> Seq<Seq<char>>
    decreases fs.len(),
{
    if fs.len() == 0 {
        Seq::empty()
    } else if fs.len() == 1 {
        family_chunks(fs[0])
    } else {
        chunks(fs.drop_last()) + seq!["\n"@] + family_chunks(fs.last())
    }
}

/// The pieces put together.
pub open spec fn concat(parts: Seq<Seq<char>>) -> Seq<char>
    decreases parts.len(),
{
    if parts.len() == 0 {
        Seq::empty()
    } else {
        concat(parts.drop_last()) + parts.last()
    }
}

/// Putting together two runs of pieces gives the two texts one after the other.
pub proof fn lemma_concat_append(a: Seq<Seq<char>>, b: Seq<Seq<char>>)
    ensures
        concat(a + b) == concat(a) + concat(b),
    decreases b.len(),
{
    if b.len() == 0 {
        assert(a + b =~= a);
    } else {
        assert((a + b).drop_last() =~= a + b.drop_last());
        lemma_concat_append(a, b.drop_last());
    }
}

/// Putting together a first piece and the rest.
pub proof fn lemma_concat_first(parts: Seq<Seq<char>>)
    requires
        parts.len() > 0,
    ensures
        concat(parts) == parts[0] + concat(parts.drop_first()),
{
    let head = seq![parts[0]];
    assert(parts =~= head + parts.drop_first());
    lemma_concat_append(head, parts.drop_first());
    lemma_concat_two(parts[0], parts[0]);
}

/// The sample pieces of a family, put together, are its sample lines.
pub proof fn lemma_sample_chunks_text(samples: Seq<(Seq<char>, Seq<char>)>)
    ensures
        concat(sample_chunks(samples)) == sample_lines(samples),
    decreases samples.len(),
{
    if samples.len() > 0 {
        let last = samples.last();
        let four = seq![last.0, " "@, last.1, "\n"@];
        lemma_sample_chunks_text(samples.drop_last());
        lemma_concat_append(sample_chunks(samples.drop_last()), four);
        lemma_concat_four(last.0, " "@, last.1, "\n"@);
    }
}

proof fn lemma_concat_four(a: Seq<char>, b: Seq<char>, c: Seq<char>, d: Seq<char>)
    ensures
        concat(seq![a, b, c, d]) == a + b + c + d,
{
    let four = seq![a, b, c, d];
    let three = seq![a, b, c];
    let two = seq![a, b];
    let one = seq![a];
    assert(four.drop_last() =~= three);
    assert(three.drop_last() =~= two);
    assert(two.drop_last() =~= one);
    lemma_concat_two(a, b);
    assert(concat(three) =~= a + b + c);
}

proof fn lemma_concat_two(a: Seq<char>, b: Seq<char>)
    ensures
        concat(seq![a, b]) == a + b,
        concat(seq![a]) == a,
{
    let two = seq![a, b];
    let one = seq![a];
    assert(two.drop_last() =~= one);
    assert(one.drop_last() =~= Seq::<Seq<char>>::empty());
    assert(concat(one.drop_last()) =~= Seq::<char>::empty());
    assert(concat(one) =~= a);
}

/// The pieces of a family, put together, are its text.
pub proof fn lemma_family_chunks_text(family: FamilyView)
    ensures
        concat(family_chunks(family)) == family_text(family),
{
    lemma_concat_append(seq![family.header, "\n"@], sample_chunks(family.samples));
    lemma_concat_two(family.header, "\n"@);
    lemma_sample_chunks_text(family.samples);
}

/// The pieces of a list of families, put together, are its exposition text.
pub proof fn lemma_chunks_text(fs: Seq<FamilyView>)
    ensures
        concat(chunks(fs)) == exposition(fs),
    decreases fs.len(),
{
    if fs.len() == 1 {
        lemma_family_chunks_text(fs[0]);
    } else if fs.len() > 1 {
        lemma_chunks_text(fs.drop_last());
        lemma_family_chunks_text(fs.last());
        lemma_concat_append(chunks(fs.drop_last()), seq!["\n"@]);
        lemma_concat_append(chunks(fs.drop_last()) + seq!["\n"@], family_chunks(fs.last()));
        lemma_concat_two("\n"@, "\n"@);
    }
}

/// What an emitter asks of its caller next.
pub enum Step {
    /// The next piece to write and the machine to go on with once it is written.
    Write(String, Emitter),
    /// Everything has been written.
    Done,
    /// The output rejected a write; nothing more is to be written.
    Fail(PrometheusError),
}

/// Hands the pieces of an exposition text to an output, one write at a time.
///
/// The caller performs each write and tells the machine how it went. A rejected write
/// ends the emission: the machine is used up by that answer and hands out no further
/// piece.
pub struct Emitter {
    /// All pieces, in write order.
    pieces: Vec<String>,
    /// Number of pieces handed out so far.
    next: usize,
}

impl Emitter {
    /// The handed-out count is within the pieces.
    #[verifier::type_invariant]
    closed spec fn inv(&self) -> bool {
        self.next <= self.pieces.len()
    }

    /// The pieces that have not been handed out yet, in write order.
    pub closed spec fn pending(&self) -> Seq<Seq<char>> {
        self.pieces.deep_view().skip(self.next as int)
    }

    /// A machine that will hand out the pieces of `families`, in order.
    pub fn new(families: &Families) -> (emitter: Self)
        ensures
            emitter.pending() == chunks(families@),
    {
        let mut pieces: Vec<String> = Vec::new();
        let count = families.len();
        let ghost fs = families@;
        let mut i: usize = 0;
        while i < count
            invariant
                fs == families@,
                count == fs.len(),
                i <= count,
                pieces.deep_view() == chunks(fs.take(i as int)),
            decreases count - i,
        {
            let ghost family = fs[i as int];
            let ghost before = pieces.deep_view();
            if i > 0 {
                push_piece(&mut pieces, "\n");
            }
            let ghost opened = pieces.deep_view();
            push_piece(&mut pieces, families.header(i));
            push_piece(&mut pieces, "\n");
            let samples = families.sample_count(i);
            let mut j: usize = 0;
            while j < samples
                invariant
                    fs == families@,
                    i < fs.len(),
                    family == fs[i as int],
                    samples == family.samples.len(),
                    j <= samples,
                    pieces.deep_view() == opened + seq![family.header, "\n"@] + sample_chunks(
                        family.samples.take(j as int),
                    ),
                decreases samples - j,
            {
                let ghost so_far = pieces.deep_view();
                let (key, value) = families.sample(i, j);
                push_piece(&mut pieces, key);
                push_piece(&mut pieces, " ");
                push_piece(&mut pieces, value);
                push_piece(&mut pieces, "\n");
                proof {
                    let taken = family.samples.take(j + 1);
                    assert(taken.drop_last() =~= family.samples.take(j as int));
                    assert(pieces.deep_view() =~= so_far + seq![key@, " "@, value@, "\n"@]);
                    assert(pieces.deep_view() =~= opened + seq![family.header, "\n"@]
                        + sample_chunks(taken));
                }
                j = j + 1;
            }
            proof {
                assert(family.samples.take(j as int) =~= family.samples);
                let taken = fs.take(i + 1);
                assert(taken.drop_last() =~= fs.take(i as int));
                if i == 0 {
                    assert(before =~= Seq::<Seq<char>>::empty());
                    assert(pieces.deep_view() =~= family_chunks(family));
                } else {
                    assert(opened =~= before + seq!["\n"@]);
                    assert(pieces.deep_view() =~= before + seq!["\n"@] + family_chunks(family));
                }
            }
            i = i + 1;
        }
        assert(fs.take(i as int) =~= fs);
        Emitter { pieces, next: 0 }
    }

    /// Takes the outcome of the last write (or `Ok` before the first) and says what
    /// to do next.
    ///
    /// After a rejected write the answer is the failure, carrying the cause; no
    /// machine comes back, so no write follows the rejected one. After an accepted
    /// write the answer is the next piece with the machine for the rest, or `Done`
    /// when no piece is left.
    pub fn step(self, last: Result<(), std::io::Error>) -> (step: Step)
        ensures
            match last {
                Err(cause) => step == Step::Fail(PrometheusError::Write(cause)),
                Ok(_) => if self.pending().len() == 0 {
                    step is Done
                } else {
                    step matches Step::Write(piece, rest) && piece@ == self.pending()[0]
                        && rest.pending() == self.pending().drop_first()
                },
            },
    {
        proof {
            use_type_invariant(&self);
        }
        match last {
            Err(cause) => Step::Fail(PrometheusError::Write(cause)),
            Ok(_) => {
                if self.next < self.pieces.len() {
                    let piece = self.pieces[self.next].clone();
                    let rest = Emitter { pieces: self.pieces, next: self.next + 1 };
                    assert(rest.pending() =~= self.pending().drop_first());
                    Step::Write(piece, rest)
                } else {
                    Step::Done
                }
            },
        }
    }
}

/// Adds a copy of `piece` at the end of `pieces`.
fn push_piece(pieces: &mut Vec<String>, piece: &str)
    ensures
        final(pieces).deep_view() == old(pieces).deep_view().push(piece@),
{
    pieces.push(piece.to_owned());
}

} // verus!
