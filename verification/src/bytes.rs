//! Byte sequences: ASCII text, joining, line termination and counting.

use vstd::prelude::*;

verus! {

/// The line terminator.
pub const NEWLINE: u8 = 10;

/// The bytes of a sequence of ASCII characters, one byte per character.
pub open spec fn ascii_bytes(chars: Seq<char>) -> Seq<u8> {
    Seq::new(chars.len(), |i: int| chars[i] as u8)
}

/// Appends the bytes of `src` to `out`.
pub fn append_bytes(out: &mut Vec<u8>, src: &[u8])
    ensures
        final(out)@ == old(out)@ + src@,
{
    let mut i: usize = 0;
    while i < src.len()
        invariant
            i <= src.len(),
            out@ == old(out)@ + src@.take(i as int),
        decreases src.len() - i,
    {
        out.push(src[i]);
        i += 1;
        assert(out@ =~= old(out)@ + src@.take(i as int));
    }
    assert(src@.take(i as int) =~= src@);
}

/// Appends the bytes of the ASCII text `text` to `out`.
pub fn append_ascii(out: &mut Vec<u8>, text: &str)
    requires
        text.is_ascii(),
    ensures
        final(out)@ == old(out)@ + ascii_bytes(text@),
{
    broadcast use vstd::string::is_ascii_spec_bytes;
    append_bytes(out, text.as_bytes());
}

/// The byte views of a sequence of byte vectors.
pub open spec fn views(parts: Seq<Vec<u8>>) -> Seq<Seq<u8>> {
    Seq::new(parts.len(), |i: int| parts[i]@)
}

/// The parts one after another, with nothing between them.
pub open spec fn concat(parts: Seq<Seq<u8>>) -> Seq<u8>
    decreases parts.len(),
{
    if parts.len() == 0 {
        Seq::empty()
    } else {
        concat(parts.drop_last()) + parts.last()
    }
}

/// The parts one after another, each followed by `sep`.
pub open spec fn followed(parts: Seq<Seq<u8>>, sep: Seq<u8>) -> Seq<u8>
    decreases parts.len(),
{
    if parts.len() == 0 {
        Seq::empty()
    } else {
        followed(parts.drop_last(), sep) + parts.last() + sep
    }
}

/// The parts one after another with `sep` between neighbours: no separator
/// before the first part or behind the last.
pub open spec fn joined(parts: Seq<Seq<u8>>, sep: Seq<u8>) -> Seq<u8>
    decreases parts.len(),
{
    if parts.len() == 0 {
        Seq::empty()
    } else if parts.len() == 1 {
        parts[0]
    } else {
        joined(parts.drop_last(), sep) + sep + parts.last()
    }
}

/// The rows as lines: each row followed by one line terminator.
pub open spec fn terminated(rows: Seq<Seq<u8>>) -> Seq<u8> {
    followed(rows, seq![NEWLINE])
}

/// How often the byte `b` occurs in `s`.
pub open spec fn count(s: Seq<u8>, b: u8) -> nat
    decreases s.len(),
{
    if s.len() == 0 {
        0
    } else {
        count(s.drop_last(), b) + if s.last() == b {
            1nat
        } else {
            0nat
        }
    }
}

/// Whether the byte `b` occurs in none of the parts.
pub open spec fn free_of(parts: Seq<Seq<u8>>, b: u8) -> bool {
    forall|i: int| 0 <= i < parts.len() ==> count(#[trigger] parts[i], b) == 0
}

/// Following a non-empty list of parts by `sep` is joining them and adding
/// one more `sep`.
pub proof fn lemma_followed_is_joined(parts: Seq<Seq<u8>>, sep: Seq<u8>)
    requires
        parts.len() >= 1,
    ensures
        followed(parts, sep) == joined(parts, sep) + sep,
    decreases parts.len(),
{
    if parts.len() == 1 {
        assert(parts.drop_last() =~= Seq::<Seq<u8>>::empty());
        assert(followed(parts.drop_last(), sep) =~= Seq::<u8>::empty());
        assert(followed(parts, sep) =~= joined(parts, sep) + sep);
    } else {
        lemma_followed_is_joined(parts.drop_last(), sep);
        assert(followed(parts, sep) =~= joined(parts, sep) + sep);
    }
}

/// Following distributes over appending lists of parts.
pub proof fn lemma_followed_append(a: Seq<Seq<u8>>, b: Seq<Seq<u8>>, sep: Seq<u8>)
    ensures
        followed(a + b, sep) == followed(a, sep) + followed(b, sep),
    decreases b.len(),
{
    if b.len() == 0 {
        assert(a + b =~= a);
        assert(followed(a, sep) + followed(b, sep) =~= followed(a, sep));
    } else {
        lemma_followed_append(a, b.drop_last(), sep);
        assert((a + b).drop_last() =~= a + b.drop_last());
        assert((a + b).last() == b.last());
        assert(followed(a + b, sep) =~= followed(a, sep) + followed(b, sep));
    }
}

/// The lines of two lists of rows, one after the other, are the lines of the
/// appended list.
pub proof fn lemma_terminated_append(a: Seq<Seq<u8>>, b: Seq<Seq<u8>>)
    ensures
        terminated(a + b) == terminated(a) + terminated(b),
{
    lemma_followed_append(a, b, seq![NEWLINE]);
}

/// Occurrences add up over concatenation.
pub proof fn lemma_count_add(s: Seq<u8>, t: Seq<u8>, b: u8)
    ensures
        count(s + t, b) == count(s, b) + count(t, b),
    decreases t.len(),
{
    if t.len() == 0 {
        assert(s + t =~= s);
    } else {
        lemma_count_add(s, t.drop_last(), b);
        assert((s + t).drop_last() =~= s + t.drop_last());
    }
}

/// A sequence in which no byte equals `b` holds `b` zero times.
pub proof fn lemma_count_absent(s: Seq<u8>, b: u8)
    requires
        forall|i: int| 0 <= i < s.len() ==> s[i] != b,
    ensures
        count(s, b) == 0,
    decreases s.len(),
{
    if s.len() > 0 {
        lemma_count_absent(s.drop_last(), b);
    }
}

/// Joining parts that are free of `b` yields as many `b` as the separators
/// between them hold.
pub proof fn lemma_count_joined(parts: Seq<Seq<u8>>, sep: Seq<u8>, b: u8)
    requires
        free_of(parts, b),
    ensures
        parts.len() == 0 ==> count(joined(parts, sep), b) == 0,
        parts.len() >= 1 ==> count(joined(parts, sep), b) == (parts.len() - 1) * count(sep, b),
    decreases parts.len(),
{
    if parts.len() >= 2 {
        let front = parts.drop_last();
        assert(free_of(front, b)) by {
            assert forall|i: int| 0 <= i < front.len() implies count(#[trigger] front[i], b)
                == 0 by {
                assert(front[i] == parts[i]);
            }
        }
        lemma_count_joined(front, sep, b);
        lemma_count_add(joined(front, sep) + sep, parts.last(), b);
        lemma_count_add(joined(front, sep), sep, b);
        assert(count(parts.last(), b) == 0) by {
            assert(parts.last() == parts[parts.len() - 1]);
        }
        assert((parts.len() - 1) * count(sep, b) == (front.len() - 1) * count(sep, b) + count(
            sep,
            b,
        )) by (nonlinear_arith)
            requires
                front.len() == parts.len() - 1,
        ;
    } else if parts.len() == 1 {
        assert(0 * count(sep, b) == 0) by (nonlinear_arith);
    }
}

/// The lines of rows that are free of the line terminator hold one
/// terminator per row.
pub proof fn lemma_count_terminated(rows: Seq<Seq<u8>>)
    requires
        free_of(rows, NEWLINE),
    ensures
        count(terminated(rows), NEWLINE) == rows.len(),
    decreases rows.len(),
{
    if rows.len() > 0 {
        let front = rows.drop_last();
        assert(free_of(front, NEWLINE)) by {
            assert forall|i: int| 0 <= i < front.len() implies count(
                #[trigger] front[i],
                NEWLINE,
            ) == 0 by {
                assert(front[i] == rows[i]);
            }
        }
        lemma_count_terminated(front);
        lemma_count_add(terminated(front) + rows.last(), seq![NEWLINE], NEWLINE);
        lemma_count_add(terminated(front), rows.last(), NEWLINE);
        assert(count(rows.last(), NEWLINE) == 0) by {
            assert(rows.last() == rows[rows.len() - 1]);
        }
        assert(count(seq![NEWLINE], NEWLINE) == 1) by {
            assert(seq![NEWLINE].drop_last() =~= Seq::<u8>::empty());
            assert(count(Seq::<u8>::empty(), NEWLINE) == 0);
            assert(seq![NEWLINE].last() == NEWLINE);
        }
    }
}

/// Joins `parts` with `sep`: every part is written followed by the
/// separator, and the one trailing separator is then removed.
pub fn join(parts: &Vec<Vec<u8>>, sep: &[u8]) -> (out: Vec<u8>)
    ensures
        out@ == joined(views(parts@), sep@),
{
    let mut out: Vec<u8> = Vec::new();
    let mut i: usize = 0;
    while i < parts.len()
        invariant
            i <= parts.len(),
            out@ == followed(views(parts@).take(i as int), sep@),
        decreases parts.len() - i,
    {
        append_bytes(&mut out, parts[i].as_slice());
        append_bytes(&mut out, sep);
        i += 1;
        proof {
            let now = views(parts@).take(i as int);
            assert(now.drop_last() =~= views(parts@).take(i - 1));
            assert(now.last() == parts@[i - 1]@);
        }
    }
    proof {
        assert(views(parts@).take(i as int) =~= views(parts@));
    }
    if parts.len() > 0 {
        proof {
            lemma_followed_is_joined(views(parts@), sep@);
        }
        out.truncate(out.len() - sep.len());
        assert(out@ =~= joined(views(parts@), sep@));
    }
    out
}

/// Writes `rows` as lines: each row followed by one line terminator.
pub fn lines(rows: &Vec<Vec<u8>>) -> (out: Vec<u8>)
    ensures
        out@ == terminated(views(rows@)),
{
    let mut out: Vec<u8> = Vec::new();
    let mut i: usize = 0;
    while i < rows.len()
        invariant
            i <= rows.len(),
            out@ == terminated(views(rows@).take(i as int)),
        decreases rows.len() - i,
    {
        append_bytes(&mut out, rows[i].as_slice());
        out.push(NEWLINE);
        i += 1;
        proof {
            let now = views(rows@).take(i as int);
            assert(now.drop_last() =~= views(rows@).take(i - 1));
            assert(now.last() == rows@[i - 1]@);
            assert(out@ =~= terminated(now.drop_last()) + now.last() + seq![NEWLINE]);
        }
    }
    proof {
        assert(views(rows@).take(i as int) =~= views(rows@));
    }
    out
}

} // verus!
