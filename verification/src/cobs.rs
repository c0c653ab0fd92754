//! Consistent-overhead byte stuffing: the transformation that keeps the
//! frame delimiter `0x00` out of an encoded body.
//!
//! A body is cut into blocks. Each block starts with a code byte `n` and
//! carries `n - 1` literal non-zero bytes; a code below `0xFF` that is not
//! the last one stands for a zero that followed the block in the body.

use vstd::prelude::*;
use crate::bytes::append_range;

verus! {

/// The byte that ends every frame and never occurs inside one.
pub const DELIMITER: u8 = 0;

/// Length of the longest prefix of `data` that holds no zero.
pub open spec fn run_len(data: Seq<u8>) -> nat
    decreases data.len(),
{
    if data.len() == 0 || data[0] == 0 {
        0
    } else {
        1 + run_len(data.skip(1))
    }
}

/// Whether `data` holds no delimiter.
pub open spec fn zero_free(data: Seq<u8>) -> bool {
    forall|i: int| 0 <= i < data.len() ==> data[i] != 0
}

/// The stuffed form of `data`.
pub open spec fn stuff(data: Seq<u8>) -> Seq<u8>
    decreases data.len(),
{
    let run = run_len(data) as int;
    if run >= 254 && data.len() >= 254 {
        seq![0xFFu8] + data.take(254) + stuff(data.skip(254))
    } else if run < data.len() {
        seq![(run + 1) as u8] + data.take(run) + stuff(data.skip(run + 1))
    } else {
        seq![(run + 1) as u8] + data
    }
}

/// Decodes a zero-free sequence of blocks; `None` where a code byte points
/// past the end.
pub open spec fn unstuff_blocks(enc: Seq<u8>) -> Option<Seq<u8>>
    decreases enc.len(),
{
    if enc.len() == 0 {
        Some(Seq::empty())
    } else {
        let code = enc[0] as int;
        if code == 0 || code > enc.len() {
            None
        } else {
            let rest = enc.skip(code);
            match unstuff_blocks(rest) {
                None => None,
                Some(tail) => if code != 0xFF && rest.len() > 0 {
                    Some(enc.subrange(1, code) + seq![0u8] + tail)
                } else {
                    Some(enc.subrange(1, code) + tail)
                },
            }
        }
    }
}

/// Decodes what precedes the first delimiter of `enc`. An empty body is
/// malformed: even the empty message stuffs to one code byte.
pub open spec fn unstuff(enc: Seq<u8>) -> Option<Seq<u8>> {
    let body = enc.take(run_len(enc) as int);
    if body.len() == 0 {
        None
    } else {
        unstuff_blocks(body)
    }
}

/// A run never exceeds the data, holds no zero, and stops at a zero or at
/// the end.
pub proof fn lemma_run_len(data: Seq<u8>)
    ensures
        run_len(data) <= data.len(),
        forall|i: int| 0 <= i < run_len(data) ==> data[i] != 0,
        run_len(data) < data.len() ==> data[run_len(data) as int] == 0,
    decreases data.len(),
{
    if data.len() == 0 || data[0] == 0 {
    } else {
        lemma_run_len(data.skip(1));
        assert forall|i: int| 0 <= i < run_len(data) implies data[i] != 0 by {
            if i > 0 {
                assert(data.skip(1)[i - 1] == data[i]);
            }
        }
        if run_len(data) < data.len() {
            assert(data.skip(1)[run_len(data.skip(1)) as int] == data[run_len(data) as int]);
        }
    }
}

/// A zero-free prefix of length `n` bounds the run from below, and pins it
/// where a zero or the end follows.
pub proof fn lemma_run_len_from_prefix(data: Seq<u8>, n: int)
    requires
        0 <= n <= data.len(),
        forall|i: int| 0 <= i < n ==> data[i] != 0,
    ensures
        run_len(data) >= n,
        (n == data.len() || data[n] == 0) ==> run_len(data) == n,
    decreases n,
{
    if n == 0 {
    } else {
        assert(data[0] != 0);
        assert forall|i: int| 0 <= i < n - 1 implies data.skip(1)[i] != 0 by {
            assert(data.skip(1)[i] == data[i + 1]);
        }
        if n < data.len() {
            assert(data.skip(1)[n - 1] == data[n]);
        }
        lemma_run_len_from_prefix(data.skip(1), n - 1);
    }
}

/// The run of a zero-free sequence is the whole sequence.
pub proof fn lemma_run_len_zero_free(data: Seq<u8>)
    requires
        zero_free(data),
    ensures
        run_len(data) == data.len(),
{
    lemma_run_len_from_prefix(data, data.len() as int);
}

/// A stuffed body is never empty and holds no delimiter.
pub proof fn lemma_stuff_zero_free(data: Seq<u8>)
    ensures
        stuff(data).len() >= 1,
        zero_free(stuff(data)),
    decreases data.len(),
{
    lemma_run_len(data);
    let run = run_len(data) as int;
    if run >= 254 && data.len() >= 254 {
        lemma_stuff_zero_free(data.skip(254));
    } else if run < data.len() {
        lemma_stuff_zero_free(data.skip(run + 1));
    } else {
    }
}

/// Stuffing adds at least one byte, and exactly one to a body shorter than
/// the longest run.
pub proof fn lemma_stuff_len(data: Seq<u8>)
    ensures
        stuff(data).len() >= data.len() + 1,
        data.len() < 254 ==> stuff(data).len() == data.len() + 1,
    decreases data.len(),
{
    lemma_run_len(data);
    let run = run_len(data) as int;
    if run >= 254 && data.len() >= 254 {
        lemma_stuff_len(data.skip(254));
    } else if run < data.len() {
        lemma_stuff_len(data.skip(run + 1));
    } else {
    }
}

/// Unstuffing a stuffed body gives the body back.
pub proof fn lemma_unstuff_blocks_stuff(data: Seq<u8>)
    ensures
        unstuff_blocks(stuff(data)) == Some(data),
    decreases data.len(),
{
    lemma_run_len(data);
    let run = run_len(data) as int;
    let enc = stuff(data);
    if run >= 254 && data.len() >= 254 {
        let rest = stuff(data.skip(254));
        lemma_unstuff_blocks_stuff(data.skip(254));
        lemma_stuff_zero_free(data.skip(254));
        assert(enc[0] == 0xFF);
        assert(enc.skip(255) =~= rest);
        assert(enc.subrange(1, 255) =~= data.take(254));
        assert(data.take(254) + data.skip(254) =~= data);
        assert(enc.len() >= 255);
        assert(unstuff_blocks(enc) == Some(data));
    } else if run < data.len() {
        let rest = stuff(data.skip(run + 1));
        lemma_unstuff_blocks_stuff(data.skip(run + 1));
        lemma_stuff_zero_free(data.skip(run + 1));
        let code = run + 1;
        assert(enc[0] == code);
        assert(enc.skip(code) =~= rest);
        assert(enc.subrange(1, code) =~= data.take(run));
        assert(data.take(run) + seq![0u8] + data.skip(run + 1) =~= data);
        assert(enc.len() >= code);
        assert(rest.len() > 0);
        assert(unstuff_blocks(enc) == Some(data));
    } else {
        let code = run + 1;
        assert(enc[0] == code);
        assert(enc.skip(code) =~= Seq::<u8>::empty());
        assert(enc.subrange(1, code) =~= data);
        assert(data + Seq::<u8>::empty() =~= data);
        assert(enc.len() == code);
        assert(unstuff_blocks(enc.skip(code)) == Some(Seq::<u8>::empty()));
        assert(unstuff_blocks(enc) == Some(data));
    }
}

/// Round trip of the stuffing: whatever follows the stuffed body after a
/// delimiter, unstuffing returns the body.
pub proof fn lemma_unstuff_stuff(data: Seq<u8>, after: Seq<u8>)
    ensures
        unstuff(stuff(data) + seq![0u8] + after) == Some(data),
        unstuff(stuff(data)) == Some(data),
{
    let enc = stuff(data);
    lemma_stuff_zero_free(data);
    lemma_unstuff_blocks_stuff(data);
    let framed = enc + seq![0u8] + after;
    assert forall|i: int| 0 <= i < enc.len() implies framed[i] != 0 by {
        assert(framed[i] == enc[i]);
    }
    assert(framed[enc.len() as int] == 0);
    lemma_run_len_from_prefix(framed, enc.len() as int);
    assert(framed.take(enc.len() as int) =~= enc);
    lemma_run_len_zero_free(enc);
    assert(enc.take(enc.len() as int) =~= enc);
}

/// Stuffs `data`. The result holds no delimiter.
pub fn stuff_bytes(data: &[u8]) -> (out: Vec<u8>)
    ensures
        out@ == stuff(data@),
        zero_free(out@),
        out@.len() >= 1,
{
    let len = data.len();
    let mut out: Vec<u8> = Vec::new();
    let mut pos: usize = 0;
    proof {
        assert(data@.skip(0) =~= data@);
        lemma_stuff_zero_free(data@);
    }
    loop
        invariant_except_break
            stuff(data@) == out@ + stuff(data@.skip(pos as int)),
        invariant
            len == data@.len(),
            pos <= len,
            zero_free(stuff(data@)),
            stuff(data@).len() >= 1,
        ensures
            out@ == stuff(data@),
            zero_free(out@),
            out@.len() >= 1,
        decreases len - pos,
    {
        let ghost rest = data@.skip(pos as int);
        let ghost before = out@;
        let mut run: usize = 0;
        while run < 254 && pos + run < len && data[pos + run] != 0
            invariant
                len == data@.len(),
                pos <= len,
                run <= 254,
                pos + run <= len,
                rest == data@.skip(pos as int),
                forall|k: int| 0 <= k < run ==> rest[k] != 0,
            decreases 254 - run,
        {
            run += 1;
        }
        proof {
            lemma_run_len(rest);
            lemma_run_len_from_prefix(rest, run as int);
        }
        if run == 254 {
            out.push(0xFF);
            append_range(&mut out, data, pos, pos + 254);
            proof {
                assert(data@.subrange(pos as int, pos + 254) =~= rest.take(254));
                assert(rest.skip(254) =~= data@.skip(pos + 254));
                assert(out@ =~= before + (seq![0xFFu8] + rest.take(254)));
            }
            pos += 254;
        } else if pos + run < len {
            out.push((run + 1) as u8);
            append_range(&mut out, data, pos, pos + run);
            proof {
                assert(run_len(rest) == run);
                assert(data@.subrange(pos as int, pos + run) =~= rest.take(run as int));
                assert(rest.skip(run + 1) =~= data@.skip(pos + run + 1));
                assert(out@ =~= before + (seq![(run + 1) as u8] + rest.take(run as int)));
            }
            pos += run + 1;
        } else {
            out.push((run + 1) as u8);
            append_range(&mut out, data, pos, len);
            proof {
                assert(run_len(rest) == run);
                assert(data@.subrange(pos as int, len as int) =~= rest);
                assert(out@ =~= before + (seq![(run + 1) as u8] + rest));
            }
            break ;
        }
    }
    out
}

/// Unstuffs what precedes the first delimiter of `enc`; `None` where the
/// body is empty or a code byte points past its end.
pub fn unstuff_bytes(enc: &[u8]) -> (out: Option<Vec<u8>>)
    ensures
        match out {
            Some(v) => unstuff(enc@) == Some(v@),
            None => unstuff(enc@) is None,
        },
{
    let mut end: usize = 0;
    while end < enc.len() && enc[end] != 0
        invariant
            end <= enc@.len(),
            forall|k: int| 0 <= k < end ==> enc@[k] != 0,
        decreases enc@.len() - end,
    {
        end += 1;
    }
    let ghost body = enc@.take(end as int);
    proof {
        lemma_run_len_from_prefix(enc@, end as int);
    }
    if end == 0 {
        return None;
    }
    let mut out: Vec<u8> = Vec::new();
    let mut si: usize = 0;
    proof {
        assert(body.skip(0) =~= body);
    }
    while si < end
        invariant
            si <= end <= enc@.len(),
            body == enc@.take(end as int),
            zero_free(body),
            unstuff(enc@) == unstuff_blocks(body),
            unstuff_blocks(body) == match unstuff_blocks(body.skip(si as int)) {
                None => None::<Seq<u8>>,
                Some(tail) => Some(out@ + tail),
            },
        decreases end - si,
    {
        let ghost here = body.skip(si as int);
        let code = enc[si] as usize;
        assert(here[0] == body[si as int]);
        assert(code != 0);
        if code > end - si {
            return None;
        }
        let ghost before = out@;
        append_range(&mut out, enc, si + 1, si + code);
        proof {
            assert(enc@.subrange(si + 1, si + code) =~= here.subrange(1, code as int));
            assert(here.skip(code as int) =~= body.skip(si + code));
        }
        si += code;
        if code != 0xFF && si < end {
            out.push(0);
        }
        proof {
            let rest = body.skip(si as int);
            match unstuff_blocks(rest) {
                None => {},
                Some(tail) => {
                    if code != 0xFF && rest.len() > 0 {
                        assert(before + (here.subrange(1, code as int) + seq![0u8] + tail)
                            =~= out@ + tail);
                    } else {
                        assert(before + (here.subrange(1, code as int) + tail) =~= out@ + tail);
                    }
                },
            }
        }
    }
    proof {
        assert(body.skip(end as int) =~= Seq::<u8>::empty());
        assert(out@ + Seq::<u8>::empty() =~= out@);
    }
    Some(out)
}

} // verus!
