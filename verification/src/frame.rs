//! The command stream's binary framing.
//!
//! A frame is one count byte `N` (one executable plus `N - 1` arguments,
//! `N` of at least 1) followed by `N` NUL-terminated byte strings. Frames
//! arrive back to back on the supervisor's input; decoding consumes one
//! frame from the front of a buffer and reports how many bytes it used, so
//! the next frame starts right after. A count byte of zero is rejected
//! outright rather than left to underflow the token count.

use vstd::prelude::*;

verus! {

/// One parsed command: the executable and its arguments, as raw bytes.
pub struct CommandFrame {
    pub executable: Vec<u8>,
    pub args: Vec<Vec<u8>>,
}

/// A token can be framed iff it contains no NUL byte.
pub open spec fn token_valid(t: Seq<u8>) -> bool {
    forall|i: int| 0 <= i < t.len() ==> t[i] != 0
}

/// Whether every token of the sequence can be framed.
pub open spec fn tokens_valid(ts: Seq<Seq<u8>>) -> bool {
    forall|i: int| 0 <= i < ts.len() ==> token_valid(#[trigger] ts[i])
}

/// The frame's tokens in order: the executable, then the arguments.
pub open spec fn frame_tokens(f: CommandFrame) -> Seq<Seq<u8>> {
    seq![f.executable@] + f.args.deep_view()
}

/// The frame's token count, which the leading byte carries.
pub open spec fn frame_count(f: CommandFrame) -> int {
    1 + f.args@.len() as int
}

/// A frame can be encoded iff its token count fits the count byte and no
/// token holds a NUL.
pub open spec fn frame_valid(f: CommandFrame) -> bool {
    frame_count(f) <= 255 && tokens_valid(frame_tokens(f))
}

/// The wire form of a token sequence: each token followed by a NUL.
pub open spec fn encode_tokens(ts: Seq<Seq<u8>>) -> Seq<u8>
    decreases ts.len(),
{
    if ts.len() == 0 {
        Seq::empty()
    } else {
        ts[0] + seq![0u8] + encode_tokens(ts.drop_first())
    }
}

/// The wire form of a whole frame: count byte, then the tokens.
pub open spec fn frame_bytes(f: CommandFrame) -> Seq<u8> {
    seq![frame_count(f) as u8] + encode_tokens(frame_tokens(f))
}

/// How many NUL bytes `s` holds.
pub open spec fn count_nuls(s: Seq<u8>) -> nat
    decreases s.len(),
{
    if s.len() == 0 {
        0
    } else {
        (if s[0] == 0 {
            1nat
        } else {
            0nat
        }) + count_nuls(s.drop_first())
    }
}

/// NUL counts add over concatenation.
proof fn lemma_count_nuls_concat(a: Seq<u8>, b: Seq<u8>)
    ensures
        count_nuls(a + b) == count_nuls(a) + count_nuls(b),
    decreases a.len(),
{
    if a.len() == 0 {
        assert(a + b =~= b);
    } else {
        lemma_count_nuls_concat(a.drop_first(), b);
        assert((a + b).drop_first() =~= a.drop_first() + b);
    }
}

/// A NUL-free sequence has a NUL count of zero.
proof fn lemma_count_nuls_none(s: Seq<u8>)
    requires
        forall|i: int| 0 <= i < s.len() ==> s[i] != 0,
    ensures
        count_nuls(s) == 0,
    decreases s.len(),
{
    if s.len() > 0 {
        lemma_count_nuls_none(s.drop_first());
    }
}

/// Appending one token to the sequence appends its wire form.
proof fn lemma_encode_snoc(ts: Seq<Seq<u8>>, t: Seq<u8>)
    ensures
        encode_tokens(ts.push(t)) == encode_tokens(ts) + t + seq![0u8],
    decreases ts.len(),
{
    if ts.len() == 0 {
        assert(encode_tokens(Seq::<Seq<u8>>::empty()) == Seq::<u8>::empty());
        assert(ts =~= Seq::<Seq<u8>>::empty());
        assert(ts.push(t).drop_first() =~= Seq::<Seq<u8>>::empty());
        assert(encode_tokens(ts.push(t)) =~= encode_tokens(ts) + t + seq![0u8]);
    } else {
        lemma_encode_snoc(ts.drop_first(), t);
        assert(ts.push(t).drop_first() =~= ts.drop_first().push(t));
        assert(ts.push(t)[0] =~= ts[0]);
        assert(encode_tokens(ts.push(t)) =~= encode_tokens(ts) + t + seq![0u8]);
    }
}

/// The wire form of a nonempty valid token sequence: the first token's
/// bytes (none of them NUL), one NUL, then the rest's wire form.
proof fn lemma_encode_head(ts: Seq<Seq<u8>>)
    requires
        ts.len() > 0,
        tokens_valid(ts),
    ensures
        encode_tokens(ts).len() >= ts[0].len() + 1,
        encode_tokens(ts).subrange(0, ts[0].len() as int) == ts[0],
        encode_tokens(ts)[ts[0].len() as int] == 0,
        forall|j: int| 0 <= j < ts[0].len() ==> encode_tokens(ts)[j] != 0,
        encode_tokens(ts).subrange(ts[0].len() as int + 1, encode_tokens(ts).len() as int)
            == encode_tokens(ts.drop_first()),
{
    let e = encode_tokens(ts);
    let t = ts[0];
    assert(e =~= t + seq![0u8] + encode_tokens(ts.drop_first()));
    assert(e.subrange(0, t.len() as int) =~= t);
    assert(e.subrange(t.len() as int + 1, e.len() as int) =~= encode_tokens(ts.drop_first()));
}

/// Two valid token sequences of equal count whose wire forms agree on the
/// shorter one's length are the same sequence, with the same wire length.
proof fn lemma_encode_prefix_inj(ts1: Seq<Seq<u8>>, ts2: Seq<Seq<u8>>)
    requires
        tokens_valid(ts1),
        tokens_valid(ts2),
        ts1.len() == ts2.len(),
        encode_tokens(ts1).len() <= encode_tokens(ts2).len(),
        encode_tokens(ts2).subrange(0, encode_tokens(ts1).len() as int) == encode_tokens(ts1),
    ensures
        ts1 == ts2,
    decreases ts1.len(),
{
    if ts1.len() == 0 {
        assert(ts1 =~= ts2);
    } else {
        let e1 = encode_tokens(ts1);
        let e2 = encode_tokens(ts2);
        let t1 = ts1[0];
        let t2 = ts2[0];
        lemma_encode_head(ts1);
        lemma_encode_head(ts2);
        assert(forall|j: int| 0 <= j < e1.len() ==> e1[j] == e2[j]);
        assert(t1.len() == t2.len()) by {
            if t1.len() < t2.len() {
                assert(e2[t1.len() as int] != 0);
                assert(e1[t1.len() as int] == 0);
            }
            if t2.len() < t1.len() {
                assert(e1[t2.len() as int] != 0);
                assert(e2[t2.len() as int] == 0);
            }
        }
        assert(t1 =~= t2) by {
            assert(forall|j: int| 0 <= j < t1.len() ==> t1[j] == e1[j] && t2[j] == e2[j]);
        }
        let r1 = e1.subrange(t1.len() as int + 1, e1.len() as int);
        let r2 = e2.subrange(t2.len() as int + 1, e2.len() as int);
        assert(r2.subrange(0, r1.len() as int) =~= r1) by {
            assert(forall|j: int|
                0 <= j < r1.len() ==> r1[j] == e1[t1.len() + 1 + j] && r2[j] == e2[t2.len() + 1
                    + j]);
        }
        assert(forall|i: int|
            1 <= i < ts1.len() ==> ts1.drop_first()[i - 1] == #[trigger] ts1[i]
                && ts2.drop_first()[i - 1] == ts2[i]);
        assert(tokens_valid(ts1.drop_first()));
        assert(tokens_valid(ts2.drop_first()));
        lemma_encode_prefix_inj(ts1.drop_first(), ts2.drop_first());
        assert(ts1 =~= ts2);
    }
}

fn push_token(out: &mut Vec<u8>, t: &Vec<u8>)
    ensures
        final(out)@ == old(out)@ + t@ + seq![0u8],
{
    let mut i: usize = 0;
    while i < t.len()
        invariant
            0 <= i <= t@.len(),
            out@ == old(out)@ + t@.subrange(0, i as int),
        decreases t@.len() - i,
    {
        out.push(t[i]);
        assert(t@.subrange(0, i + 1) =~= t@.subrange(0, i as int).push(t@[i as int]));
        i = i + 1;
    }
    assert(t@.subrange(0, t@.len() as int) =~= t@);
    out.push(0);
}

/// Encodes a frame: the count byte, then each token NUL-terminated.
pub fn encode_frame(f: &CommandFrame) -> (out: Vec<u8>)
    requires
        frame_valid(*f),
    ensures
        out@ == frame_bytes(*f),
{
    let ghost tokens = frame_tokens(*f);
    let mut out: Vec<u8> = Vec::new();
    let count: u8 = (1 + f.args.len()) as u8;
    out.push(count);
    push_token(&mut out, &f.executable);
    proof {
        assert(encode_tokens(Seq::<Seq<u8>>::empty()) == Seq::<u8>::empty());
        assert(tokens.subrange(0, 1) =~= seq![tokens[0]]);
        assert(tokens.subrange(0, 1).drop_first() =~= Seq::<Seq<u8>>::empty());
        assert(encode_tokens(tokens.subrange(0, 1)) =~= f.executable@ + seq![0u8]);
        assert(out@ =~= seq![count] + encode_tokens(tokens.subrange(0, 1)));
    }
    let mut k: usize = 0;
    while k < f.args.len()
        invariant
            0 <= k <= f.args@.len(),
            tokens == frame_tokens(*f),
            tokens.len() == 1 + f.args@.len(),
            out@ == seq![count] + encode_tokens(tokens.subrange(0, 1 + k)),
        decreases f.args@.len() - k,
    {
        proof {
            assert(tokens[1 + k] == f.args.deep_view()[k as int]);
            assert(f.args.deep_view()[k as int] == f.args@[k as int]@);
            lemma_encode_snoc(tokens.subrange(0, 1 + k), tokens[1 + k]);
            assert(tokens.subrange(0, 2 + k) =~= tokens.subrange(0, 1 + k).push(tokens[1 + k]));
        }
        push_token(&mut out, &f.args[k]);
        k = k + 1;
    }
    proof {
        assert(tokens.subrange(0, tokens.len() as int) =~= tokens);
    }
    out
}

/// Why a frame could not be decoded.
#[derive(Clone, Copy, Debug, PartialEq, Eq, Structural)]
pub enum FrameError {
    /// The buffer ends before the frame does; read more and retry.
    Incomplete,
    /// The count byte is zero, which no frame may carry.
    ZeroCount,
}

fn take_token(buf: &[u8], start: usize) -> (r: Option<(Vec<u8>, usize)>)
    requires
        start <= buf@.len(),
    ensures
        match r {
            Some(p) => {
                &&& start < p.1 <= buf@.len()
                &&& p.0@ == buf@.subrange(start as int, p.1 - 1)
                &&& buf@[p.1 - 1] == 0
                &&& token_valid(p.0@)
            },
            None => forall|j: int| start <= j < buf@.len() ==> buf@[j] != 0,
        },
{
    let mut i: usize = start;
    while i < buf.len()
        invariant
            start <= i <= buf@.len(),
            forall|j: int| start <= j < i ==> buf@[j] != 0,
        decreases buf@.len() - i,
    {
        if buf[i] == 0 {
            let mut t: Vec<u8> = Vec::new();
            let mut j: usize = start;
            while j < i
                invariant
                    start <= j <= i < buf@.len(),
                    t@ == buf@.subrange(start as int, j as int),
                    forall|q: int| start <= q < i ==> buf@[q] != 0,
                decreases i - j,
            {
                t.push(buf[j]);
                assert(buf@.subrange(start as int, j + 1) =~= buf@.subrange(
                    start as int,
                    j as int,
                ).push(buf@[j as int]));
                j = j + 1;
            }
            return Some((t, i + 1));
        }
        i = i + 1;
    }
    None
}

/// Decodes one frame from the front of `buf`.
///
/// On success the decoded frame's wire form is exactly the first `used`
/// bytes, so the caller resumes at `used`. `Incomplete` asks for more
/// input: the buffer holds fewer NULs than the count byte promises.
/// `ZeroCount` rejects a frame that claims no tokens at all.
pub fn decode_frame(buf: &[u8]) -> (r: Result<(CommandFrame, usize), FrameError>)
    ensures
        match r {
            Ok(p) => {
                &&& frame_valid(p.0)
                &&& 1 <= p.1 <= buf@.len()
                &&& frame_bytes(p.0) == buf@.subrange(0, p.1 as int)
                &&& buf@.len() > 0 && buf@[0] != 0
                &&& count_nuls(buf@.subrange(1, buf@.len() as int)) >= buf@[0]
            },
            Err(FrameError::ZeroCount) => buf@.len() > 0 && buf@[0] == 0,
            Err(FrameError::Incomplete) => buf@.len() == 0 || (buf@[0] != 0 && count_nuls(
                buf@.subrange(1, buf@.len() as int),
            ) < buf@[0]),
        },
{
    if buf.len() == 0 {
        return Err(FrameError::Incomplete);
    }
    let count = buf[0];
    if count == 0 {
        return Err(FrameError::ZeroCount);
    }
    let (executable, first_end) = match take_token(buf, 1) {
        None => {
            proof {
                lemma_count_nuls_none(buf@.subrange(1, buf@.len() as int));
            }
            return Err(FrameError::Incomplete);
        },
        Some(p) => p,
    };
    let mut pos: usize = first_end;
    let ghost tokens0 = seq![executable@];
    proof {
        lemma_take_token_accounting(buf@, 1, pos as int, executable@);
        assert(encode_tokens(Seq::<Seq<u8>>::empty()) == Seq::<u8>::empty());
        assert(tokens0.drop_first() =~= Seq::<Seq<u8>>::empty());
        assert(encode_tokens(tokens0) =~= executable@ + seq![0u8]);
        assert(buf@.subrange(1, pos as int) =~= executable@ + seq![0u8]);
    }
    let mut args: Vec<Vec<u8>> = Vec::new();
    let mut k: u8 = 1;
    while k < count
        invariant
            1 <= k <= count,
            count == buf@[0],
            1 <= pos <= buf@.len(),
            k == 1 + args@.len(),
            tokens_valid(seq![executable@] + args.deep_view()),
            encode_tokens(seq![executable@] + args.deep_view()) == buf@.subrange(1, pos as int),
            count_nuls(buf@.subrange(1, pos as int)) == k,
        decreases count - k,
    {
        let ghost tokens = seq![executable@] + args.deep_view();
        match take_token(buf, pos) {
            None => {
                proof {
                    lemma_count_nuls_none(buf@.subrange(pos as int, buf@.len() as int));
                    lemma_count_nuls_concat(
                        buf@.subrange(1, pos as int),
                        buf@.subrange(pos as int, buf@.len() as int),
                    );
                    assert(buf@.subrange(1, buf@.len() as int) =~= buf@.subrange(1, pos as int)
                        + buf@.subrange(pos as int, buf@.len() as int));
                }
                return Err(FrameError::Incomplete);
            },
            Some(p) => {
                let (t, end) = p;
                let ghost tv = t@;
                proof {
                    lemma_encode_snoc(tokens, tv);
                    lemma_take_token_accounting(buf@, pos as int, end as int, tv);
                    lemma_count_nuls_concat(
                        buf@.subrange(1, pos as int),
                        buf@.subrange(pos as int, end as int),
                    );
                    assert(buf@.subrange(1, end as int) =~= buf@.subrange(1, pos as int)
                        + buf@.subrange(pos as int, end as int));
                    assert(buf@.subrange(1, end as int) =~= encode_tokens(tokens.push(tv)));
                }
                args.push(t);
                proof {
                    assert((seq![executable@] + args.deep_view()) =~= tokens.push(tv)) by {
                        assert(forall|q: int|
                            0 <= q < args@.len() ==> args.deep_view()[q] == args@[q]@);
                    }
                }
                pos = end;
                k = k + 1;
            },
        }
    }
    let frame = CommandFrame { executable, args };
    proof {
        let tokens = frame_tokens(frame);
        assert(tokens =~= seq![frame.executable@] + frame.args.deep_view());
        assert(frame_bytes(frame) =~= seq![count] + buf@.subrange(1, pos as int));
        assert(frame_bytes(frame) =~= buf@.subrange(0, pos as int));
        lemma_count_nuls_concat(
            buf@.subrange(1, pos as int),
            buf@.subrange(pos as int, buf@.len() as int),
        );
        assert(buf@.subrange(1, buf@.len() as int) =~= buf@.subrange(1, pos as int) + buf@.subrange(
            pos as int,
            buf@.len() as int,
        ));
    }
    Ok((frame, pos))
}

/// A token taken from `buf` between `start` and `end` occupies exactly
/// those bytes on the wire and contributes exactly one NUL.
proof fn lemma_take_token_accounting(buf: Seq<u8>, start: int, end: int, t: Seq<u8>)
    requires
        0 <= start < end <= buf.len(),
        t == buf.subrange(start, end - 1),
        buf[end - 1] == 0,
        token_valid(t),
    ensures
        buf.subrange(start, end) == t + seq![0u8],
        count_nuls(buf.subrange(start, end)) == 1,
{
    assert(buf.subrange(start, end) =~= t + seq![0u8]);
    lemma_count_nuls_concat(t, seq![0u8]);
    lemma_count_nuls_none(t);
    assert(count_nuls(seq![0u8]) == 1) by {
        assert(count_nuls(Seq::<u8>::empty()) == 0);
        assert(seq![0u8].drop_first() =~= Seq::<u8>::empty());
    }
}

/// A valid token sequence's wire form holds one NUL per token.
proof fn lemma_encode_tokens_nuls(ts: Seq<Seq<u8>>)
    requires
        tokens_valid(ts),
    ensures
        count_nuls(encode_tokens(ts)) == ts.len(),
    decreases ts.len(),
{
    if ts.len() == 0 {
    } else {
        assert(forall|i: int|
            1 <= i < ts.len() ==> ts.drop_first()[i - 1] == #[trigger] ts[i]);
        assert(tokens_valid(ts.drop_first()));
        lemma_encode_tokens_nuls(ts.drop_first());
        lemma_count_nuls_none(ts[0]);
        lemma_count_nuls_concat(ts[0], seq![0u8]);
        lemma_count_nuls_concat(ts[0] + seq![0u8], encode_tokens(ts.drop_first()));
        assert(count_nuls(seq![0u8]) == 1) by {
            assert(count_nuls(Seq::<u8>::empty()) == 0);
            assert(seq![0u8].drop_first() =~= Seq::<u8>::empty());
        }
    }
}

/// An encoded valid frame always decodes: its buffer is nonempty, its
/// count byte is nonzero, and the bytes past the count byte hold as many
/// NULs as the count byte promises.
pub proof fn lemma_frame_bytes_decodable(f: CommandFrame)
    requires
        frame_valid(f),
    ensures
        frame_bytes(f).len() >= 2,
        frame_bytes(f)[0] == frame_count(f) as u8,
        frame_bytes(f)[0] != 0,
        count_nuls(frame_bytes(f).subrange(1, frame_bytes(f).len() as int)) == frame_count(f),
{
    let ts = frame_tokens(f);
    lemma_encode_tokens_nuls(ts);
    assert(frame_bytes(f).subrange(1, frame_bytes(f).len() as int) =~= encode_tokens(ts));
    assert(encode_tokens(ts).len() >= 1) by {
        assert(ts.len() > 0);
        assert(encode_tokens(ts) =~= ts[0] + seq![0u8] + encode_tokens(ts.drop_first()));
    }
    assert(1 <= frame_count(f) <= 255);
}

/// Round trip: decoding what a frame encodes yields that frame, whole.
///
/// If a valid frame `g` decodes from a prefix of valid frame `f`'s wire
/// form — as `decode_frame` guarantees of its result — then `g` carries
/// the same tokens as `f` and the prefix was all of it.
pub proof fn lemma_frame_round_trip(f: CommandFrame, g: CommandFrame, used: int)
    requires
        frame_valid(f),
        frame_valid(g),
        0 <= used <= frame_bytes(f).len(),
        frame_bytes(g) == frame_bytes(f).subrange(0, used),
    ensures
        g.executable@ == f.executable@,
        g.args.deep_view() == f.args.deep_view(),
        used == frame_bytes(f).len(),
{
    let tf = frame_tokens(f);
    let tg = frame_tokens(g);
    let bf = frame_bytes(f);
    let bg = frame_bytes(g);
    assert(bg.len() == used);
    assert(bg.len() >= 1);
    assert(bg[0] == bf[0]);
    assert(frame_count(g) as u8 == frame_count(f) as u8);
    assert(frame_count(g) == frame_count(f));
    assert(tg.len() == tf.len());
    let eg = encode_tokens(tg);
    let ef = encode_tokens(tf);
    assert(eg.len() <= ef.len()) by {
        assert(bg.len() <= bf.len());
        assert(bg.len() == 1 + eg.len());
        assert(bf.len() == 1 + ef.len());
    }
    assert(ef.subrange(0, eg.len() as int) =~= eg) by {
        assert(forall|j: int| 0 <= j < eg.len() ==> eg[j] == bg[j + 1] && ef[j] == bf[j + 1]);
        assert(forall|j: int| 0 <= j < bg.len() ==> bg[j] == bf[j]);
    }
    lemma_encode_prefix_inj(tg, tf);
    assert(g.executable@ == tg[0]);
    assert(f.executable@ == tf[0]);
    assert(g.args.deep_view() =~= tg.drop_first());
    assert(f.args.deep_view() =~= tf.drop_first());
    assert(used == bf.len());
}

} // verus!
