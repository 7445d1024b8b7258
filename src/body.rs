//! The payload of a multipart part: how long it is, and how much of each chunk
//! read from the stream belongs to it.
use vstd::prelude::*;
use crate::error::ErrorKind;

verus! {

/// Bytes after the payload: a line terminator, `--boundary--`, and a final terminator.
pub open spec fn trailer_len(boundary_len: nat) -> int {
    (2 + (boundary_len + 4) + 2) as int
}

/// The payload length that a declared body length leaves, possibly negative.
pub open spec fn payload_spec(content_length: nat, header_bytes: nat, boundary_len: nat) -> int {
    content_length - header_bytes - trailer_len(boundary_len)
}

/// The payload length of a body of `content_length` bytes whose headers took
/// `header_bytes` bytes and whose boundary token is `boundary_len` bytes long.
/// Fails when the declared length cannot hold the headers and the trailer.
pub fn payload_length(content_length: usize, header_bytes: usize, boundary_len: usize) -> (r: Result<usize, ErrorKind>)
    ensures
        payload_spec(content_length as nat, header_bytes as nat, boundary_len as nat) >= 0 ==> r
            == Ok::<usize, ErrorKind>(
            payload_spec(content_length as nat, header_bytes as nat, boundary_len as nat) as usize,
        ),
        payload_spec(content_length as nat, header_bytes as nat, boundary_len as nat) < 0 ==> r
            == Err::<usize, ErrorKind>(ErrorKind::LengthMismatch),
{
    if header_bytes > content_length {
        return Err(ErrorKind::LengthMismatch);
    }
    let rest = content_length - header_bytes;
    if boundary_len > rest || rest - boundary_len < 8 {
        return Err(ErrorKind::LengthMismatch);
    }
    Ok(rest - boundary_len - 8)
}

/// What a copy of at most `remaining` bytes writes when the stream delivers `chunks`:
/// each chunk in full while it fits, then the part of it that reaches the limit.
pub open spec fn copy_spec(chunks: Seq<Seq<u8>>, remaining: nat) -> Seq<u8>
    decreases chunks.len(),
{
    if chunks.len() == 0 {
        Seq::empty()
    } else {
        let c = chunks[0];
        let w = if c.len() <= remaining {
            c.len()
        } else {
            remaining
        };
        c.subrange(0, w as int) + copy_spec(chunks.drop_first(), (remaining - w) as nat)
    }
}

/// A copy bounded by the payload length writes the payload exactly, however the
/// stream is cut into chunks and whatever follows the payload in the stream.
pub proof fn lemma_copy_writes_payload(chunks: Seq<Seq<u8>>, payload: Seq<u8>, trailer: Seq<u8>)
    requires
        chunks.flatten() == payload + trailer,
    ensures
        copy_spec(chunks, payload.len()) == payload,
    decreases chunks.len(),
{
    if chunks.len() == 0 {
        assert(payload =~= (payload + trailer).subrange(0, payload.len() as int));
    } else {
        let c = chunks[0];
        let rest = chunks.drop_first();
        assert(chunks.flatten() == c + rest.flatten());
        if c.len() <= payload.len() {
            let p2 = payload.subrange(c.len() as int, payload.len() as int);
            assert(c =~= (payload + trailer).subrange(0, c.len() as int));
            assert(c =~= payload.subrange(0, c.len() as int));
            assert(rest.flatten() =~= (c + rest.flatten()).subrange(c.len() as int, (c + rest.flatten()).len() as int));
            assert(rest.flatten() =~= p2 + trailer);
            lemma_copy_writes_payload(rest, p2, trailer);
            assert(copy_spec(chunks, payload.len()) =~= c + p2);
            assert(payload =~= c + p2);
        } else {
            assert(c.subrange(0, payload.len() as int) =~= (c + rest.flatten()).subrange(0, payload.len() as int));
            assert(payload =~= (payload + trailer).subrange(0, payload.len() as int));
            lemma_copy_nothing_left(rest);
            assert(copy_spec(chunks, payload.len()) =~= payload);
        }
    }
}

proof fn lemma_copy_nothing_left(chunks: Seq<Seq<u8>>)
    ensures
        copy_spec(chunks, 0) == Seq::<u8>::empty(),
    decreases chunks.len(),
{
    if chunks.len() > 0 {
        lemma_copy_nothing_left(chunks.drop_first());
        assert(copy_spec(chunks, 0) =~= Seq::<u8>::empty());
    }
}

/// Bounds a streamed copy to the payload length.
pub struct BodyCopier {
    limit: usize,
    copied: usize,
}

impl BodyCopier {
    /// The payload length this copy is bounded by.
    pub closed spec fn limit_spec(&self) -> nat {
        self.limit as nat
    }

    /// The bytes written so far.
    pub closed spec fn copied_spec(&self) -> nat {
        self.copied as nat
    }

    /// The invariant: never more than the limit is written.
    pub closed spec fn wf(&self) -> bool {
        self.copied <= self.limit
    }

    /// A copy that has written nothing of a payload of `limit` bytes.
    pub fn new(limit: usize) -> (r: BodyCopier)
        ensures
            r.wf(),
            r.limit_spec() == limit,
            r.copied_spec() == 0,
    {
        BodyCopier { limit, copied: 0 }
    }

    /// Takes a chunk of `n` bytes read from the stream and returns how many of
    /// them, from its start, are to be written: all of them while they fit, then
    /// exactly what reaches the limit.
    pub fn take(&mut self, n: usize) -> (r: usize)
        requires
            old(self).wf(),
        ensures
            final(self).wf(),
            final(self).limit_spec() == old(self).limit_spec(),
            r == if n as nat <= old(self).limit_spec() - old(self).copied_spec() {
                n as int
            } else {
                old(self).limit_spec() - old(self).copied_spec()
            },
            final(self).copied_spec() == old(self).copied_spec() + r,
    {
        let room = self.limit - self.copied;
        let w = if n <= room {
            n
        } else {
            room
        };
        self.copied = self.copied + w;
        w
    }

    /// Whether the whole payload has been written.
    pub fn is_done(&self) -> (r: bool)
        requires
            self.wf(),
        ensures
            r == (self.copied_spec() == self.limit_spec()),
    {
        self.copied == self.limit
    }

    /// The bytes written so far.
    pub fn copied(&self) -> (r: usize)
        ensures
            r == self.copied_spec(),
    {
        self.copied
    }
}

/// A well-formed body declaring `content_length = header_bytes + trailer + K` has a
/// payload length of `K`, and the bounded copy writes exactly the `K` payload bytes.
pub proof fn lemma_receive_exact(
    content_length: nat,
    header_bytes: nat,
    boundary_len: nat,
    chunks: Seq<Seq<u8>>,
    payload: Seq<u8>,
    trailer: Seq<u8>,
)
    requires
        content_length == header_bytes + trailer_len(boundary_len) + payload.len(),
        chunks.flatten() == payload + trailer,
    ensures
        payload_spec(content_length, header_bytes, boundary_len) == payload.len(),
        copy_spec(chunks, payload_spec(content_length, header_bytes, boundary_len) as nat) == payload,
{
    lemma_copy_writes_payload(chunks, payload, trailer);
}

/// The bytes of `chunks` a copier bounded by `limit` lets through, taking each
/// chunk in turn: exactly `copy_spec(chunks, limit)`.
pub fn copy_chunks(chunks: &Vec<Vec<u8>>, limit: usize) -> (r: Vec<u8>)
    ensures
        r@ == copy_spec(chunks@.map_values(|c: Vec<u8>| c@), limit as nat),
{
    let ghost all = chunks@.map_values(|c: Vec<u8>| c@);
    let mut copier = BodyCopier::new(limit);
    let mut out: Vec<u8> = Vec::new();
    let mut i: usize = 0;
    assert(all.subrange(0, all.len() as int) =~= all);
    assert(out@ + copy_spec(all, limit as nat) =~= copy_spec(all, limit as nat));
    while i < chunks.len()
        invariant
            all == chunks@.map_values(|c: Vec<u8>| c@),
            i <= chunks@.len(),
            copier.wf(),
            copier.limit_spec() == limit,
            out@ + copy_spec(all.subrange(i as int, all.len() as int), (limit - copier.copied_spec()) as nat)
                == copy_spec(all, limit as nat),
        decreases chunks@.len() - i,
    {
        let chunk = &chunks[i];
        let ghost rest = all.subrange(i as int, all.len() as int);
        let ghost before = out@;
        let w = copier.take(chunk.len());
        let mut j: usize = 0;
        while j < w
            invariant
                j <= w <= chunk@.len(),
                out@ == before + chunk@.subrange(0, j as int),
            decreases w - j,
        {
            out.push(chunk[j]);
            j = j + 1;
            assert(out@ =~= before + chunk@.subrange(0, j as int));
        }
        assert(rest.drop_first() =~= all.subrange(i + 1, all.len() as int));
        assert(rest[0] == chunk@);
        i = i + 1;
        assert(out@ + copy_spec(all.subrange(i as int, all.len() as int), (limit - copier.copied_spec()) as nat)
            =~= copy_spec(all, limit as nat));
    }
    assert(copy_spec(all.subrange(i as int, all.len() as int), (limit - copier.copied_spec()) as nat) =~= Seq::<u8>::empty());
    assert(out@ =~= copy_spec(all, limit as nat));
    out
}

} // verus!
