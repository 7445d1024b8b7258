//! The header block of a multipart part, read line by line.
use vstd::prelude::*;
use crate::error::ErrorKind;

verus! {

/// The bytes of `Content-Disposition`.
pub open spec fn disposition_prefix() -> Seq<u8> {
    seq![67u8, 111, 110, 116, 101, 110, 116, 45, 68, 105, 115, 112, 111, 115, 105, 116, 105, 111, 110]
}

/// The bytes of `boundary=`.
pub open spec fn boundary_key() -> Seq<u8> {
    seq![98u8, 111, 117, 110, 100, 97, 114, 121, 61]
}

/// Whether `p` occurs in `s` at position `i`.
pub open spec fn occurs_at(s: Seq<u8>, p: Seq<u8>, i: int) -> bool {
    0 <= i && i + p.len() <= s.len() && s.subrange(i, i + p.len()) == p
}

/// The greatest position `j <= i` at which `p` occurs in `s`, or -1.
pub open spec fn last_occurrence_upto(s: Seq<u8>, p: Seq<u8>, i: int) -> int
    decreases i + 1,
{
    if i < 0 {
        -1
    } else if occurs_at(s, p, i) {
        i
    } else {
        last_occurrence_upto(s, p, i - 1)
    }
}

/// The position of the last occurrence of `p` in `s`, or -1 if there is none.
pub open spec fn last_occurrence(s: Seq<u8>, p: Seq<u8>) -> int {
    last_occurrence_upto(s, p, s.len() - p.len())
}

/// Whether `line` starts with `Content-Disposition`.
pub open spec fn is_disposition(line: Seq<u8>) -> bool {
    occurs_at(line, disposition_prefix(), 0)
}

/// The file name on a `Content-Disposition` line: the line loses its last three
/// bytes (closing quote and line terminator), and what follows the last double
/// quote of the rest is the name. `None` when that rest holds no double quote.
pub open spec fn disposition_value(line: Seq<u8>) -> Option<Seq<u8>> {
    let s = line.subrange(0, line.len() - 3);
    let q = last_occurrence(s, seq![34u8]);
    if q < 0 {
        None
    } else {
        Some(s.subrange(q + 1, s.len() as int))
    }
}

/// The multipart boundary token of a `Content-Type` value: what follows the last
/// `boundary=`, or the whole value when it holds none.
pub open spec fn boundary_spec(content_type: Seq<u8>) -> Seq<u8> {
    let i = last_occurrence(content_type, boundary_key());
    if i < 0 {
        content_type
    } else {
        content_type.subrange(i + 9, content_type.len() as int)
    }
}

/// The line that ends the header block.
pub open spec fn is_blank_line(line: Seq<u8>) -> bool {
    line == seq![13u8, 10u8]
}

/// What has been learned from the header lines read so far.
pub ghost struct ScanView {
    /// Bytes of all lines read, terminators included.
    pub consumed: nat,
    /// The file name of the last `Content-Disposition` line, or empty.
    pub file_name: Seq<u8>,
    /// Whether the blank line has been read.
    pub finished: bool,
}

/// The state after reading one more header line, or why reading fails.
/// An empty line is the end of the stream.
pub open spec fn scan_step(st: ScanView, line: Seq<u8>) -> Result<ScanView, ErrorKind> {
    if line.len() == 0 {
        Err(ErrorKind::UnterminatedHeaders)
    } else if is_disposition(line) && disposition_value(line) is None {
        Err(ErrorKind::MissingQuote)
    } else {
        Ok(
            ScanView {
                consumed: st.consumed + line.len(),
                file_name: if is_disposition(line) {
                    disposition_value(line)->Some_0
                } else {
                    st.file_name
                },
                finished: is_blank_line(line),
            },
        )
    }
}

/// The position of the last occurrence of `p` in `s`, if any.
pub fn find_last(s: &[u8], p: &[u8]) -> (r: Option<usize>)
    ensures
        match r {
            Some(i) => i as int == last_occurrence(s@, p@) && occurs_at(s@, p@, i as int),
            None => last_occurrence(s@, p@) < 0,
        },
{
    if p.len() > s.len() {
        assert(last_occurrence(s@, p@) == -1);
        return None;
    }
    let n = s.len();
    let mut i: usize = n - p.len();
    loop
        invariant
            n == s@.len(),
            p@.len() <= s@.len(),
            i + p@.len() <= s@.len(),
            last_occurrence(s@, p@) == last_occurrence_upto(s@, p@, i as int),
        decreases i,
    {
        let mut k: usize = 0;
        let mut hit = true;
        while k < p.len()
            invariant
                n == s@.len(),
                i + p@.len() <= s@.len(),
                k <= p@.len(),
                hit == forall|m: int| 0 <= m < k ==> s@[i + m] == p@[m],
            decreases p@.len() - k,
        {
            if s[i + k] != p[k] {
                hit = false;
            }
            k = k + 1;
        }
        if hit {
            assert(s@.subrange(i as int, i + p@.len()) =~= p@);
            return Some(i);
        }
        assert(!occurs_at(s@, p@, i as int)) by {
            if occurs_at(s@, p@, i as int) {
                assert forall|m: int| 0 <= m < p@.len() implies s@[i + m] == p@[m] by {
                    assert(s@.subrange(i as int, i + p@.len())[m] == s@[i + m]);
                }
            }
        }
        if i == 0 {
            assert(last_occurrence_upto(s@, p@, -1) == -1);
            return None;
        }
        i = i - 1;
    }
}

/// Whether `line` starts with `Content-Disposition`.
pub fn starts_with_disposition(line: &[u8]) -> (r: bool)
    ensures
        r == is_disposition(line@),
{
    let p: Vec<u8> = vec![67u8, 111, 110, 116, 101, 110, 116, 45, 68, 105, 115, 112, 111, 115, 105, 116, 105, 111, 110];
    assert(p@ =~= disposition_prefix());
    if line.len() < p.len() {
        return false;
    }
    let mut k: usize = 0;
    while k < p.len()
        invariant
            p@ == disposition_prefix(),
            p@.len() <= line@.len(),
            k <= p@.len(),
            forall|m: int| 0 <= m < k ==> line@[m] == p@[m],
        decreases p@.len() - k,
    {
        if line[k] != p[k] {
            assert(line@.subrange(0, p@.len() as int)[k as int] != p@[k as int]);
            return false;
        }
        k = k + 1;
    }
    assert(line@.subrange(0, p@.len() as int) =~= p@);
    true
}

fn copy_range(s: &[u8], lo: usize, hi: usize) -> (r: Vec<u8>)
    requires
        lo <= hi <= s@.len(),
    ensures
        r@ == s@.subrange(lo as int, hi as int),
{
    let mut r: Vec<u8> = Vec::new();
    let mut i: usize = lo;
    while i < hi
        invariant
            lo <= i <= hi,
            hi <= s@.len(),
            r@ == s@.subrange(lo as int, i as int),
        decreases hi - i,
    {
        r.push(s[i]);
        i = i + 1;
        assert(r@ =~= s@.subrange(lo as int, i as int));
    }
    r
}

/// The file name on a `Content-Disposition` line (see `disposition_value`).
pub fn extract_file_name(line: &[u8]) -> (r: Result<Vec<u8>, ErrorKind>)
    requires
        is_disposition(line@),
    ensures
        match disposition_value(line@) {
            Some(v) => r is Ok && r->Ok_0@ == v,
            None => r == Err::<Vec<u8>, ErrorKind>(ErrorKind::MissingQuote),
        },
{
    let end = line.len() - 3;
    let s = vstd::slice::slice_subrange(line, 0, end);
    let quote: Vec<u8> = vec![34u8];
    assert(quote@ =~= seq![34u8]);
    match find_last(s, quote.as_slice()) {
        Some(q) => Ok(copy_range(s, q + 1, end)),
        None => Err(ErrorKind::MissingQuote),
    }
}

/// The multipart boundary token of a `Content-Type` header value.
pub fn boundary_of(content_type: &[u8]) -> (r: Vec<u8>)
    ensures
        r@ == boundary_spec(content_type@),
{
    let key: Vec<u8> = vec![98u8, 111, 117, 110, 100, 97, 114, 121, 61];
    assert(key@ =~= boundary_key());
    assert(key@.len() == 9);
    let n = content_type.len();
    match find_last(content_type, key.as_slice()) {
        Some(i) => copy_range(content_type, i + 9, n),
        None => {
            let r = copy_range(content_type, 0, content_type.len());
            assert(r@ =~= content_type@);
            r
        },
    }
}

/// Reads the header block of a multipart part one line at a time.
pub struct HeaderScanner {
    consumed: usize,
    file_name: Vec<u8>,
    finished: bool,
}

impl View for HeaderScanner {
    type V = ScanView;

    closed spec fn view(&self) -> ScanView {
        ScanView { consumed: self.consumed as nat, file_name: self.file_name@, finished: self.finished }
    }
}

impl HeaderScanner {
    /// A scanner that has read nothing.
    pub fn new() -> (r: HeaderScanner)
        ensures
            r@ == (ScanView { consumed: 0, file_name: Seq::empty(), finished: false }),
    {
        HeaderScanner { consumed: 0, file_name: Vec::new(), finished: false }
    }

    /// Takes the next line, terminator included; an empty line means the stream ended.
    /// On an error the scanner is left as it was.
    pub fn feed_line(&mut self, line: &[u8]) -> (r: Result<(), ErrorKind>)
        requires
            !old(self)@.finished,
            old(self)@.consumed + line@.len() <= usize::MAX,
        ensures
            match scan_step(old(self)@, line@) {
                Ok(v) => r is Ok && final(self)@ == v,
                Err(e) => r == Err::<(), ErrorKind>(e) && final(self)@ == old(self)@,
            },
    {
        if line.len() == 0 {
            return Err(ErrorKind::UnterminatedHeaders);
        }
        if starts_with_disposition(line) {
            match extract_file_name(line) {
                Ok(name) => {
                    self.file_name = name;
                },
                Err(e) => {
                    return Err(e);
                },
            }
        }
        self.consumed = self.consumed + line.len();
        self.finished = line.len() == 2 && line[0] == 13u8 && line[1] == 10u8;
        assert(self.finished == is_blank_line(line@)) by {
            if line@.len() == 2 && line@[0] == 13u8 && line@[1] == 10u8 {
                assert(line@ =~= seq![13u8, 10u8]);
            }
        }
        Ok(())
    }

    /// Whether the blank line that ends the headers has been read.
    pub fn is_finished(&self) -> (r: bool)
        ensures
            r == self@.finished,
    {
        self.finished
    }

    /// Bytes read so far, terminators included.
    pub fn consumed(&self) -> (r: usize)
        ensures
            r == self@.consumed,
    {
        self.consumed
    }

    /// The file name found so far, empty if none.
    pub fn file_name(&self) -> (r: Vec<u8>)
        ensures
            r@ == self@.file_name,
    {
        self.file_name.clone()
    }
}

} // verus!
