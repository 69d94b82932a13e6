use vstd::prelude::*;

verus! {

/// A change to the store, as the write-ahead log records it.
#[derive(Debug, PartialEq, Eq)]
pub enum LogEntry {
    Put { key: String, value: String },
    Delete { key: String },
}

impl Clone for LogEntry {
    fn clone(&self) -> (e: Self)
        ensures
            e == *self,
    {
        match self {
            LogEntry::Put { key, value } => LogEntry::Put { key: key.clone(), value: value.clone() },
            LogEntry::Delete { key } => LogEntry::Delete { key: key.clone() },
        }
    }
}

/// Why the bytes of a write-ahead log cannot be read back.
#[derive(Debug, Clone, Copy, PartialEq, Eq, Structural)]
pub enum WalError {
    /// A record's length prefix promises more bytes than the log holds.
    TruncatedRecord,
}

/// The four big-endian bytes of `n`.
pub open spec fn be_bytes(n: u32) -> Seq<u8> {
    seq![
        (n / 16777216) as u8,
        ((n / 65536) % 256) as u8,
        ((n / 256) % 256) as u8,
        (n % 256) as u8,
    ]
}

/// The number that four big-endian bytes stand for.
pub open spec fn be_value(b: Seq<u8>) -> nat {
    (b[0] * 16777216 + b[1] * 65536 + b[2] * 256 + b[3]) as nat
}

/// One record as the log stores it: the record's length in four big-endian bytes,
/// then the record.
pub open spec fn framed(data: Seq<u8>) -> Seq<u8> {
    be_bytes(data.len() as u32) + data
}

/// The records that the bytes of a log hold: a record's length prefix, then that
/// many bytes, again and again. Fewer than four bytes at the end are ignored; a length
/// that runs past the end leaves the log unreadable.
pub open spec fn records(b: Seq<u8>) -> Option<Seq<Seq<u8>>>
    decreases b.len(),
{
    if b.len() < 4 {
        Some(Seq::empty())
    } else {
        let n = be_value(b.subrange(0, 4));
        if b.len() - 4 < n {
            None
        } else {
            match records(b.subrange(4 + n as int, b.len() as int)) {
                Some(rest) => Some(seq![b.subrange(4, 4 + n as int)] + rest),
                None => None,
            }
        }
    }
}

/// `found` put in front of the records `rest`, unless `rest` failed.
pub open spec fn prepend(found: Seq<Seq<u8>>, rest: Option<Seq<Seq<u8>>>) -> Option<Seq<Seq<u8>>> {
    match rest {
        Some(r) => Some(found + r),
        None => None,
    }
}

/// The record `data` with its length prefix, ready to be written to the log.
pub fn encode_frame(data: &[u8]) -> (out: Vec<u8>)
    ensures
        out@ == framed(data@),
{
    let len: u32 = data.len() as u32;
    let mut out: Vec<u8> = Vec::new();
    out.push((len / 16777216) as u8);
    out.push(((len / 65536) % 256) as u8);
    out.push(((len / 256) % 256) as u8);
    out.push((len % 256) as u8);
    let mut i: usize = 0;
    while i < data.len()
        invariant
            i <= data@.len(),
            out@ == be_bytes(len) + data@.subrange(0, i as int),
            len == data@.len() as u32,
        decreases data@.len() - i,
    {
        out.push(data[i]);
        i = i + 1;
        assert(out@ =~= be_bytes(len) + data@.subrange(0, i as int));
    }
    assert(data@.subrange(0, data@.len() as int) =~= data@);
    out
}

fn copy_bytes(b: &[u8], start: usize, end: usize) -> (r: Vec<u8>)
    requires
        start <= end <= b@.len(),
    ensures
        r@ == b@.subrange(start as int, end as int),
{
    let mut r: Vec<u8> = Vec::new();
    let mut i: usize = start;
    while i < end
        invariant
            start <= i <= end <= b@.len(),
            r@ == b@.subrange(start as int, i as int),
        decreases end - i,
    {
        r.push(b[i]);
        i = i + 1;
        assert(r@ =~= b@.subrange(start as int, i as int));
    }
    r
}

/// The records of a log's bytes, in order; an error when a record is cut short.
pub fn decode_frames(bytes: &[u8]) -> (r: Result<Vec<Vec<u8>>, WalError>)
    ensures
        match records(bytes@) {
            Some(recs) => r matches Ok(v) && v@.map_values(|x: Vec<u8>| x@) == recs,
            None => r == Err::<Vec<Vec<u8>>, WalError>(WalError::TruncatedRecord),
        },
{
    let mut out: Vec<Vec<u8>> = Vec::new();
    let mut pos: usize = 0;
    proof {
        assert(bytes@.subrange(0, bytes@.len() as int) =~= bytes@);
        assert(out@.map_values(|x: Vec<u8>| x@) =~= Seq::<Seq<u8>>::empty());
        match records(bytes@) {
            Some(rr) => {
                assert(Seq::<Seq<u8>>::empty() + rr =~= rr);
            },
            None => {},
        }
    }
    while bytes.len() - pos >= 4
        invariant
            pos <= bytes@.len(),
            records(bytes@) == prepend(
                out@.map_values(|x: Vec<u8>| x@),
                records(bytes@.subrange(pos as int, bytes@.len() as int)),
            ),
        decreases bytes@.len() - pos,
    {
        let ghost rest = bytes@.subrange(pos as int, bytes@.len() as int);
        let n: u64 = (bytes[pos] as u64) * 16777216 + (bytes[pos + 1] as u64) * 65536 + (bytes[pos
            + 2] as u64) * 256 + (bytes[pos + 3] as u64);
        assert(n == be_value(rest.subrange(0, 4)));
        if ((bytes.len() - pos - 4) as u64) < n {
            return Err(WalError::TruncatedRecord);
        }
        let start = pos + 4;
        let end = start + n as usize;
        let record = copy_bytes(bytes, start, end);
        let ghost before = out@.map_values(|x: Vec<u8>| x@);
        out.push(record);
        assert(rest.subrange(4, 4 + n as int) =~= bytes@.subrange(start as int, end as int));
        assert(rest.subrange(4 + n as int, rest.len() as int) =~= bytes@.subrange(
            end as int,
            bytes@.len() as int,
        ));
        assert(out@.map_values(|x: Vec<u8>| x@) =~= before.push(
            bytes@.subrange(start as int, end as int),
        ));
        proof {
            match records(bytes@.subrange(end as int, bytes@.len() as int)) {
                Some(rr) => {
                    assert(before + (seq![bytes@.subrange(start as int, end as int)] + rr) =~= before.push(
                        bytes@.subrange(start as int, end as int),
                    ) + rr);
                },
                None => {},
            }
        }
        pos = end;
    }
    let ghost left = bytes@.subrange(pos as int, bytes@.len() as int);
    assert(records(left) == Some(Seq::<Seq<u8>>::empty()));
    assert(out@.map_values(|x: Vec<u8>| x@) + Seq::<Seq<u8>>::empty() =~= out@.map_values(
        |x: Vec<u8>| x@,
    ));
    Ok(out)
}

} // verus!
