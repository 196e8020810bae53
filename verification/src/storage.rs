use vstd::prelude::*;

verus! {

/// A page of rows: the first `chunk_size` of them (all of them when there
/// are fewer), and whether more rows followed.
pub fn take_chunk<T>(rows: Vec<T>, chunk_size: u32) -> (page: (Vec<T>, bool))
    ensures
        page.1 == (rows@.len() > chunk_size),
        page.0@ == if page.1 { rows@.take(chunk_size as int) } else { rows@ },
{
    let mut rows = rows;
    let has_more = rows.len() as u64 > chunk_size as u64;
    if has_more {
        rows.truncate(chunk_size as usize);
    }
    (rows, has_more)
}

/// The sequence numbers of `count` events appended after the last stored
/// one (`None` when none is stored): they follow it, one by one, from 1 in a
/// new stream.
pub fn event_sequences(last: Option<i64>, count: usize) -> (seqs: Vec<i64>)
    requires
        count <= i64::MAX,
        last matches Some(s) ==> s + count <= i64::MAX,
    ensures
        seqs@.len() == count,
        forall|i: int| 0 <= i < count ==> #[trigger] seqs@[i] == match last {
            Some(s) => s + 1 + i,
            None => 1 + i,
        },
{
    let mut seqs: Vec<i64> = Vec::new();
    if count == 0 {
        return seqs;
    }
    let next: i64 = match last {
        Some(s) => s + 1,
        None => 1,
    };
    let mut i: usize = 0;
    while i < count
        invariant
            i <= count,
            count <= i64::MAX,
            seqs@.len() == i,
            next == match last {
                Some(s) => s + 1,
                None => 1,
            },
            next + count - 1 <= i64::MAX,
            forall|j: int| 0 <= j < i ==> #[trigger] seqs@[j] == next + j,
        decreases count - i,
    {
        let offset = i as i64;
        assert(offset == i);
        seqs.push(next + offset);
        i = i + 1;
    }
    seqs
}

/// The version number of the UUID whose 128 bits are `bits` (big-endian):
/// the high half of its seventh byte.
pub open spec fn uuid_version(bits: u128) -> u128 {
    (bits >> 76u128) & 0xfu128
}

/// The top 48 bits of a UUID: a version-7 UUID's Unix time in milliseconds.
pub open spec fn uuid_millis(bits: u128) -> u128 {
    bits >> 80u128
}

/// The Unix time (seconds, nanoseconds) that the UUID whose bits are `bits`
/// carries, as uuid's `get_timestamp` and `Timestamp::to_unix` read it.
pub uninterp spec fn uuid_unix_time(bits: u128) -> Option<(u64, u32)>;

/// The Unix time (seconds, nanoseconds) of the UUID whose 128 bits are
/// `bits`: `uuid::Uuid::from_u128(bits).get_timestamp()`, read with
/// `Timestamp::to_unix`. Its documentation and source give: a version-7 UUID
/// carries its top 48 bits as milliseconds, split into seconds and
/// nanoseconds; versions other than 1, 6 and 7 carry no time. For versions 1
/// and 6 the time is converted from the Gregorian clock; that conversion is
/// only named (`uuid_unix_time`), not spelled out.
#[verifier::external_body]
fn uuid_time(bits: u128) -> (r: Option<(u64, u32)>)
    ensures
        r == uuid_unix_time(bits),
        uuid_version(bits) == 7 ==> r == Some::<(u64, u32)>(
            ((uuid_millis(bits) / 1000) as u64, ((uuid_millis(bits) % 1000) * 1_000_000) as u32),
        ),
        uuid_version(bits) != 1 && uuid_version(bits) != 6 && uuid_version(bits) != 7 ==> r is None,
{
    match uuid::Uuid::from_u128(bits).get_timestamp() {
        Some(ts) => Some(ts.to_unix()),
        None => None,
    }
}

/// The creation time of the last game of a chunk of available games, for
/// asking for the next chunk: the Unix time (seconds, nanoseconds) that the
/// last identity (a time-ordered UUID) carries; `None` for an empty chunk or
/// an identity that carries no time.
pub fn last_created_at(ids: &[u128]) -> (r: Option<(u64, u32)>)
    ensures
        r == if ids@.len() == 0 { None } else { uuid_unix_time(ids@.last()) },
        ids@.len() > 0 && uuid_version(ids@.last()) == 7 ==> r == Some::<(u64, u32)>(
            ((uuid_millis(ids@.last()) / 1000) as u64, ((uuid_millis(ids@.last()) % 1000) * 1_000_000) as u32),
        ),
{
    if ids.len() == 0 {
        None
    } else {
        uuid_time(ids[ids.len() - 1])
    }
}

} // verus!
