//! The layout of the two headers of an RPM package, as far as it has to be
//! known before the bytes are handed to the parser: the parser takes the
//! place of each entry's data from the entry itself, sizes its buffers by
//! the counts that the headers give, and adds the lengths of lead and
//! headers up in 32 bits.

use vstd::prelude::*;

verus! {

/// The length of the lead that stands before the signature header.
pub const LEAD_LEN: usize = 96;

/// The number that four bytes at `at` denote, most significant byte first.
pub open spec fn be32(data: Seq<u8>, at: int) -> int {
    data[at] as int * 0x100_0000 + data[at + 1] as int * 0x1_0000 + data[at + 2] as int * 0x100
        + data[at + 3] as int
}

/// The place of the `k`-th entry of an index that starts at `index_at`.
pub open spec fn entry_at(index_at: int, k: int) -> int {
    index_at + 16 * k
}

/// The data of the entry at `at` lies within a store of `store` bytes: its
/// offset is no negative number and not beyond the store, and its count is
/// not more than the bytes that follow the offset.
pub open spec fn entry_within(data: Seq<u8>, at: int, store: int) -> bool {
    be32(data, at + 8) < 0x8000_0000 && be32(data, at + 8) <= store && be32(data, at + 12) <= store
        - be32(data, at + 8)
}

/// The number of entries of the header at `at`.
pub open spec fn entry_count(data: Seq<u8>, at: int) -> int {
    be32(data, at + 8)
}

/// The length of the store of the header at `at`.
pub open spec fn store_len(data: Seq<u8>, at: int) -> int {
    be32(data, at + 12)
}

/// Where the header at `at` ends: after its sixteen bytes, its index and
/// its store.
pub open spec fn header_end(data: Seq<u8>, at: int) -> int {
    at + 16 + 16 * entry_count(data, at) + store_len(data, at)
}

/// The header at `at` is sound: it lies within the bytes with its index
/// and its store, the two together are no longer than 32 bits can tell,
/// and the data of every entry lies within the store.
pub open spec fn header_sound(data: Seq<u8>, at: int) -> bool {
    &&& 0 <= at
    &&& at + 16 <= data.len()
    &&& 16 * entry_count(data, at) + store_len(data, at) <= u32::MAX
    &&& header_end(data, at) <= data.len()
    &&& forall|k: int|
        0 <= k < entry_count(data, at) ==> entry_within(
            data,
            #[trigger] entry_at(at + 16, k),
            store_len(data, at),
        )
}

/// The bytes that fill the signature header up to a multiple of eight.
pub open spec fn padding(store: int) -> int {
    (8 - store % 8) % 8
}

/// Where the main header starts: after the signature header and its
/// padding.
pub open spec fn main_header_at(data: Seq<u8>) -> int {
    header_end(data, LEAD_LEN as int) + padding(store_len(data, LEAD_LEN as int))
}

/// Both headers of the package are sound, and the place where the main
/// header ends, counted from the start of the package, is no more than 32
/// bits can tell.
pub open spec fn headers_sound(data: Seq<u8>) -> bool {
    &&& header_sound(data, LEAD_LEN as int)
    &&& header_sound(data, main_header_at(data))
    &&& header_end(data, main_header_at(data)) <= u32::MAX
}

/// The numbers that four bytes denote are not negative.
pub proof fn lemma_be32_range(data: Seq<u8>, at: int)
    ensures
        0 <= be32(data, at) <= u32::MAX,
{
}

/// In a package with sound headers the main header stands behind the
/// lead, ends where it starts or later, and ends within the bytes.
pub proof fn lemma_headers_in_order(data: Seq<u8>)
    requires
        headers_sound(data),
    ensures
        LEAD_LEN <= main_header_at(data) <= header_end(data, main_header_at(data)) <= data.len(),
        header_end(data, main_header_at(data)) <= u32::MAX,
{
    lemma_be32_range(data, LEAD_LEN + 8);
    lemma_be32_range(data, LEAD_LEN + 12);
    lemma_be32_range(data, main_header_at(data) + 8);
    lemma_be32_range(data, main_header_at(data) + 12);
}

fn read_be32(data: &[u8], at: usize) -> (r: u64)
    requires
        at + 4 <= data@.len(),
    ensures
        r == be32(data@, at as int),
        r <= u32::MAX,
{
    let a: u64 = data[at] as u64;
    let b: u64 = data[at + 1] as u64;
    let c: u64 = data[at + 2] as u64;
    let d: u64 = data[at + 3] as u64;
    a * 0x100_0000 + b * 0x1_0000 + c * 0x100 + d
}

/// Checks the header at `at`; hands out where it ends and the length of
/// its store where it is sound.
fn check_header(data: &[u8], at: usize) -> (r: Option<(usize, u64)>)
    ensures
        match r {
            Some((end, store)) => header_sound(data@, at as int) && end == header_end(
                data@,
                at as int,
            ) && store == store_len(data@, at as int),
            None => !header_sound(data@, at as int),
        },
{
    let len = data.len();
    if at > len || len - at < 16 {
        return None;
    }
    let entries = read_be32(data, at + 8);
    let store = read_be32(data, at + 12);
    let rest: u64 = 16 * entries + store;
    if rest > u32::MAX as u64 || rest > (len - at - 16) as u64 {
        return None;
    }
    let index_at: usize = at + 16;
    let mut k: u64 = 0;
    while k < entries
        invariant
            k <= entries,
            index_at == at + 16,
            entries == entry_count(data@, at as int),
            store == store_len(data@, at as int),
            index_at <= data@.len(),
            data@.len() <= usize::MAX,
            16 * entries + store <= data@.len() - index_at,
            forall|j: int|
                0 <= j < k ==> entry_within(data@, #[trigger] entry_at(index_at as int, j), store as int),
        decreases entries - k,
    {
        let entry: usize = index_at + 16 * (k as usize);
        assert(entry == entry_at(index_at as int, k as int));
        let offset = read_be32(data, entry + 8);
        let items = read_be32(data, entry + 12);
        if offset >= 0x8000_0000 || offset > store || items > store - offset {
            assert(!entry_within(data@, entry_at(index_at as int, k as int), store as int));
            return None;
        }
        k = k + 1;
    }
    Some((at + 16 + rest as usize, store))
}

/// Whether both headers of the package are sound.
pub fn headers_are_sound(data: &[u8]) -> (r: bool)
    ensures
        r == headers_sound(data@),
{
    match check_header(data, LEAD_LEN) {
        Some((end, store)) => {
            let fill: u64 = (8 - store % 8) % 8;
            if fill > (data.len() - end) as u64 {
                return false;
            }
            match check_header(data, end + fill as usize) {
                Some((last, _)) => last <= 0xffff_ffff,
                None => false,
            }
        },
        None => false,
    }
}

} // verus!
