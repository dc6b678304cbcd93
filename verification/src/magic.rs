use vstd::prelude::*;

verus! {

/// `magic` occurs in `data` starting at index `i`.
pub open spec fn occurs_at(data: Seq<u8>, magic: Seq<u8>, i: int) -> bool {
    &&& 0 <= i
    &&& i + magic.len() <= data.len()
    &&& data.subrange(i, i + magic.len()) == magic
}

/// `magic` occurs in `data` at `i` and nowhere else.
pub open spec fn occurs_only_at(data: Seq<u8>, magic: Seq<u8>, i: int) -> bool {
    &&& occurs_at(data, magic, i)
    &&& forall|j: int| occurs_at(data, magic, j) ==> j == i
}

pub open spec fn occurs_somewhere(data: Seq<u8>, magic: Seq<u8>) -> bool {
    exists|i: int| occurs_at(data, magic, i)
}

pub open spec fn occurs_twice(data: Seq<u8>, magic: Seq<u8>) -> bool {
    exists|i: int, j: int| i != j && occurs_at(data, magic, i) && occurs_at(data, magic, j)
}

/// Compares the window of `data` that starts at `start` with `magic`.
fn window_matches(data: &[u8], magic: &[u8], start: usize) -> (res: bool)
    requires
        start + magic@.len() <= data@.len(),
    ensures
        res == occurs_at(data@, magic@, start as int),
{
    let data_len: usize = data.len();
    let mut k: usize = 0;
    while k < magic.len()
        invariant
            k <= magic@.len(),
            start + magic@.len() <= data@.len(),
            data@.len() == data_len,
            forall|t: int| 0 <= t < k ==> data@[start + t] == magic@[t],
        decreases magic@.len() - k,
    {
        if data[start + k] != magic[k] {
            assert(data@.subrange(start as int, start + magic@.len())[k as int] != magic@[k as int]);
            return false;
        }
        k = k + 1;
    }
    assert(data@.subrange(start as int, start + magic@.len()) =~= magic@);
    true
}

/// The error text of a search that finds no occurrence.
pub const MAGIC_NOT_FOUND: &'static str = "didn't find magic in symbol";

/// The error text of a search that finds two or more occurrences.
pub const MAGIC_FOUND_MULTIPLE: &'static str = "magic found multiple times";

/// The error text of the search for `magic` in `data`, when it fails.
pub open spec fn magic_error_text(data: Seq<u8>, magic: Seq<u8>) -> Seq<char> {
    if !occurs_somewhere(data, magic) {
        MAGIC_NOT_FOUND@
    } else {
        MAGIC_FOUND_MULTIPLE@
    }
}

/// Finds the single position of `magic` in `data`.
///
/// Fails with `MAGIC_NOT_FOUND` when `magic` does not occur and with
/// `MAGIC_FOUND_MULTIPLE` when it occurs at two or more positions.
pub fn find_magic_offset_exactly_once(data: &[u8], magic: &[u8]) -> (res: Result<usize, String>)
    requires
        magic@.len() > 0,
    ensures
        res matches Ok(i) ==> occurs_only_at(data@, magic@, i as int),
        res is Err <==> (!occurs_somewhere(data@, magic@) || occurs_twice(data@, magic@)),
        res matches Err(e) ==> e@ == magic_error_text(data@, magic@),
{
    if data.len() < magic.len() {
        assert forall|i: int| !occurs_at(data@, magic@, i) by {}
        return Err(MAGIC_NOT_FOUND.to_owned());
    }
    let last: usize = data.len() - magic.len();
    let mut first: Option<usize> = None;
    let mut i: usize = 0;
    while i <= last
        invariant
            last == data@.len() - magic@.len(),
            data@.len() <= usize::MAX,
            magic@.len() > 0,
            i <= last + 1,
            first matches Some(f) ==> f < i && occurs_at(data@, magic@, f as int),
            forall|j: int| 0 <= j < i && occurs_at(data@, magic@, j) ==> first == Some(j as usize),
        decreases last + 1 - i,
    {
        if window_matches(data, magic, i) {
            match first {
                Some(f) => {
                    assert(occurs_at(data@, magic@, f as int) && occurs_at(data@, magic@, i as int));
                    return Err(MAGIC_FOUND_MULTIPLE.to_owned());
                },
                None => {
                    first = Some(i);
                },
            }
        }
        i = i + 1;
    }
    match first {
        Some(f) => {
            assert forall|j: int| occurs_at(data@, magic@, j) implies j == f by {}
            Ok(f)
        },
        None => {
            assert forall|j: int| !occurs_at(data@, magic@, j) by {}
            Err(MAGIC_NOT_FOUND.to_owned())
        },
    }
}

/// `pattern` occurs somewhere in `data`.
pub fn contains_bytes(data: &[u8], pattern: &[u8]) -> (res: bool)
    ensures
        res == occurs_somewhere(data@, pattern@),
{
    if data.len() < pattern.len() {
        assert forall|i: int| !occurs_at(data@, pattern@, i) by {}
        return false;
    }
    let last: usize = data.len() - pattern.len();
    let mut i: usize = 0;
    while i <= last
        invariant
            last == data@.len() - pattern@.len(),
            data@.len() <= usize::MAX,
            i <= last + 1,
            forall|j: int| 0 <= j < i ==> !occurs_at(data@, pattern@, j),
        decreases last + 1 - i,
    {
        if window_matches(data, pattern, i) {
            return true;
        }
        if i == last {
            assert forall|j: int| !occurs_at(data@, pattern@, j) by {}
            return false;
        }
        i = i + 1;
    }
    assert forall|j: int| !occurs_at(data@, pattern@, j) by {}
    false
}

} // verus!
