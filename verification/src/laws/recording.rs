//! The recording that a list of chunks makes up.
use vstd::prelude::*;

use crate::config::ConfigView;
use crate::effect::ListedChunkView;
use crate::finalize::chunk_paths;
use crate::world::{
    chunk_is_placed, lists_in_order, recording, recording_below, sound, stored,
    World,
};

verus! {

/// The bytes of the first `k` of some files, one file after the other.
pub open spec fn contents(
    files: Map<Seq<char>, Seq<u8>>,
    paths: Seq<Seq<char>>,
    k: nat,
) -> Seq<u8>
    decreases k,
{
    if k == 0 {
        seq![]
    } else {
        contents(files, paths, (k - 1) as nat) + files[paths[k - 1]]
    }
}

proof fn lemma_gap(w: World, id: Seq<char>, from: nat, to: nat)
    requires
        from <= to <= 0x1_0000_0000,
        forall|idx: u32| from <= idx < to ==> #[trigger] stored(w, id, idx) is None,
    ensures
        recording_below(w, id, to) == recording_below(w, id, from),
    decreases to - from,
{
    if from < to {
        lemma_gap(w, id, from, (to - 1) as nat);
        assert(stored(w, id, (to - 1) as u32) is None);
    }
}

/// Two worlds that store the same chunks of a session hold the same recording of it.
pub proof fn lemma_recording_depends_on_stored(w: World, other: World, id: Seq<char>, n: nat)
    requires
        n <= 0x1_0000_0000,
        forall|idx: u32| idx < n ==> #[trigger] stored(w, id, idx) == stored(other, id, idx),
    ensures
        recording_below(w, id, n) == recording_below(other, id, n),
    decreases n,
{
    if n > 0 {
        lemma_recording_depends_on_stored(w, other, id, (n - 1) as nat);
        assert(stored(w, id, (n - 1) as u32) == stored(other, id, (n - 1) as u32));
    }
}

spec fn listed_below(list: Seq<ListedChunkView>, k: int) -> int {
    if k == 0 {
        0
    } else {
        list[k - 1].idx + 1
    }
}

proof fn lemma_listed_prefix(
    config: ConfigView,
    w: World,
    id: Seq<char>,
    list: Seq<ListedChunkView>,
    k: nat,
)
    requires
        sound(config, w),
        lists_in_order(w, id, list),
        forall|i: int|
            0 <= i < list.len() ==> w.files.contains_key((#[trigger] list[i]).file_path),
        k <= list.len(),
    ensures
        0 <= listed_below(list, k as int) <= 0x1_0000_0000,
        contents(w.files, chunk_paths(list), k) == recording_below(
            w,
            id,
            listed_below(list, k as int) as nat,
        ),
    decreases k,
{
    if k > 0 {
        let before = (k - 1) as nat;
        let from = listed_below(list, before as int);
        let chunk = list[before as int];
        let key = (id, chunk.idx);
        lemma_listed_prefix(config, w, id, list, before);
        assert(w.chunks.contains_key(key));
        assert(chunk_is_placed(config, w, key));
        if before > 0 {
            assert(list[before - 1].idx < list[before as int].idx);
        }
        assert(from <= chunk.idx);
        assert forall|idx: u32| from <= idx < chunk.idx implies #[trigger] stored(
            w,
            id,
            idx,
        ) is None by {
            if w.chunks.contains_key((id, idx as i64)) {
                let i = choose|i: int|
                    0 <= i < list.len() && (#[trigger] list[i]).idx == idx as i64;
                if i < before - 1 {
                    assert(list[i].idx < list[before - 1].idx);
                } else if i > before {
                    assert(list[before as int].idx < list[i].idx);
                }
            }
        }
        lemma_gap(w, id, from as nat, chunk.idx as nat);
        assert(stored(w, id, chunk.idx as u32) == Some(w.files[chunk.file_path]));
        assert(chunk_paths(list)[k - 1] == chunk.file_path);
    }
}

/// The files of a session's chunks, in the order in which the database lists them, hold the
/// session's recording.
pub proof fn lemma_listed_files_hold_recording(
    config: ConfigView,
    w: World,
    id: Seq<char>,
    list: Seq<ListedChunkView>,
)
    requires
        sound(config, w),
        lists_in_order(w, id, list),
        forall|i: int|
            0 <= i < list.len() ==> w.files.contains_key((#[trigger] list[i]).file_path),
    ensures
        contents(w.files, chunk_paths(list), list.len()) == recording(w, id),
{
    let n = list.len();
    let from = listed_below(list, n as int);
    lemma_listed_prefix(config, w, id, list, n);
    assert forall|idx: u32| from <= idx < 0x1_0000_0000 implies #[trigger] stored(
        w,
        id,
        idx,
    ) is None by {
        if w.chunks.contains_key((id, idx as i64)) {
            let i = choose|i: int| 0 <= i < list.len() && (#[trigger] list[i]).idx == idx as i64;
            if i < n - 1 {
                assert(list[i].idx < list[n - 1].idx);
            }
        }
    }
    lemma_gap(w, id, from as nat, 0x1_0000_0000);
}

/// The parts with an index below `n`, one after the other by ascending index.
pub open spec fn in_order_below(parts: Map<u32, Seq<u8>>, n: nat) -> Seq<u8>
    decreases n,
{
    if n == 0 {
        seq![]
    } else {
        let before = in_order_below(parts, (n - 1) as nat);
        let idx = (n - 1) as u32;
        if parts.contains_key(idx) {
            before + parts[idx]
        } else {
            before
        }
    }
}

/// The parts one after the other by ascending index.
pub open spec fn in_order(parts: Map<u32, Seq<u8>>) -> Seq<u8> {
    in_order_below(parts, 0x1_0000_0000)
}

/// Whether a session stores exactly the parts, each under its index.
pub open spec fn stores_exactly(w: World, id: Seq<char>, parts: Map<u32, Seq<u8>>) -> bool {
    forall|idx: u32| #[trigger]
        stored(w, id, idx) == (if parts.contains_key(idx) {
            Some(parts[idx])
        } else {
            None
        })
}

proof fn lemma_recording_of_parts_below(
    w: World,
    id: Seq<char>,
    parts: Map<u32, Seq<u8>>,
    n: nat,
)
    requires
        n <= 0x1_0000_0000,
        stores_exactly(w, id, parts),
    ensures
        recording_below(w, id, n) == in_order_below(parts, n),
    decreases n,
{
    if n > 0 {
        lemma_recording_of_parts_below(w, id, parts, (n - 1) as nat);
        assert(stored(w, id, (n - 1) as u32) == (if parts.contains_key((n - 1) as u32) {
            Some(parts[(n - 1) as u32])
        } else {
            None
        }));
    }
}

/// A session that stores exactly some parts has as its recording the parts one after the other by
/// ascending index, whichever the indices are.
pub proof fn law_recording_of_parts(w: World, id: Seq<char>, parts: Map<u32, Seq<u8>>)
    requires
        stores_exactly(w, id, parts),
    ensures
        recording(w, id) == in_order(parts),
{
    lemma_recording_of_parts_below(w, id, parts, 0x1_0000_0000);
}

proof fn lemma_recording_of_first_parts(
    w: World,
    id: Seq<char>,
    parts: Seq<Seq<u8>>,
    k: nat,
)
    requires
        k <= parts.len() <= 0x1_0000_0000,
        forall|idx: u32|
            idx < parts.len() ==> #[trigger] stored(w, id, idx) == Some(parts[idx as int]),
    ensures
        recording_below(w, id, k) == parts.take(k as int).flatten_alt(),
    decreases k,
{
    if k > 0 {
        lemma_recording_of_first_parts(w, id, parts, (k - 1) as nat);
        assert(stored(w, id, (k - 1) as u32) == Some(parts[k - 1]));
        assert(parts.take(k as int).drop_last() =~= parts.take(k - 1));
        assert(parts.take(k as int).last() == parts[k - 1]);
    }
}

/// A session that stores exactly some parts, from the index zero on, has as its recording the
/// parts one after the other.
pub proof fn law_recording_without_gaps(w: World, id: Seq<char>, parts: Seq<Seq<u8>>)
    requires
        parts.len() <= 0x1_0000_0000,
        forall|idx: u32|
            #[trigger] stored(w, id, idx) == if idx < parts.len() {
                Some(parts[idx as int])
            } else {
                None
            },
    ensures
        recording(w, id) == parts.flatten(),
{
    lemma_recording_of_first_parts(w, id, parts, parts.len());
    lemma_gap(w, id, parts.len(), 0x1_0000_0000);
    assert(parts.take(parts.len() as int) =~= parts);
    parts.lemma_flatten_and_flatten_alt_are_equivalent();
}

} // verus!
