//! The requests that a peer has not answered yet.

use crate::chunk::{ChunkInfo, ValidPieceIndex};
use crate::time::{Duration, Instant};
use vstd::prelude::*;

verus! {

/// The chunks requested of a peer, each with the time at which it was requested.
#[derive(Debug)]
pub struct InflightRequests {
    entries: Vec<(ChunkInfo, Instant)>,
}

/// Whether `chunk` stands in `entries`.
spec fn listed(entries: Seq<(ChunkInfo, Instant)>, chunk: ChunkInfo) -> bool {
    exists|i: int| 0 <= i < entries.len() && #[trigger] entries[i].0 == chunk
}

/// A place at which `chunk` stands in `entries`.
spec fn place(entries: Seq<(ChunkInfo, Instant)>, chunk: ChunkInfo) -> int {
    choose|i: int| 0 <= i < entries.len() && #[trigger] entries[i].0 == chunk
}

/// What `entries` says of each chunk.
spec fn as_map(entries: Seq<(ChunkInfo, Instant)>) -> Map<ChunkInfo, Instant> {
    Map::new(
        |chunk: ChunkInfo| listed(entries, chunk),
        |chunk: ChunkInfo| entries[place(entries, chunk)].1,
    )
}

/// No chunk stands in `entries` twice.
spec fn distinct(entries: Seq<(ChunkInfo, Instant)>) -> bool {
    forall|i: int, j: int|
        0 <= i < j < entries.len() ==> #[trigger] entries[i].0 != #[trigger] entries[j].0
}

/// What stands at a place is what the map says.
proof fn lemma_lookup(entries: Seq<(ChunkInfo, Instant)>, i: int)
    requires
        distinct(entries),
        0 <= i < entries.len(),
    ensures
        as_map(entries).contains_key(entries[i].0),
        as_map(entries)[entries[i].0] == entries[i].1,
{
    let k = place(entries, entries[i].0);
    assert(0 <= k < entries.len() && entries[k].0 == entries[i].0);
    assert(k == i);
}

/// A map that says what `entries` says, and nothing else, is its map.
proof fn lemma_same_map(entries: Seq<(ChunkInfo, Instant)>, map: Map<ChunkInfo, Instant>)
    requires
        distinct(entries),
        forall|i: int|
            0 <= i < entries.len() ==> map.contains_key((#[trigger] entries[i]).0)
                && map[entries[i].0] == entries[i].1,
        forall|chunk: ChunkInfo| #[trigger] map.contains_key(chunk) ==> listed(entries, chunk),
    ensures
        as_map(entries) == map,
{
    assert forall|chunk: ChunkInfo| as_map(entries).contains_key(chunk) implies
        #[trigger] map.contains_key(chunk) && as_map(entries)[chunk] == map[chunk] by {
        let i = place(entries, chunk);
        assert(entries[i].0 == chunk);
        lemma_lookup(entries, i);
    }
    assert(as_map(entries) =~= map);
}

/// The map has as many keys as there are entries.
proof fn lemma_map_len(entries: Seq<(ChunkInfo, Instant)>)
    requires
        distinct(entries),
    ensures
        as_map(entries).dom().finite(),
        as_map(entries).len() == entries.len(),
    decreases entries.len(),
{
    if entries.len() == 0 {
        assert(as_map(entries).dom() =~= Set::empty());
    } else {
        let rest = entries.drop_last();
        let last = entries.last();
        lemma_map_len(rest);
        assert forall|chunk: ChunkInfo| listed(entries, chunk) == (listed(rest, chunk) || chunk
            == last.0) by {
            if listed(entries, chunk) {
                let i = place(entries, chunk);
                assert(entries[i].0 == chunk);
                if i < rest.len() {
                    assert(rest[i].0 == chunk);
                }
            }
            if listed(rest, chunk) {
                let i = place(rest, chunk);
                assert(rest[i].0 == chunk);
                assert(entries[i].0 == chunk);
            }
            assert(entries[entries.len() - 1].0 == last.0);
        }
        assert(as_map(entries).dom() =~= as_map(rest).dom().insert(last.0));
    }
}

/// Some entry of `chunk` is `wanted`.
spec fn wants(
    entries: Seq<(ChunkInfo, Instant)>,
    wanted: spec_fn(ChunkInfo, Instant) -> bool,
    chunk: ChunkInfo,
) -> bool {
    exists|i: int|
        0 <= i < entries.len() && (#[trigger] entries[i]).0 == chunk && wanted(chunk, entries[i].1)
}

/// `list` names, once each, the chunks of those entries that are `wanted`.
spec fn picked(
    entries: Seq<(ChunkInfo, Instant)>,
    wanted: spec_fn(ChunkInfo, Instant) -> bool,
    list: Seq<ChunkInfo>,
) -> bool {
    &&& list.no_duplicates()
    &&& forall|chunk: ChunkInfo| #[trigger] list.contains(chunk) <==> wants(entries, wanted, chunk)
}

/// The list for one entry more.
proof fn lemma_pick_next(
    entries: Seq<(ChunkInfo, Instant)>,
    wanted: spec_fn(ChunkInfo, Instant) -> bool,
    n: int,
    list: Seq<ChunkInfo>,
)
    requires
        distinct(entries),
        0 <= n < entries.len(),
        picked(entries.take(n), wanted, list),
    ensures
        wanted(entries[n].0, entries[n].1) ==> picked(
            entries.take(n + 1),
            wanted,
            list.push(entries[n].0),
        ),
        !wanted(entries[n].0, entries[n].1) ==> picked(entries.take(n + 1), wanted, list),
{
    let before = entries.take(n);
    let after = entries.take(n + 1);
    let next = entries[n].0;
    assert(after[n] == entries[n]);
    assert forall|chunk: ChunkInfo| #[trigger] wants(after, wanted, chunk) <==> wants(
        before,
        wanted,
        chunk,
    ) || (chunk == next && wanted(next, entries[n].1)) by {
        if wants(before, wanted, chunk) {
            let i = choose|i: int|
                0 <= i < before.len() && (#[trigger] before[i]).0 == chunk && wanted(
                    chunk,
                    before[i].1,
                );
            assert(after[i] == before[i]);
        }
        if wants(after, wanted, chunk) {
            let i = choose|i: int|
                0 <= i < after.len() && (#[trigger] after[i]).0 == chunk && wanted(
                    chunk,
                    after[i].1,
                );
            if i < n {
                assert(before[i] == after[i]);
            }
        }
    }
    if list.contains(next) {
        assert(wants(before, wanted, next));
        let i = choose|i: int|
            0 <= i < before.len() && (#[trigger] before[i]).0 == next && wanted(next, before[i].1);
        assert(entries[i] == before[i]);
    }
    let grown = list.push(next);
    assert forall|chunk: ChunkInfo| #[trigger] grown.contains(chunk) <==> list.contains(chunk)
        || chunk == next by {
        if list.contains(chunk) {
            let k = list.index_of(chunk);
            assert(grown[k] == chunk);
        }
        assert(grown[list.len() as int] == next);
    }
}

/// The list for all entries names the chunks of which the map says what is `wanted`.
proof fn lemma_picked_all(
    entries: Seq<(ChunkInfo, Instant)>,
    wanted: spec_fn(ChunkInfo, Instant) -> bool,
    list: Seq<ChunkInfo>,
    set: Set<ChunkInfo>,
)
    requires
        distinct(entries),
        picked(entries, wanted, list),
        set =~= as_map(entries).dom().filter(|c: ChunkInfo| wanted(c, as_map(entries)[c])),
    ensures
        lists(list, set),
{
    assert forall|chunk: ChunkInfo| set.contains(chunk) <==> #[trigger] list.contains(chunk) by {
        if set.contains(chunk) {
            let i = place(entries, chunk);
            assert(entries[i].0 == chunk);
            lemma_lookup(entries, i);
            assert(wants(entries, wanted, chunk));
        }
        if list.contains(chunk) {
            assert(wants(entries, wanted, chunk));
            let i = choose|i: int|
                0 <= i < entries.len() && (#[trigger] entries[i]).0 == chunk && wanted(
                    chunk,
                    entries[i].1,
                );
            lemma_lookup(entries, i);
        }
    }
    assert(list.to_set() =~= set);
    list.unique_seq_to_set();
}

/// The requests for chunks of `piece`.
pub open spec fn of_piece(
    requests: Map<ChunkInfo, Instant>,
    piece: ValidPieceIndex,
) -> Set<ChunkInfo> {
    requests.dom().filter(|chunk: ChunkInfo| chunk.piece_index == piece)
}

/// The requests that at `now` have been outstanding for longer than `timeout`.
pub open spec fn outstanding_longer(
    requests: Map<ChunkInfo, Instant>,
    now: Instant,
    timeout: Duration,
) -> Set<ChunkInfo> {
    requests.dom().filter(|chunk: ChunkInfo| now.since(requests[chunk]) > timeout.len())
}

/// `list` names each member of `set` once, in some order, and nothing else.
pub open spec fn lists(list: Seq<ChunkInfo>, set: Set<ChunkInfo>) -> bool {
    &&& list.no_duplicates()
    &&& list.to_set() == set
    &&& set.finite()
    &&& set.len() == list.len()
}

impl View for InflightRequests {
    type V = Map<ChunkInfo, Instant>;

    closed spec fn view(&self) -> Map<ChunkInfo, Instant> {
        as_map(self.entries@)
    }
}

impl InflightRequests {
    #[verifier::type_invariant]
    spec fn keys_distinct(self) -> bool {
        distinct(self.entries@)
    }

    /// Nothing requested.
    pub fn new() -> (res: InflightRequests)
        ensures
            res@ == Map::<ChunkInfo, Instant>::empty(),
    {
        let res = InflightRequests { entries: Vec::new() };
        assert(res@ =~= Map::<ChunkInfo, Instant>::empty());
        res
    }

    /// How many chunks are requested.
    pub fn len(&self) -> (res: usize)
        ensures
            self@.dom().finite(),
            res == self@.len(),
    {
        proof {
            use_type_invariant(self);
            lemma_map_len(self.entries@);
        }
        self.entries.len()
    }

    /// Where `chunk` stands, if it does.
    fn position(&self, chunk: &ChunkInfo) -> (res: Option<usize>)
        ensures
            match res {
                Some(i) => i < self.entries@.len() && self.entries@[i as int].0 == *chunk,
                None => !self@.contains_key(*chunk),
            },
    {
        let mut i: usize = 0;
        while i < self.entries.len()
            invariant
                i <= self.entries@.len(),
                forall|j: int| 0 <= j < i ==> #[trigger] self.entries@[j].0 != *chunk,
            decreases self.entries@.len() - i,
        {
            if self.entries[i].0 == *chunk {
                return Some(i);
            }
            i = i + 1;
        }
        None
    }

    /// When `chunk` was requested, if it is.
    pub fn get(&self, chunk: &ChunkInfo) -> (res: Option<Instant>)
        ensures
            res == self@.get(*chunk),
    {
        match self.position(chunk) {
            Some(i) => {
                proof {
                    use_type_invariant(self);
                    lemma_lookup(self.entries@, i as int);
                }
                Some(self.entries[i].1)
            },
            None => None,
        }
    }

    /// Notes that `chunk` was requested at `at`, and returns the time noted before, if there was one.
    pub fn insert(&mut self, chunk: ChunkInfo, at: Instant) -> (res: Option<Instant>)
        ensures
            final(self)@ == old(self)@.insert(chunk, at),
            res == old(self)@.get(chunk),
    {
        proof {
            use_type_invariant(&*self);
        }
        let ghost before = self.entries@;
        let ghost expected = as_map(before).insert(chunk, at);
        match self.position(&chunk) {
            Some(i) => {
                let earlier = self.entries[i].1;
                let mut entries: Vec<(ChunkInfo, Instant)> = Vec::new();
                std::mem::swap(&mut entries, &mut self.entries);
                entries.set(i, (chunk, at));
                self.entries = entries;
                proof {
                    let after = self.entries@;
                    lemma_lookup(before, i as int);
                    assert forall|j: int| 0 <= j < after.len() implies expected.contains_key(
                        (#[trigger] after[j]).0,
                    ) && expected[after[j].0] == after[j].1 by {
                        lemma_lookup(before, j);
                    }
                    assert forall|c: ChunkInfo| #[trigger] expected.contains_key(c) implies listed(
                        after,
                        c,
                    ) by {
                        let k = place(before, c);
                        if c != chunk {
                            assert(before[k].0 == c);
                        }
                        assert(after[k].0 == c || after[i as int].0 == c);
                    }
                    lemma_same_map(after, expected);
                }
                Some(earlier)
            },
            None => {
                let mut entries: Vec<(ChunkInfo, Instant)> = Vec::new();
                std::mem::swap(&mut entries, &mut self.entries);
                entries.push((chunk, at));
                self.entries = entries;
                proof {
                    let after = self.entries@;
                    assert forall|j: int| 0 <= j < after.len() implies expected.contains_key(
                        (#[trigger] after[j]).0,
                    ) && expected[after[j].0] == after[j].1 by {
                        if j < before.len() {
                            lemma_lookup(before, j);
                        }
                    }
                    assert forall|c: ChunkInfo| #[trigger] expected.contains_key(c) implies listed(
                        after,
                        c,
                    ) by {
                        let k = place(before, c);
                        if c != chunk {
                            assert(before[k].0 == c);
                            assert(after[k].0 == c);
                        } else {
                            assert(after[before.len() as int].0 == c);
                        }
                    }
                    lemma_same_map(after, expected);
                }
                None
            },
        }
    }

    /// Forgets `chunk`, and returns the time noted for it, if there was one.
    pub fn remove(&mut self, chunk: &ChunkInfo) -> (res: Option<Instant>)
        ensures
            final(self)@ == old(self)@.remove(*chunk),
            res == old(self)@.get(*chunk),
    {
        proof {
            use_type_invariant(&*self);
        }
        let ghost before = self.entries@;
        let ghost expected = as_map(before).remove(*chunk);
        match self.position(chunk) {
            Some(i) => {
                let mut entries: Vec<(ChunkInfo, Instant)> = Vec::new();
                std::mem::swap(&mut entries, &mut self.entries);
                let removed = entries.remove(i);
                self.entries = entries;
                proof {
                    let after = self.entries@;
                    lemma_lookup(before, i as int);
                    assert forall|j: int| 0 <= j < after.len() implies expected.contains_key(
                        (#[trigger] after[j]).0,
                    ) && expected[after[j].0] == after[j].1 by {
                        lemma_lookup(before, if j < i { j } else { j + 1 });
                    }
                    assert forall|c: ChunkInfo| #[trigger] expected.contains_key(c) implies listed(
                        after,
                        c,
                    ) by {
                        let k = place(before, c);
                        assert(before[k].0 == c);
                        assert(after[if k < i { k } else { k - 1 }].0 == c);
                    }
                    lemma_same_map(after, expected);
                }
                Some(removed.1)
            },
            None => {
                assert(self@ =~= expected);
                None
            },
        }
    }

    /// The chunks that are requested.
    pub fn keys(&self) -> (res: Vec<ChunkInfo>)
        ensures
            lists(res@, self@.dom()),
    {
        let ghost wanted = |chunk: ChunkInfo, at: Instant| true;
        let mut res: Vec<ChunkInfo> = Vec::new();
        let mut i: usize = 0;
        proof {
            use_type_invariant(self);
            assert(self.entries@.take(0) =~= Seq::empty());
        }
        while i < self.entries.len()
            invariant
                i <= self.entries@.len(),
                wanted == (|chunk: ChunkInfo, at: Instant| true),
                distinct(self.entries@),
                picked(self.entries@.take(i as int), wanted, res@),
            decreases self.entries@.len() - i,
        {
            proof {
                lemma_pick_next(self.entries@, wanted, i as int, res@);
            }
            res.push(self.entries[i].0);
            i = i + 1;
        }
        proof {
            assert(self.entries@.take(i as int) =~= self.entries@);
            lemma_picked_all(self.entries@, wanted, res@, self@.dom());
        }
        res
    }

    /// The requested chunks of `piece`.
    pub fn keys_of_piece(&self, piece: ValidPieceIndex) -> (res: Vec<ChunkInfo>)
        ensures
            lists(res@, of_piece(self@, piece)),
    {
        let ghost wanted = |chunk: ChunkInfo, at: Instant| chunk.piece_index == piece;
        let mut res: Vec<ChunkInfo> = Vec::new();
        let mut i: usize = 0;
        proof {
            use_type_invariant(self);
            assert(self.entries@.take(0) =~= Seq::empty());
        }
        while i < self.entries.len()
            invariant
                i <= self.entries@.len(),
                wanted == (|chunk: ChunkInfo, at: Instant| chunk.piece_index == piece),
                distinct(self.entries@),
                picked(self.entries@.take(i as int), wanted, res@),
            decreases self.entries@.len() - i,
        {
            proof {
                lemma_pick_next(self.entries@, wanted, i as int, res@);
            }
            let chunk = self.entries[i].0;
            if chunk.piece_index == piece {
                res.push(chunk);
            }
            i = i + 1;
        }
        proof {
            assert(self.entries@.take(i as int) =~= self.entries@);
            lemma_picked_all(self.entries@, wanted, res@, of_piece(self@, piece));
        }
        res
    }

    /// The chunks that at `now` have been outstanding for longer than `timeout`.
    pub fn keys_outstanding_longer(&self, now: Instant, timeout: Duration) -> (res: Vec<ChunkInfo>)
        ensures
            lists(res@, outstanding_longer(self@, now, timeout)),
    {
        let ghost wanted = |chunk: ChunkInfo, at: Instant| now.since(at) > timeout.len();
        let limit = timeout.as_nanos();
        let mut res: Vec<ChunkInfo> = Vec::new();
        let mut i: usize = 0;
        proof {
            use_type_invariant(self);
            assert(self.entries@.take(0) =~= Seq::empty());
        }
        while i < self.entries.len()
            invariant
                i <= self.entries@.len(),
                limit == timeout.len(),
                wanted == (|chunk: ChunkInfo, at: Instant| now.since(at) > timeout.len()),
                distinct(self.entries@),
                picked(self.entries@.take(i as int), wanted, res@),
            decreases self.entries@.len() - i,
        {
            proof {
                lemma_pick_next(self.entries@, wanted, i as int, res@);
            }
            let (chunk, sent_at) = self.entries[i];
            if now.nanos_since(&sent_at) > limit {
                res.push(chunk);
            }
            i = i + 1;
        }
        proof {
            assert(self.entries@.take(i as int) =~= self.entries@);
            lemma_picked_all(self.entries@, wanted, res@, outstanding_longer(self@, now, timeout));
        }
        res
    }
}

/// A list of chunks names every member of the set, nothing else, and nothing twice.
pub proof fn law_list_names_each_once(list: Seq<ChunkInfo>, set: Set<ChunkInfo>)
    requires
        lists(list, set),
    ensures
        forall|i: int| 0 <= i < list.len() ==> set.contains(#[trigger] list[i]),
        forall|chunk: ChunkInfo| #[trigger]
            set.contains(chunk) ==> exists|i: int| 0 <= i < list.len() && list[i] == chunk,
        forall|i: int, j: int| 0 <= i < j < list.len() ==> #[trigger] list[i] != #[trigger] list[j],
{
    assert forall|i: int| 0 <= i < list.len() implies set.contains(#[trigger] list[i]) by {
        assert(list.to_set().contains(list[i]));
    }
    assert forall|chunk: ChunkInfo| #[trigger] set.contains(chunk) implies exists|i: int|
        0 <= i < list.len() && list[i] == chunk by {
        assert(list.to_set().contains(chunk));
    }
}

/// A request is of a piece exactly when it is outstanding and its chunk names that piece; what else is
/// outstanding has no part in it.
pub proof fn law_of_piece_goes_by_the_piece(
    requests: Map<ChunkInfo, Instant>,
    others: Map<ChunkInfo, Instant>,
    piece: ValidPieceIndex,
    chunk: ChunkInfo,
)
    ensures
        of_piece(requests, piece).contains(chunk) <==> requests.contains_key(chunk)
            && chunk.piece_index.index == piece.index,
        requests.contains_key(chunk) == others.contains_key(chunk) ==> of_piece(
            requests,
            piece,
        ).contains(chunk) == of_piece(others, piece).contains(chunk),
{
}

/// A request is overdue exactly when it was made more than the timeout before `now`. That rests on its
/// own time alone: among other requests it is overdue just the same.
pub proof fn law_overdue_by_its_own_time(
    requests: Map<ChunkInfo, Instant>,
    others: Map<ChunkInfo, Instant>,
    now: Instant,
    timeout: Duration,
    chunk: ChunkInfo,
)
    ensures
        outstanding_longer(requests, now, timeout).contains(chunk) <==> requests.contains_key(chunk)
            && requests[chunk].nanos + timeout.secs * 1_000_000_000 + timeout.nanos < now.nanos,
        requests.get(chunk) == others.get(chunk) ==> outstanding_longer(
            requests,
            now,
            timeout,
        ).contains(chunk) == outstanding_longer(others, now, timeout).contains(chunk),
{
    assert(requests.get(chunk) == if requests.contains_key(chunk) {
        Some(requests[chunk])
    } else {
        None
    });
    assert(others.get(chunk) == if others.contains_key(chunk) {
        Some(others[chunk])
    } else {
        None
    });
}

} // verus!
