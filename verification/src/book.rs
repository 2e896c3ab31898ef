//! The position book: the open and filled positions, keyed by an identifier
//! that a counter hands out.
//!
//! Identifiers start at 1, grow by one with every position opened, and are
//! never used twice: a closed position is deleted and its identifier stays
//! retired.
use crate::assoc::{has_key, index_of, lemma_absent, lemma_empty, lemma_insert};
use crate::assoc::{lemma_lookup, lemma_remove, lemma_update, to_map};
use crate::state::{Position, PositionView};
use vstd::prelude::*;

verus! {

/// The largest number of positions one page holds.
pub const MAX_PAGE: u32 = 100;

/// The view of a [`PositionBook`].
pub struct PositionBookView {
    /// The positions that exist, by identifier.
    pub positions: Map<u128, PositionView>,
    /// The identifier handed out last, 0 before the first.
    pub counter: u128,
}

impl PositionBookView {
    /// Every identifier in use was handed out by the counter, and every
    /// position is well formed.
    pub open spec fn inv(self) -> bool {
        forall|id: u128| #[trigger]
            self.positions.dom().contains(id) ==> 1 <= id <= self.counter
                && self.positions[id].wf()
    }
}

/// The views of a list of positions with their identifiers, in order.
pub open spec fn positions_view(list: Seq<(u128, Position)>) -> Seq<(u128, PositionView)> {
    list.map_values(|e: (u128, Position)| (e.0, e.1@))
}

/// The identifiers of `list` ascend strictly.
pub open spec fn ascending(list: Seq<(u128, PositionView)>) -> bool {
    forall|i: int, j: int| 0 <= i < j < list.len() ==> (#[trigger] list[i]).0 < (#[trigger] list[j]).0
}

/// Every entry of `list` is a position of the book under its identifier.
pub open spec fn drawn_from(
    list: Seq<(u128, PositionView)>,
    positions: Map<u128, PositionView>,
) -> bool {
    forall|i: int|
        0 <= i < list.len() ==> positions.dom().contains((#[trigger] list[i]).0)
            && positions[list[i].0] == list[i].1
}

/// Some entry of `list` has the identifier `id`.
pub open spec fn lists_id(list: Seq<(u128, PositionView)>, id: u128) -> bool {
    exists|i: int| 0 <= i < list.len() && (#[trigger] list[i]).0 == id
}

/// The number of positions a page holds at most: the limit asked for, 100
/// where none is given, and never more than 100.
pub open spec fn page_limit(limit: Option<u32>) -> nat {
    match limit {
        Some(n) => if n <= 100 {
            n as nat
        } else {
            100
        },
        None => 100,
    }
}

/// `id` comes after the cursor: every identifier does where there is none.
pub open spec fn after_cursor(start_after: Option<u128>, id: u128) -> bool {
    match start_after {
        Some(cursor) => id > cursor,
        None => true,
    }
}

/// `list` is the page of `positions` after `start_after`: the positions
/// with the smallest identifiers beyond the cursor, in ascending order, as
/// many as the limit allows.
pub open spec fn is_page(
    list: Seq<(u128, PositionView)>,
    positions: Map<u128, PositionView>,
    start_after: Option<u128>,
    limit: Option<u32>,
) -> bool {
    &&& list.len() <= page_limit(limit)
    &&& ascending(list)
    &&& drawn_from(list, positions)
    &&& forall|i: int| 0 <= i < list.len() ==> after_cursor(start_after, (#[trigger] list[i]).0)
    &&& forall|id: u128| #[trigger]
        positions.dom().contains(id) && after_cursor(start_after, id) && !lists_id(list, id) ==> {
            &&& list.len() == page_limit(limit)
            &&& forall|i: int| 0 <= i < list.len() ==> (#[trigger] list[i]).0 < id
        }
}

/// `list` holds the positions in which `user` is borrower or lender, each
/// once, in ascending order of identifier.
pub open spec fn lists_involving(
    list: Seq<(u128, PositionView)>,
    positions: Map<u128, PositionView>,
    user: Seq<char>,
) -> bool {
    &&& ascending(list)
    &&& drawn_from(list, positions)
    &&& forall|i: int| 0 <= i < list.len() ==> (#[trigger] list[i]).1.involves(user)
    &&& forall|id: u128| #[trigger]
        positions.dom().contains(id) && positions[id].involves(user) ==> lists_id(list, id)
}

/// A stored list of positions and a counter that a book can be rebuilt
/// from: identifiers ascend strictly within 1 and the counter, and every
/// position is well formed.
pub open spec fn restorable(list: Seq<(u128, PositionView)>, counter: u128) -> bool {
    &&& ascending(list)
    &&& forall|i: int|
        0 <= i < list.len() ==> 1 <= (#[trigger] list[i]).0 <= counter && list[i].1.wf()
}

/// Whether `position` has `user` as its borrower or its lender.
pub fn involves_user(position: &Position, user: &String) -> (res: bool)
    ensures
        res == position@.involves(user@),
{
    if position.borrower == *user {
        true
    } else {
        match &position.lender {
            Some(lender) => *lender == *user,
            None => false,
        }
    }
}

/// Whether `position` is filled exactly when it has a lender, and carries no
/// fill time before that.
pub fn is_well_formed(position: &Position) -> (res: bool)
    ensures
        res == position@.wf(),
{
    let has_lender = match &position.lender {
        Some(_) => true,
        None => false,
    };
    position.filled == has_lender && (position.filled || position.start_time == 0)
}

/// The positions and the counter that numbers them.
pub struct PositionBook {
    entries: Vec<(u128, Position)>,
    counter: u128,
}

impl View for PositionBook {
    type V = PositionBookView;

    closed spec fn view(&self) -> PositionBookView {
        PositionBookView { positions: to_map(self.pairs()), counter: self.counter }
    }
}

impl PositionBook {
    /// The entries as pairs of identifier and position.
    pub closed spec fn pairs(self) -> Seq<(u128, PositionView)> {
        positions_view(self.entries@)
    }

    /// The entries are stored in strictly ascending order of identifier,
    /// identifiers lie within 1 and the counter, and every position is well
    /// formed.
    pub closed spec fn wf(self) -> bool {
        restorable(self.pairs(), self.counter)
    }

    /// A well-formed book satisfies the invariant of its view.
    pub proof fn lemma_inv(self)
        requires
            self.wf(),
        ensures
            self@.inv(),
    {
        assert forall|id: u128| #[trigger] self@.positions.dom().contains(id) implies 1 <= id
            <= self@.counter && self@.positions[id].wf() by {
            let i = index_of(self.pairs(), id);
            lemma_lookup(self.pairs(), i);
        }
    }

    /// A book with no position, whose counter stands at 0.
    pub fn new() -> (res: Self)
        ensures
            res.wf(),
            res@.positions == Map::<u128, PositionView>::empty(),
            res@.counter == 0,
    {
        let res = PositionBook { entries: Vec::new(), counter: 0 };
        proof {
            lemma_empty::<u128, PositionView>();
            assert(res.pairs() =~= Seq::<(u128, PositionView)>::empty());
        }
        res
    }

    /// Rebuilds a book from a stored counter and stored positions; `None`
    /// where they are not what a book can hold.
    pub fn restore(counter: u128, entries: Vec<(u128, Position)>) -> (res: Option<Self>)
        ensures
            res is Some <==> restorable(positions_view(entries@), counter),
            res matches Some(book) ==> book.wf() && book@.counter == counter && book@.positions
                == to_map(positions_view(entries@)),
    {
        let ghost list = positions_view(entries@);
        let mut i: usize = 0;
        while i < entries.len()
            invariant
                i <= entries@.len(),
                list == positions_view(entries@),
                forall|a: int, b: int|
                    0 <= a < b < i ==> (#[trigger] list[a]).0 < (#[trigger] list[b]).0,
                forall|a: int|
                    0 <= a < i ==> 1 <= (#[trigger] list[a]).0 <= counter && list[a].1.wf(),
            decreases entries@.len() - i,
        {
            let id: u128 = entries[i].0;
            assert(list[i as int] == (id, entries@[i as int].1@));
            if id < 1 || id > counter || !is_well_formed(&entries[i].1) {
                return None;
            }
            if i > 0 {
                let previous: u128 = entries[i - 1].0;
                assert(list[i - 1].0 == previous);
                if previous >= id {
                    return None;
                }
                assert forall|a: int| 0 <= a < i implies (#[trigger] list[a]).0 < id by {
                    if a < i - 1 {
                        assert(list[a].0 < list[i - 1].0);
                    }
                }
            }
            i += 1;
        }
        Some(PositionBook { entries, counter })
    }

    /// The identifier handed out last, 0 before the first.
    pub fn counter(&self) -> (res: u128)
        ensures
            res == self@.counter,
    {
        self.counter
    }

    /// Where the position `id` is stored.
    fn position(&self, id: u128) -> (res: Option<usize>)
        requires
            self.wf(),
        ensures
            match res {
                Some(i) => i < self.entries@.len() && self.entries@[i as int].0 == id
                    && self@.positions.dom().contains(id) && self@.positions[id]
                    == self.entries@[i as int].1@,
                None => !self@.positions.dom().contains(id) && !has_key(self.pairs(), id),
            },
    {
        let mut i: usize = 0;
        while i < self.entries.len()
            invariant
                i <= self.entries@.len(),
                self.wf(),
                forall|j: int| 0 <= j < i ==> (#[trigger] self.pairs()[j]).0 != id,
            decreases self.entries@.len() - i,
        {
            if self.entries[i].0 == id {
                proof {
                    lemma_lookup(self.pairs(), i as int);
                }
                return Some(i);
            }
            i += 1;
        }
        proof {
            lemma_absent(self.pairs(), id);
        }
        None
    }

    /// The position stored under `id`.
    pub fn get(&self, id: u128) -> (res: Option<Position>)
        requires
            self.wf(),
        ensures
            res is Some <==> self@.positions.dom().contains(id),
            res matches Some(position) ==> position@ == self@.positions[id] && position@.wf(),
    {
        match self.position(id) {
            Some(i) => {
                assert(self.pairs()[i as int].1.wf());
                Some(self.entries[i].1.clone())
            },
            None => None,
        }
    }

    /// Stores `position` under the next identifier and returns it.
    pub fn open(&mut self, position: Position) -> (id: u128)
        requires
            old(self).wf(),
            position@.wf(),
            old(self)@.counter < u128::MAX,
        ensures
            final(self).wf(),
            id == old(self)@.counter + 1,
            final(self)@.counter == id,
            final(self)@.positions == old(self)@.positions.insert(id, position@),
            !old(self)@.positions.dom().contains(id),
    {
        let id: u128 = self.counter + 1;
        let ghost before = self.pairs();
        proof {
            self.lemma_inv();
            assert(!has_key(before, id)) by {
                if has_key(before, id) {
                    let i = index_of(before, id);
                    lemma_lookup(before, i);
                }
            }
            lemma_insert(before, before.len() as int, (id, position@));
        }
        self.counter = id;
        self.entries.push((id, position));
        proof {
            assert(self.pairs() =~= before.insert(before.len() as int, (id, position@)));
            assert(self.pairs() =~= before.push((id, position@)));
        }
        id
    }

    /// Stores `position` under `id` in place of the position stored there.
    pub fn replace(&mut self, id: u128, position: Position)
        requires
            old(self).wf(),
            old(self)@.positions.dom().contains(id),
            position@.wf(),
        ensures
            final(self).wf(),
            final(self)@.counter == old(self)@.counter,
            final(self)@.positions == old(self)@.positions.insert(id, position@),
    {
        let ghost before = self.pairs();
        match self.position(id) {
            Some(i) => {
                proof {
                    lemma_update(before, i as int, position@);
                }
                self.entries.set(i, (id, position));
                proof {
                    assert(self.pairs() =~= before.update(i as int, (id, position@)));
                    assert forall|a: int| 0 <= a < self.pairs().len() implies (
                    #[trigger] self.pairs()[a]).0 == before[a].0 by {}
                }
            },
            None => {},
        }
    }

    /// Deletes the position stored under `id`, if there is one. The
    /// identifier is not handed out again.
    pub fn remove(&mut self, id: u128)
        requires
            old(self).wf(),
        ensures
            final(self).wf(),
            final(self)@.counter == old(self)@.counter,
            final(self)@.positions == old(self)@.positions.remove(id),
    {
        let ghost before = self.pairs();
        match self.position(id) {
            Some(i) => {
                proof {
                    lemma_remove(before, i as int);
                }
                self.entries.remove(i);
                proof {
                    assert(self.pairs() =~= before.remove(i as int));
                    assert forall|a: int| 0 <= a < self.pairs().len() implies #[trigger]
                        self.pairs()[a] == before[if a < i {
                            a
                        } else {
                            a + 1
                        }] by {}
                }
            },
            None => {
                assert(self@.positions.remove(id) =~= self@.positions);
            },
        }
    }

    /// Every position with its identifier, in ascending order of
    /// identifier: what [`PositionBook::restore`] rebuilds the book from.
    pub fn entries(&self) -> (res: Vec<(u128, Position)>)
        requires
            self.wf(),
        ensures
            restorable(positions_view(res@), self@.counter),
            to_map(positions_view(res@)) == self@.positions,
    {
        let mut res: Vec<(u128, Position)> = Vec::new();
        let mut i: usize = 0;
        while i < self.entries.len()
            invariant
                i <= self.entries@.len(),
                res@.len() == i,
                forall|j: int|
                    0 <= j < i ==> (#[trigger] res@[j]).0 == self.entries@[j].0 && res@[j].1@
                        == self.entries@[j].1@,
            decreases self.entries@.len() - i,
        {
            res.push((self.entries[i].0, self.entries[i].1.clone()));
            i += 1;
        }
        proof {
            assert(positions_view(res@) =~= self.pairs());
        }
        res
    }

    /// One page of positions in ascending order of identifier: those beyond
    /// `start_after`, at most `limit` of them, 100 where no limit or a
    /// larger one is given.
    pub fn page(&self, start_after: Option<u128>, limit: Option<u32>) -> (res: Vec<
        (u128, Position),
    >)
        requires
            self.wf(),
        ensures
            is_page(positions_view(res@), self@.positions, start_after, limit),
    {
        let asked: u32 = match limit {
            Some(n) => n,
            None => MAX_PAGE,
        };
        let most: usize = if asked <= MAX_PAGE {
            asked as usize
        } else {
            MAX_PAGE as usize
        };
        assert(most == page_limit(limit));
        let mut res: Vec<(u128, Position)> = Vec::new();
        let ghost mut picked: Seq<int> = Seq::empty();
        let mut i: usize = 0;
        while i < self.entries.len() && res.len() < most
            invariant
                i <= self.entries@.len(),
                self.wf(),
                res@.len() <= most,
                picked.len() == res@.len(),
                forall|a: int|
                    0 <= a < picked.len() ==> 0 <= (#[trigger] picked[a]) < i && res@[a].0
                        == self.entries@[picked[a]].0 && res@[a].1@ == self.entries@[picked[a]].1@
                        && after_cursor(start_after, res@[a].0),
                forall|a: int, b: int|
                    0 <= a < b < picked.len() ==> (#[trigger] picked[a]) < (#[trigger] picked[b]),
                forall|j: int|
                    0 <= j < i && after_cursor(start_after, (#[trigger] self.entries@[j]).0)
                        ==> exists|a: int| 0 <= a < picked.len() && (#[trigger] picked[a]) == j,
            decreases self.entries@.len() - i,
        {
            let id: u128 = self.entries[i].0;
            let beyond = match start_after {
                Some(cursor) => id > cursor,
                None => true,
            };
            assert(beyond == after_cursor(start_after, id));
            if beyond {
                let ghost listed = res@;
                res.push((id, self.entries[i].1.clone()));
                proof {
                    assert forall|a: int| 0 <= a < listed.len() implies res@[a] == listed[a] by {}
                    let ghost earlier = picked;
                    picked = picked.push(i as int);
                    assert forall|a: int| 0 <= a < picked.len() implies 0 <= (#[trigger] picked[a])
                        < i + 1 && res@[a].0 == self.entries@[picked[a]].0 && res@[a].1@
                        == self.entries@[picked[a]].1@ && after_cursor(start_after, res@[a].0) by {
                        if a < earlier.len() {
                            assert(picked[a] == earlier[a]);
                            assert(res@[a] == listed[a]);
                        } else {
                            assert(picked[a] == i);
                            assert(res@[a].0 == id);
                        }
                    }
                    assert forall|j: int|
                        0 <= j < i + 1 && after_cursor(
                            start_after,
                            (#[trigger] self.entries@[j]).0,
                        ) implies exists|a: int|
                        0 <= a < picked.len() && (#[trigger] picked[a]) == j by {
                        if j < i {
                            let a = choose|a: int|
                                0 <= a < earlier.len() && (#[trigger] earlier[a]) == j;
                            assert(picked[a] == j);
                        } else {
                            assert(picked[earlier.len() as int] == j);
                        }
                    }
                }
            }
            i += 1;
        }
        proof {
            let list = positions_view(res@);
            let all = self.pairs();
            assert forall|a: int| 0 <= a < list.len() implies (#[trigger] list[a]) == all[picked[a]] by {
                assert(all[picked[a]] == (
                    self.entries@[picked[a]].0,
                    self.entries@[picked[a]].1@,
                ));
            }
            assert forall|a: int| 0 <= a < list.len() implies self@.positions.dom().contains(
                (#[trigger] list[a]).0,
            ) && self@.positions[list[a].0] == list[a].1 by {
                lemma_lookup(all, picked[a]);
            }
            assert forall|a: int, b: int| 0 <= a < b < list.len() implies (#[trigger] list[a]).0 < (
            #[trigger] list[b]).0 by {
                assert(picked[a] < picked[b]);
                assert(all[picked[a]].0 < all[picked[b]].0);
            }
            assert forall|id: u128| #[trigger]
                self@.positions.dom().contains(id) && after_cursor(start_after, id) && !lists_id(
                    list,
                    id,
                ) implies list.len() == page_limit(limit) && forall|a: int|
                0 <= a < list.len() ==> (#[trigger] list[a]).0 < id by {
                let j = index_of(all, id);
                assert(all[j].0 == id);
                assert(self.entries@[j].0 == id);
                if j < i {
                    let a = choose|a: int| 0 <= a < picked.len() && (#[trigger] picked[a]) == j;
                    assert(list[a].0 == id);
                    assert(false);
                }
                assert forall|a: int| 0 <= a < list.len() implies (#[trigger] list[a]).0 < id by {
                    assert(picked[a] < j);
                    assert(all[picked[a]].0 < all[j].0);
                }
            }
        }
        res
    }

    /// The positions in which `user` is borrower or lender, in ascending
    /// order of identifier.
    pub fn involving(&self, user: &String) -> (res: Vec<(u128, Position)>)
        requires
            self.wf(),
        ensures
            lists_involving(positions_view(res@), self@.positions, user@),
    {
        let mut res: Vec<(u128, Position)> = Vec::new();
        let ghost mut picked: Seq<int> = Seq::empty();
        let mut i: usize = 0;
        while i < self.entries.len()
            invariant
                i <= self.entries@.len(),
                self.wf(),
                picked.len() == res@.len(),
                forall|a: int|
                    0 <= a < picked.len() ==> 0 <= (#[trigger] picked[a]) < i && res@[a].0
                        == self.entries@[picked[a]].0 && res@[a].1@ == self.entries@[picked[a]].1@
                        && res@[a].1@.involves(user@),
                forall|a: int, b: int|
                    0 <= a < b < picked.len() ==> (#[trigger] picked[a]) < (#[trigger] picked[b]),
                forall|j: int|
                    0 <= j < i && (#[trigger] self.entries@[j]).1@.involves(user@) ==> exists|
                        a: int,
                    | 0 <= a < picked.len() && (#[trigger] picked[a]) == j,
            decreases self.entries@.len() - i,
        {
            if involves_user(&self.entries[i].1, user) {
                res.push((self.entries[i].0, self.entries[i].1.clone()));
                proof {
                    let ghost earlier = picked;
                    picked = picked.push(i as int);
                    assert forall|j: int|
                        0 <= j < i + 1 && (#[trigger] self.entries@[j]).1@.involves(
                            user@,
                        ) implies exists|a: int|
                        0 <= a < picked.len() && (#[trigger] picked[a]) == j by {
                        if j < i {
                            let a = choose|a: int|
                                0 <= a < earlier.len() && (#[trigger] earlier[a]) == j;
                            assert(picked[a] == j);
                        } else {
                            assert(picked[earlier.len() as int] == j);
                        }
                    }
                }
            }
            i += 1;
        }
        proof {
            let list = positions_view(res@);
            let all = self.pairs();
            assert forall|a: int| 0 <= a < list.len() implies (#[trigger] list[a]) == all[picked[a]] by {
                assert(all[picked[a]] == (
                    self.entries@[picked[a]].0,
                    self.entries@[picked[a]].1@,
                ));
            }
            assert forall|a: int| 0 <= a < list.len() implies self@.positions.dom().contains(
                (#[trigger] list[a]).0,
            ) && self@.positions[list[a].0] == list[a].1 by {
                lemma_lookup(all, picked[a]);
            }
            assert forall|a: int, b: int| 0 <= a < b < list.len() implies (#[trigger] list[a]).0 < (
            #[trigger] list[b]).0 by {
                assert(picked[a] < picked[b]);
                assert(all[picked[a]].0 < all[picked[b]].0);
            }
            assert forall|id: u128| #[trigger]
                self@.positions.dom().contains(id) && self@.positions[id].involves(
                    user@,
                ) implies lists_id(list, id) by {
                let j = index_of(all, id);
                lemma_lookup(all, j);
                assert(all[j] == (self.entries@[j].0, self.entries@[j].1@));
                let a = choose|a: int| 0 <= a < picked.len() && (#[trigger] picked[a]) == j;
                assert(list[a].0 == id);
            }
        }
        res
    }
}

} // verus!
