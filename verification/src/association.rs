//! The many-to-many association engine.
//!
//! One store models one join relation between a left and a right entity
//! (role–permission, or user–role) together with the two parent id sets
//! that referential integrity is checked against.  Links are created,
//! replaced and deleted only as a set; a pair exists at most once and
//! never outlives either parent.
//!
//! `update` is the two-phase replace-all operation: it deletes every link
//! of the left id and then inserts the new list.  As in the baseline
//! design the two phases are not atomic: when the insert phase fails, the
//! delete phase remains applied and the store is left with no links for
//! that left id.

use vstd::prelude::*;
use crate::error::{AppError, AppErrorType};

verus! {

/// The rows linked to `l`, in row order.
pub open spec fn links_of(links: Seq<(i64, i64)>, l: i64) -> Seq<i64>
    decreases links.len(),
{
    if links.len() == 0 {
        Seq::empty()
    } else {
        let rest = links_of(links.drop_first(), l);
        if links[0].0 == l {
            seq![links[0].1] + rest
        } else {
            rest
        }
    }
}

/// The rows that survive deleting every link of `l`.
pub open spec fn remove_left(links: Seq<(i64, i64)>, l: i64) -> Seq<(i64, i64)>
    decreases links.len(),
{
    if links.len() == 0 {
        Seq::empty()
    } else {
        let rest = remove_left(links.drop_first(), l);
        if links[0].0 == l {
            rest
        } else {
            seq![links[0]] + rest
        }
    }
}

/// The link rows that inserting `rs` under `l` appends.
pub open spec fn pairs(l: i64, rs: Seq<i64>) -> Seq<(i64, i64)> {
    rs.map_values(|r: i64| (l, r))
}

/// No two rows of `rs` repeat.
pub open spec fn distinct<A>(rs: Seq<A>) -> bool {
    forall|i: int, j: int| 0 <= i < j < rs.len() ==> rs[i] != rs[j]
}

/// `links_of` distributes over concatenation.
pub proof fn lemma_links_of_add(a: Seq<(i64, i64)>, b: Seq<(i64, i64)>, l: i64)
    ensures
        links_of(a + b, l) =~= links_of(a, l) + links_of(b, l),
    decreases a.len(),
{
    if a.len() == 0 {
        assert(a + b =~= b);
    } else {
        lemma_links_of_add(a.drop_first(), b, l);
        assert((a + b).drop_first() =~= a.drop_first() + b);
    }
}

/// `remove_left` distributes over concatenation.
pub proof fn lemma_remove_left_add(a: Seq<(i64, i64)>, b: Seq<(i64, i64)>, l: i64)
    ensures
        remove_left(a + b, l) =~= remove_left(a, l) + remove_left(b, l),
    decreases a.len(),
{
    if a.len() == 0 {
        assert(a + b =~= b);
    } else {
        lemma_remove_left_add(a.drop_first(), b, l);
        assert((a + b).drop_first() =~= a.drop_first() + b);
    }
}

/// Deleting a left id removes exactly its links: the deleted count and
/// the kept count partition the rows.
pub proof fn lemma_remove_left_count(links: Seq<(i64, i64)>, l: i64)
    ensures
        links_of(links, l).len() + remove_left(links, l).len() == links.len(),
    decreases links.len(),
{
    if links.len() > 0 {
        lemma_remove_left_count(links.drop_first(), l);
    }
}

/// Every kept row is one of the original rows, and no kept row belongs to
/// the deleted left id.
pub proof fn lemma_remove_left_elements(links: Seq<(i64, i64)>, l: i64)
    ensures
        forall|i: int|
            0 <= i < remove_left(links, l).len() ==> links.contains(
                #[trigger] remove_left(links, l)[i],
            ) && remove_left(links, l)[i].0 != l,
    decreases links.len(),
{
    if links.len() > 0 {
        let rest = links.drop_first();
        let rl = remove_left(links, l);
        let rlr = remove_left(rest, l);
        lemma_remove_left_elements(rest, l);
        assert forall|i: int| 0 <= i < rl.len() implies links.contains(#[trigger] rl[i])
            && rl[i].0 != l by {
            if links[0].0 == l {
                assert(rl =~= rlr);
                assert(rl[i] == rlr[i]);
                assert(rest.contains(rlr[i]));
                let j = choose|j: int| 0 <= j < rest.len() && rest[j] == rlr[i];
                assert(links[j + 1] == rl[i]);
            } else {
                assert(rl =~= seq![links[0]] + rlr);
                if i == 0 {
                    assert(rl[i] == links[0]);
                } else {
                    assert(rl[i] == rlr[i - 1]);
                    assert(rest.contains(rlr[i - 1]));
                    let j = choose|j: int| 0 <= j < rest.len() && rest[j] == rlr[i - 1];
                    assert(links[j + 1] == rl[i]);
                }
            }
        }
    }
}

/// Deleting a left id keeps the rows pairwise distinct.
pub proof fn lemma_remove_left_distinct(links: Seq<(i64, i64)>, l: i64)
    requires
        distinct(links),
    ensures
        distinct(remove_left(links, l)),
    decreases links.len(),
{
    if links.len() > 0 {
        let rest = links.drop_first();
        assert(distinct(rest)) by {
            assert(forall|i: int, j: int|
                0 <= i < j < rest.len() ==> rest[i] == links[i + 1] && rest[j] == links[j + 1]);
        }
        lemma_remove_left_distinct(rest, l);
        let rl = remove_left(links, l);
        let rlr = remove_left(rest, l);
        if links[0].0 != l {
            lemma_remove_left_elements(rest, l);
            assert(rl =~= seq![links[0]] + rlr);
            assert forall|i: int, j: int| 0 <= i < j < rl.len() implies rl[i] != rl[j] by {
                if i == 0 {
                    assert(rl[j] == rlr[j - 1]);
                    assert(rest.contains(rlr[j - 1]));
                    let w = choose|w: int| 0 <= w < rest.len() && rest[w] == rlr[j - 1];
                    assert(links[w + 1] == rl[j]);
                    assert(links[0] != links[w + 1]);
                } else {
                    assert(rl[i] == rlr[i - 1]);
                    assert(rl[j] == rlr[j - 1]);
                }
            }
        } else {
            assert(rl =~= rlr);
        }
    }
}

/// After deleting a left id, no row of that left id remains.
pub proof fn lemma_remove_left_gone(links: Seq<(i64, i64)>, l: i64, r: i64)
    ensures
        !remove_left(links, l).contains((l, r)),
{
    lemma_remove_left_elements(links, l);
    if remove_left(links, l).contains((l, r)) {
        let i = choose|i: int|
            0 <= i < remove_left(links, l).len() && remove_left(links, l)[i] == (l, r);
        assert(remove_left(links, l)[i].0 == l);
    }
}

/// An in-memory model of one join relation and its two parent id sets.
/// The I/O layer mirrors every operation onto the relational store; this
/// structure is what the replace-all semantics is stated and proved over.
pub struct Association {
    pub lefts: Vec<i64>,
    pub rights: Vec<i64>,
    pub links: Vec<(i64, i64)>,
}

impl Association {
    /// Well-formedness: no duplicate pair, and referential integrity of
    /// every pair to both parents.
    pub open spec fn wf(self) -> bool {
        &&& distinct(self.links@)
        &&& forall|i: int|
            0 <= i < self.links@.len() ==> self.lefts@.contains(#[trigger] self.links@[i].0)
                && self.rights@.contains(self.links@[i].1)
    }

    /// Referential integrity of a requested insert: the left id and every
    /// right id reference existing parents.
    pub open spec fn fk_ok(self, l: i64, rs: Seq<i64>) -> bool {
        &&& self.lefts@.contains(l)
        &&& forall|i: int| 0 <= i < rs.len() ==> self.rights@.contains(#[trigger] rs[i])
    }

    /// Uniqueness of a requested insert: no requested pair exists yet and
    /// the request itself repeats no right id.
    pub open spec fn fresh_ok(self, l: i64, rs: Seq<i64>) -> bool {
        &&& forall|i: int| 0 <= i < rs.len() ==> !self.links@.contains((l, #[trigger] rs[i]))
        &&& distinct(rs)
    }

    /// An empty store.
    pub fn new() -> (r: Association)
        ensures
            r.wf(),
            r.lefts@ =~= Seq::<i64>::empty(),
            r.rights@ =~= Seq::<i64>::empty(),
            r.links@ =~= Seq::<(i64, i64)>::empty(),
    {
        Association { lefts: Vec::new(), rights: Vec::new(), links: Vec::new() }
    }

    /// Registers a left parent id.
    pub fn add_left(&mut self, id: i64)
        requires
            old(self).wf(),
        ensures
            final(self).wf(),
            final(self).rights == old(self).rights,
            final(self).links == old(self).links,
            forall|x: i64|
                final(self).lefts@.contains(x) <==> (old(self).lefts@.contains(x) || x == id),
    {
        if !contains_i64(&self.lefts, id) {
            self.lefts.push(id);
            proof {
                assert forall|x: i64| self.lefts@.contains(x) <==> (old(self).lefts@.contains(x)
                    || x == id) by {
                    if old(self).lefts@.contains(x) {
                        let i = choose|i: int|
                            0 <= i < old(self).lefts@.len() && old(self).lefts@[i] == x;
                        assert(self.lefts@[i] == x);
                    }
                    if x == id {
                        assert(self.lefts@[self.lefts@.len() - 1] == x);
                    }
                    if self.lefts@.contains(x) {
                        let i = choose|i: int| 0 <= i < self.lefts@.len() && self.lefts@[i] == x;
                        if i < old(self).lefts@.len() {
                            assert(old(self).lefts@[i] == x);
                        }
                    }
                }
            }
        }
        proof {
            assert forall|i: int| 0 <= i < self.links@.len() implies self.lefts@.contains(
                #[trigger] self.links@[i].0,
            ) && self.rights@.contains(self.links@[i].1) by {
                assert(self.links@[i] == old(self).links@[i]);
                assert(old(self).lefts@.contains(old(self).links@[i].0));
            }
        }
    }

    /// Registers a right parent id.
    pub fn add_right(&mut self, id: i64)
        requires
            old(self).wf(),
        ensures
            final(self).wf(),
            final(self).lefts == old(self).lefts,
            final(self).links == old(self).links,
            forall|x: i64|
                final(self).rights@.contains(x) <==> (old(self).rights@.contains(x) || x == id),
    {
        if !contains_i64(&self.rights, id) {
            self.rights.push(id);
            proof {
                assert forall|x: i64| self.rights@.contains(x) <==> (old(self).rights@.contains(x)
                    || x == id) by {
                    if old(self).rights@.contains(x) {
                        let i = choose|i: int|
                            0 <= i < old(self).rights@.len() && old(self).rights@[i] == x;
                        assert(self.rights@[i] == x);
                    }
                    if x == id {
                        assert(self.rights@[self.rights@.len() - 1] == x);
                    }
                    if self.rights@.contains(x) {
                        let i = choose|i: int| 0 <= i < self.rights@.len() && self.rights@[i] == x;
                        if i < old(self).rights@.len() {
                            assert(old(self).rights@[i] == x);
                        }
                    }
                }
            }
        }
        proof {
            assert forall|i: int| 0 <= i < self.links@.len() implies self.lefts@.contains(
                #[trigger] self.links@[i].0,
            ) && self.rights@.contains(self.links@[i].1) by {
                assert(self.links@[i] == old(self).links@[i]);
                assert(old(self).lefts@.contains(old(self).links@[i].0));
            }
        }
    }

    /// Bulk-inserts one link per element of `right_list` under `left_id`,
    /// atomically: either every pair is inserted or the store is
    /// unchanged.  An empty list is a no-op returning 0 rows affected,
    /// whatever `left_id` is.  A missing parent fails as a foreign-key
    /// violation (not-found); an already-present or repeated pair fails
    /// as a conflict.
    #[verifier::loop_isolation(false)]
    pub fn create(&mut self, left_id: i64, right_list: &Vec<i64>) -> (r: Result<u64, AppError>)
        requires
            old(self).wf(),
        ensures
            final(self).wf(),
            final(self).lefts == old(self).lefts,
            final(self).rights == old(self).rights,
            right_list@.len() == 0 ==> r == Ok::<u64, AppError>(0u64) && *final(self) == *old(self),
            r is Ok <==> (right_list@.len() == 0 || (old(self).fk_ok(left_id, right_list@) && old(
                self,
            ).fresh_ok(left_id, right_list@))),
            r matches Ok(n) ==> n as int == right_list@.len(),
            r is Ok ==> final(self).links@ =~= old(self).links@ + pairs(left_id, right_list@),
            r is Err ==> *final(self) == *old(self),
            r matches Err(e) ==> e.message is None && e.cause is None && (if !old(self).fk_ok(
                left_id,
                right_list@,
            ) {
                e.error_type == AppErrorType::NotFound
            } else {
                e.error_type == AppErrorType::Conflict
            }),
    {
        let n = right_list.len();
        if n == 0 {
            return Ok(0);
        }
        if !contains_i64(&self.lefts, left_id) {
            return Err(AppError::new(None, None, AppErrorType::NotFound));
        }
        let mut i: usize = 0;
        while i < n
            invariant
                i <= n,
                n == right_list@.len(),
                forall|j: int| 0 <= j < i ==> self.rights@.contains(#[trigger] right_list@[j]),
            decreases n - i,
        {
            if !contains_i64(&self.rights, right_list[i]) {
                return Err(AppError::new(None, None, AppErrorType::NotFound));
            }
            i += 1;
        }
        let mut i: usize = 0;
        while i < n
            invariant
                i <= n,
                n == right_list@.len(),
                forall|j: int|
                    0 <= j < i ==> !self.links@.contains((left_id, #[trigger] right_list@[j])),
                forall|j: int, k: int| 0 <= j < k < i ==> right_list@[j] != right_list@[k],
            decreases n - i,
        {
            if contains_pair(&self.links, left_id, right_list[i]) {
                return Err(AppError::new(None, None, AppErrorType::Conflict));
            }
            let mut j: usize = 0;
            while j < i
                invariant
                    j <= i < n,
                    n == right_list@.len(),
                    forall|k: int| 0 <= k < j ==> right_list@[k] != right_list@[i as int],
                decreases i - j,
            {
                if right_list[j] == right_list[i] {
                    return Err(AppError::new(None, None, AppErrorType::Conflict));
                }
                j += 1;
            }
            i += 1;
        }
        let ghost pre = self.links@;
        let mut i: usize = 0;
        while i < n
            invariant
                i <= n,
                n == right_list@.len(),
                self.lefts == old(self).lefts,
                self.rights == old(self).rights,
                self.links@ =~= pre + pairs(left_id, right_list@.take(i as int)),
                pre == old(self).links@,
            decreases n - i,
        {
            self.links.push((left_id, right_list[i]));
            i += 1;
            assert(self.links@ =~= pre + pairs(left_id, right_list@.take(i as int)));
        }
        assert(right_list@.take(n as int) =~= right_list@);
        proof {
            let all = self.links@;
            let added = pairs(left_id, right_list@);
            assert forall|a: int, b: int| 0 <= a < b < all.len() implies all[a] != all[b] by {
                if a >= pre.len() {
                    assert(all[a] == (left_id, right_list@[a - pre.len()]));
                    assert(all[b] == (left_id, right_list@[b - pre.len()]));
                } else if b >= pre.len() {
                    assert(all[b] == (left_id, right_list@[b - pre.len()]));
                    assert(!pre.contains((left_id, right_list@[b - pre.len()])));
                    if all[a] == all[b] {
                        assert(pre.contains(all[b]));
                    }
                }
            }
            assert forall|a: int| 0 <= a < all.len() implies self.lefts@.contains(
                #[trigger] all[a].0,
            ) && self.rights@.contains(all[a].1) by {
                if a >= pre.len() {
                    assert(all[a] == (left_id, right_list@[a - pre.len()]));
                }
            }
        }
        Ok(n as u64)
    }

    /// The right ids linked to `left_id`, in row order.  A left id that
    /// does not exist fails with not-found; an existing left id with no
    /// links yields the empty list.
    #[verifier::loop_isolation(false)]
    pub fn find(&self, left_id: i64) -> (r: Result<Vec<i64>, AppError>)
        ensures
            r is Ok <==> self.lefts@.contains(left_id),
            r matches Ok(v) ==> v@ =~= links_of(self.links@, left_id),
            r matches Err(e) ==> e.error_type == AppErrorType::NotFound && e.message is None
                && e.cause is None,
    {
        if !contains_i64(&self.lefts, left_id) {
            return Err(AppError::new(None, None, AppErrorType::NotFound));
        }
        let n = self.links.len();
        let mut out: Vec<i64> = Vec::new();
        let mut i: usize = 0;
        while i < n
            invariant
                i <= n,
                n == self.links@.len(),
                out@ =~= links_of(self.links@.take(i as int), left_id),
            decreases n - i,
        {
            let (l, rt) = self.links[i];
            if l == left_id {
                out.push(rt);
            }
            proof {
                let prefix = self.links@.take(i as int);
                let step = seq![self.links@[i as int]];
                lemma_links_of_add(prefix, step, left_id);
                lemma_links_of_single(self.links@[i as int], left_id);
                assert(self.links@.take(i as int + 1) =~= prefix + step);
            }
            i += 1;
        }
        assert(self.links@.take(n as int) =~= self.links@);
        Ok(out)
    }

    /// Deletes every link of `left_id` and returns the number of rows
    /// removed; 0 when none existed.
    #[verifier::loop_isolation(false)]
    pub fn delete(&mut self, left_id: i64) -> (r: u64)
        requires
            old(self).wf(),
        ensures
            final(self).wf(),
            final(self).lefts == old(self).lefts,
            final(self).rights == old(self).rights,
            final(self).links@ =~= remove_left(old(self).links@, left_id),
            r as int == links_of(old(self).links@, left_id).len(),
            r as int == old(self).links@.len() - final(self).links@.len(),
    {
        let n = self.links.len();
        let mut kept: Vec<(i64, i64)> = Vec::new();
        let mut removed: u64 = 0;
        let mut i: usize = 0;
        while i < n
            invariant
                i <= n,
                n == self.links@.len(),
                self.links == old(self).links,
                self.lefts == old(self).lefts,
                self.rights == old(self).rights,
                kept@ =~= remove_left(self.links@.take(i as int), left_id),
                removed as int == links_of(self.links@.take(i as int), left_id).len(),
                removed <= i,
            decreases n - i,
        {
            let (l, rt) = self.links[i];
            proof {
                let prefix = self.links@.take(i as int);
                let step = seq![self.links@[i as int]];
                lemma_remove_left_add(prefix, step, left_id);
                lemma_links_of_add(prefix, step, left_id);
                lemma_remove_left_single(self.links@[i as int], left_id);
                lemma_links_of_single(self.links@[i as int], left_id);
                assert(self.links@.take(i as int + 1) =~= prefix + step);
            }
            if l == left_id {
                removed += 1;
            } else {
                kept.push((l, rt));
            }
            i += 1;
        }
        assert(self.links@.take(n as int) =~= self.links@);
        proof {
            lemma_remove_left_count(self.links@, left_id);
            lemma_remove_left_distinct(self.links@, left_id);
            lemma_remove_left_elements(self.links@, left_id);
        }
        self.links = kept;
        removed
    }

    /// Replace-all update: deletes every existing link of `left_id`, then
    /// inserts `new_right_list`, and returns rows deleted plus rows
    /// inserted.  With an empty list the delete alone is the whole
    /// operation.  The two phases are not atomic: when the insert phase
    /// fails, the links of `left_id` stay deleted.
    #[verifier::loop_isolation(false)]
    pub fn update(&mut self, left_id: i64, new_right_list: &Vec<i64>) -> (r: Result<
        u64,
        AppError,
    >)
        requires
            old(self).wf(),
            old(self).links@.len() + new_right_list@.len() <= u64::MAX,
        ensures
            final(self).wf(),
            final(self).lefts == old(self).lefts,
            final(self).rights == old(self).rights,
            r is Ok <==> (new_right_list@.len() == 0 || (old(self).fk_ok(left_id, new_right_list@)
                && distinct(new_right_list@))),
            r matches Ok(k) ==> k as int == links_of(old(self).links@, left_id).len()
                + new_right_list@.len(),
            r is Ok ==> final(self).links@ =~= remove_left(old(self).links@, left_id) + pairs(
                left_id,
                new_right_list@,
            ),
            r is Ok ==> links_of(final(self).links@, left_id) =~= new_right_list@,
            r is Err ==> final(self).links@ =~= remove_left(old(self).links@, left_id),
            r matches Err(e) ==> e.message is None && e.cause is None && (if !old(self).fk_ok(
                left_id,
                new_right_list@,
            ) {
                e.error_type == AppErrorType::NotFound
            } else {
                e.error_type == AppErrorType::Conflict
            }),
    {
        let deleted = self.delete(left_id);
        if new_right_list.len() == 0 {
            proof {
                lemma_remove_left_elements(old(self).links@, left_id);
                lemma_links_of_in_mid(remove_left(old(self).links@, left_id), left_id);
            }
            return Ok(deleted);
        }
        proof {
            lemma_remove_left_count(old(self).links@, left_id);
            assert forall|i: int| 0 <= i < new_right_list@.len() implies !self.links@.contains(
                (left_id, #[trigger] new_right_list@[i]),
            ) by {
                lemma_remove_left_gone(old(self).links@, left_id, new_right_list@[i]);
            }
        }
        let added = match self.create(left_id, new_right_list) {
            Ok(added) => added,
            Err(e) => {
                return Err(e);
            },
        };
        proof {
            let mid = remove_left(old(self).links@, left_id);
            let added_pairs = pairs(left_id, new_right_list@);
            lemma_links_of_add(mid, added_pairs, left_id);
            lemma_remove_left_elements(old(self).links@, left_id);
            assert(links_of(mid, left_id) =~= Seq::<i64>::empty()) by {
                lemma_links_of_in_mid(mid, left_id);
            }
            lemma_links_of_pairs(left_id, new_right_list@);
        }
        Ok(deleted + added)
    }
}

/// `links_of` on a single row.
proof fn lemma_links_of_single(p: (i64, i64), l: i64)
    ensures
        links_of(seq![p], l) =~= if p.0 == l {
            seq![p.1]
        } else {
            Seq::<i64>::empty()
        },
{
    assert(seq![p].drop_first() =~= Seq::<(i64, i64)>::empty());
    assert(links_of(Seq::<(i64, i64)>::empty(), l) =~= Seq::<i64>::empty());
}

/// `remove_left` on a single row.
proof fn lemma_remove_left_single(p: (i64, i64), l: i64)
    ensures
        remove_left(seq![p], l) =~= if p.0 == l {
            Seq::<(i64, i64)>::empty()
        } else {
            seq![p]
        },
{
    assert(seq![p].drop_first() =~= Seq::<(i64, i64)>::empty());
    assert(remove_left(Seq::<(i64, i64)>::empty(), l) =~= Seq::<(i64, i64)>::empty());
}

/// Links of `l` among rows that all avoid `l` form the empty sequence.
proof fn lemma_links_of_in_mid(links: Seq<(i64, i64)>, l: i64)
    requires
        forall|i: int| 0 <= i < links.len() ==> (#[trigger] links[i]).0 != l,
    ensures
        links_of(links, l) =~= Seq::<i64>::empty(),
    decreases links.len(),
{
    if links.len() > 0 {
        lemma_links_of_in_mid(links.drop_first(), l);
    }
}

/// The links of `l` among the pairs freshly built for `l` are exactly the
/// requested right ids.
proof fn lemma_links_of_pairs(l: i64, rs: Seq<i64>)
    ensures
        links_of(pairs(l, rs), l) =~= rs,
    decreases rs.len(),
{
    if rs.len() > 0 {
        lemma_links_of_pairs(l, rs.drop_first());
        assert(pairs(l, rs).drop_first() =~= pairs(l, rs.drop_first()));
    }
}

/// Whether a vector holds a value.
pub fn contains_i64(v: &Vec<i64>, x: i64) -> (r: bool)
    ensures
        r == v@.contains(x),
{
    let n = v.len();
    let mut i: usize = 0;
    while i < n
        invariant
            i <= n,
            n == v@.len(),
            forall|j: int| 0 <= j < i ==> v@[j] != x,
        decreases n - i,
    {
        if v[i] == x {
            return true;
        }
        i += 1;
    }
    false
}

/// Whether a link row is present.
pub fn contains_pair(v: &Vec<(i64, i64)>, l: i64, rt: i64) -> (r: bool)
    ensures
        r == v@.contains((l, rt)),
{
    let n = v.len();
    let mut i: usize = 0;
    while i < n
        invariant
            i <= n,
            n == v@.len(),
            forall|j: int| 0 <= j < i ==> v@[j] != (l, rt),
        decreases n - i,
    {
        let (a, b) = v[i];
        if a == l && b == rt {
            assert(v@[i as int] == (l, rt));
            return true;
        }
        i += 1;
    }
    false
}

} // verus!
