//! Latest test result per kind: map semantics keyed by `type_`.
use vstd::prelude::*;
use crate::records::TestResult;

verus! {

/// The table after writing `r`: it replaces any earlier result of its kind.
pub open spec fn upsert_spec(m: Map<Seq<char>, TestResult>, r: TestResult) -> Map<
    Seq<char>,
    TestResult,
> {
    m.insert(r.type_@, r)
}

/// The table after writing every result of `rs`, in order.
pub open spec fn upsert_all(m: Map<Seq<char>, TestResult>, rs: Seq<TestResult>) -> Map<
    Seq<char>,
    TestResult,
>
    decreases rs.len(),
{
    if rs.len() == 0 {
        m
    } else {
        upsert_spec(upsert_all(m, rs.drop_last()), rs.last())
    }
}

/// `rs[i]` is the last result of its kind in `rs`.
pub open spec fn is_last_of_kind(rs: Seq<TestResult>, i: int) -> bool {
    forall|j: int| i < j < rs.len() ==> rs[j].type_@ != rs[i].type_@
}

pub struct ResultTable {
    entries: Vec<TestResult>,
    contents: Ghost<Map<Seq<char>, TestResult>>,
}

impl View for ResultTable {
    type V = Map<Seq<char>, TestResult>;

    closed spec fn view(&self) -> Map<Seq<char>, TestResult> {
        self.contents@
    }
}

impl ResultTable {
    /// Each stored result sits under its own kind, and no kind is stored twice.
    pub closed spec fn wf(&self) -> bool {
        &&& forall|i: int|
            0 <= i < self.entries@.len() ==> #[trigger] self.contents@.contains_key(
                self.entries@[i].type_@,
            ) && self.contents@[self.entries@[i].type_@] == self.entries@[i]
        &&& forall|k: Seq<char>|
            #[trigger] self.contents@.contains_key(k) ==> exists|i: int|
                0 <= i < self.entries@.len() && #[trigger] self.entries@[i].type_@ == k
        &&& forall|i: int, j: int|
            0 <= i < self.entries@.len() && 0 <= j < self.entries@.len() && i != j
                ==> #[trigger] self.entries@[i].type_@ != #[trigger] self.entries@[j].type_@
    }

    pub fn new() -> (r: Self)
        ensures
            r.wf(),
            r@ == Map::<Seq<char>, TestResult>::empty(),
    {
        ResultTable { entries: Vec::new(), contents: Ghost(Map::empty()) }
    }

    pub fn len(&self) -> (r: usize)
        requires
            self.wf(),
        ensures
            r == self@.len(),
    {
        proof {
            self.lemma_len();
        }
        self.entries.len()
    }

    proof fn lemma_len(&self)
        requires
            self.wf(),
        ensures
            self.entries@.len() == self@.len(),
    {
        let kinds = self.entries@.map_values(|e: TestResult| e.type_@);
        assert forall|i: int, j: int|
            0 <= i < kinds.len() && 0 <= j < kinds.len() && i != j implies kinds[i] != kinds[j] by {
            assert(self.entries@[i].type_@ != self.entries@[j].type_@);
        }
        kinds.unique_seq_to_set();
        assert(kinds.to_set() =~= self@.dom()) by {
            assert forall|k: Seq<char>| #[trigger] self@.dom().contains(k) implies kinds.to_set().contains(k) by {
                let i = choose|i: int| 0 <= i < self.entries@.len() && #[trigger] self.entries@[i].type_@ == k;
                assert(kinds[i] == k);
            }
        }
    }

    /// The result stored under `kind`, if any.
    pub fn get(&self, kind: &String) -> (r: Option<&TestResult>)
        requires
            self.wf(),
        ensures
            self@.contains_key(kind@) ==> r == Some(&self@[kind@]),
            !self@.contains_key(kind@) ==> r is None,
    {
        match self.position(kind) {
            Some(i) => Some(&self.entries[i]),
            None => None,
        }
    }

    fn position(&self, kind: &String) -> (r: Option<usize>)
        requires
            self.wf(),
        ensures
            r matches Some(i) ==> i < self.entries@.len() && self.entries@[i as int].type_@ == kind@,
            r is None ==> !self@.contains_key(kind@),
    {
        let mut i: usize = 0;
        while i < self.entries.len()
            invariant
                i <= self.entries@.len(),
                forall|j: int| 0 <= j < i ==> self.entries@[j].type_@ != kind@,
            decreases self.entries@.len() - i,
        {
            if self.entries[i].type_ == *kind {
                return Some(i);
            }
            i = i + 1;
        }
        None
    }

    /// Inserts `r`, replacing the result of the same kind if there is one.
    pub fn upsert(&mut self, r: TestResult)
        requires
            old(self).wf(),
        ensures
            final(self).wf(),
            final(self)@ == upsert_spec(old(self)@, r),
    {
        let ghost k = r.type_@;
        let ghost m = self.contents@.insert(k, r);
        match self.position(&r.type_) {
            Some(i) => {
                self.entries.set(i, r);
                self.contents = Ghost(m);
                assert forall|j: int| 0 <= j < self.entries@.len() && j != i implies #[trigger] self.entries@[j].type_@ != k by {
                    assert(old(self).entries@[j].type_@ != old(self).entries@[i as int].type_@);
                }
                assert forall|j: int| 0 <= j < self.entries@.len() implies #[trigger] self.contents@.contains_key(
                    self.entries@[j].type_@) && self.contents@[self.entries@[j].type_@] == self.entries@[j] by {
                    if j != i {
                        assert(old(self).contents@.contains_key(old(self).entries@[j].type_@));
                    }
                }
                assert forall|a: int, b: int|
                    0 <= a < self.entries@.len() && 0 <= b < self.entries@.len() && a != b
                        implies #[trigger] self.entries@[a].type_@ != #[trigger] self.entries@[b].type_@ by {
                    if a != i && b != i {
                        assert(old(self).entries@[a].type_@ != old(self).entries@[b].type_@);
                    }
                }
                assert forall|k2: Seq<char>| #[trigger] self.contents@.contains_key(k2) implies exists|j: int|
                    0 <= j < self.entries@.len() && #[trigger] self.entries@[j].type_@ == k2 by {
                    if k2 != k {
                        let j = choose|j: int| 0 <= j < old(self).entries@.len() && #[trigger] old(self).entries@[j].type_@ == k2;
                        assert(self.entries@[j].type_@ == k2);
                    } else {
                        assert(self.entries@[i as int].type_@ == k2);
                    }
                }
            },
            None => {
                self.entries.push(r);
                self.contents = Ghost(m);
                let ghost n = self.entries@.len() - 1;
                assert forall|k2: Seq<char>| #[trigger] self.contents@.contains_key(k2) implies exists|j: int|
                    0 <= j < self.entries@.len() && #[trigger] self.entries@[j].type_@ == k2 by {
                    if k2 != k {
                        let j = choose|j: int| 0 <= j < old(self).entries@.len() && #[trigger] old(self).entries@[j].type_@ == k2;
                        assert(self.entries@[j].type_@ == k2);
                    } else {
                        assert(self.entries@[n].type_@ == k2);
                    }
                }
                assert forall|j: int| 0 <= j < n implies #[trigger] self.entries@[j].type_@ != k by {
                    assert(old(self).contents@.contains_key(old(self).entries@[j].type_@));
                }
            },
        }
    }

    fn copy_entries(&self) -> (r: Vec<TestResult>)
        ensures
            r@ == self.entries@,
    {
        let mut out: Vec<TestResult> = Vec::new();
        let mut i: usize = 0;
        while i < self.entries.len()
            invariant
                i <= self.entries@.len(),
                out@ == self.entries@.subrange(0, i as int),
            decreases self.entries@.len() - i,
        {
            out.push(self.entries[i].duplicate());
            i = i + 1;
            assert(out@ =~= self.entries@.subrange(0, i as int));
        }
        assert(out@ =~= self.entries@);
        out
    }

    /// Every stored result, each kind once.
    pub fn to_vec(&self) -> (r: Vec<TestResult>)
        requires
            self.wf(),
        ensures
            r@.len() == self@.len(),
            forall|i: int| 0 <= i < r@.len() ==> self@.contains_key(#[trigger] r@[i].type_@) && self@[r@[i].type_@] == r@[i],
            forall|i: int, j: int| 0 <= i < r@.len() && 0 <= j < r@.len() && i != j ==> #[trigger] r@[i].type_@ != #[trigger] r@[j].type_@,
    {
        proof {
            self.lemma_len();
        }
        self.copy_entries()
    }

    pub fn duplicate(&self) -> (r: Self)
        requires
            self.wf(),
        ensures
            r.wf(),
            r@ == self@,
    {
        ResultTable { entries: self.copy_entries(), contents: Ghost(self.contents@) }
    }
}

/// Writing a sequence of results leaves one entry per distinct kind, and that
/// entry is the last result written of its kind.
pub proof fn lemma_upsert_all_last_wins(rs: Seq<TestResult>)
    ensures
        forall|k: Seq<char>|
            #[trigger] upsert_all(Map::empty(), rs).contains_key(k) <==> exists|i: int|
                0 <= i < rs.len() && #[trigger] rs[i].type_@ == k,
        forall|i: int|
            0 <= i < rs.len() && #[trigger] is_last_of_kind(rs, i) ==> upsert_all(
                Map::empty(),
                rs,
            )[rs[i].type_@] == rs[i],
    decreases rs.len(),
{
    if rs.len() > 0 {
        let init = rs.drop_last();
        lemma_upsert_all_last_wins(init);
        let n = rs.len() - 1;
        let m0 = upsert_all(Map::empty(), init);
        let m = upsert_all(Map::empty(), rs);
        assert(rs.last() == rs[n]);
        assert(m == m0.insert(rs[n].type_@, rs[n]));
        assert forall|k: Seq<char>| #[trigger] m.contains_key(k) implies exists|i: int|
            0 <= i < rs.len() && #[trigger] rs[i].type_@ == k by {
            if k != rs[n].type_@ {
                assert(m0.contains_key(k));
                let i = choose|i: int| 0 <= i < init.len() && #[trigger] init[i].type_@ == k;
                assert(rs[i].type_@ == k);
            } else {
                assert(rs[n].type_@ == k);
            }
        }
        assert forall|k: Seq<char>| (exists|i: int| 0 <= i < rs.len() && #[trigger] rs[i].type_@ == k) implies #[trigger] m.contains_key(k) by {
            let i = choose|i: int| 0 <= i < rs.len() && #[trigger] rs[i].type_@ == k;
            if i < n {
                assert(init[i].type_@ == k);
                assert(m0.contains_key(k));
            }
        }
        assert forall|i: int| 0 <= i < rs.len() && #[trigger] is_last_of_kind(rs, i) implies m[rs[i].type_@] == rs[i] by {
            if i < n {
                assert(rs[n].type_@ != rs[i].type_@);
                assert(is_last_of_kind(init, i));
                assert(init[i] == rs[i]);
            }
        }
    }
}

} // verus!
