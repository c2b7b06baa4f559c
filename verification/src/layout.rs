//! Naming cells uniquely when a layout hierarchy is exported.
use crate::cache::{AssocList, KeyEq};
use crate::text::{decimal, digit_char, push_decimal};
use vstd::prelude::*;
use vstd::set_lib::lemma_len_subset;

verus! {

/// Identifies a layout cell.
#[derive(Debug, Clone, Copy, PartialEq, Eq, Structural, Hash)]
pub struct CellId(pub u64);

impl View for CellId {
    type V = u64;

    open spec fn view(&self) -> u64 {
        self.0
    }
}

impl KeyEq for CellId {
    fn key_eq(&self, other: &Self) -> (r: bool) {
        self.0 == other.0
    }

    fn copy_key(&self) -> (r: Self) {
        *self
    }
}

/// What the exporter reads of a layout cell: its ID and its name.
#[derive(Debug, Clone, PartialEq, Eq)]
pub struct RawCell {
    /// The cell's ID.
    pub id: CellId,
    /// The cell's name.
    pub name: String,
}

/// The `i`-th alternative to `name`: `name`, an underscore and `i` in decimal.
pub open spec fn candidate(name: Seq<char>, i: nat) -> Seq<char> {
    name + seq!['_'] + decimal(i)
}

/// The name given to a cell named `name` when the names in `taken` are in use: the name
/// itself if it is free, and otherwise its first free alternative.
pub open spec fn fresh_name(taken: Set<Seq<char>>, name: Seq<char>, r: Seq<char>) -> bool {
    if !taken.contains(name) {
        r == name
    } else {
        exists|k: nat|
            k >= 1 && r == candidate(name, k) && !taken.contains(candidate(name, k)) && forall|j: nat|
                1 <= j < k ==> taken.contains(#[trigger] candidate(name, j))
    }
}

/// Digits are distinct characters.
proof fn lemma_digit_char_injective(a: nat, b: nat)
    requires
        a < 10,
        b < 10,
        digit_char(a) == digit_char(b),
    ensures
        a == b,
{
}

/// Distinct numbers have distinct decimal texts.
pub proof fn lemma_decimal_injective(a: nat, b: nat)
    requires
        decimal(a) == decimal(b),
    ensures
        a == b,
    decreases a,
{
    if a < 10 && b < 10 {
        assert(decimal(a) == seq![digit_char(a)]);
        assert(decimal(b) == seq![digit_char(b)]);
        assert(seq![digit_char(a)][0] == digit_char(a));
        assert(seq![digit_char(b)][0] == digit_char(b));
        assert(digit_char(a) == digit_char(b));
        lemma_digit_char_injective(a, b);
    } else if a >= 10 && b >= 10 {
        let pa = decimal(a / 10);
        let pb = decimal(b / 10);
        assert(decimal(a) == pa + seq![digit_char(a % 10)]);
        assert(decimal(b) == pb + seq![digit_char(b % 10)]);
        assert(pa =~= decimal(a).drop_last());
        assert(pb =~= decimal(b).drop_last());
        assert(decimal(a).last() == digit_char(a % 10));
        assert(decimal(b).last() == digit_char(b % 10));
        lemma_digit_char_injective(a % 10, b % 10);
        lemma_decimal_injective(a / 10, b / 10);
    } else {
        lemma_decimal_len(a);
        lemma_decimal_len(b);
    }
}

/// The decimal text of a number below ten has one character; that of a larger number
/// has more.
proof fn lemma_decimal_len(a: nat)
    ensures
        a < 10 ==> decimal(a).len() == 1,
        a >= 10 ==> decimal(a).len() >= 2,
    decreases a,
{
    if a >= 10 {
        lemma_decimal_len(a / 10);
    }
}

/// Distinct alternatives of a name are distinct texts.
proof fn lemma_candidate_injective(name: Seq<char>, a: nat, b: nat)
    requires
        candidate(name, a) == candidate(name, b),
    ensures
        a == b,
{
    let n = name.len() + 1;
    assert(decimal(a) =~= candidate(name, a).subrange(n as int, candidate(name, a).len() as int));
    assert(decimal(b) =~= candidate(name, b).subrange(n as int, candidate(name, b).len() as int));
    lemma_decimal_injective(a, b);
}

/// If the first `k` alternatives of a name are all taken, there are at least `k` taken
/// names.
proof fn lemma_taken_candidates(taken: Set<Seq<char>>, name: Seq<char>, k: nat)
    requires
        taken.finite(),
        forall|j: nat| 1 <= j <= k ==> taken.contains(#[trigger] candidate(name, j)),
    ensures
        k <= taken.len(),
{
    let cands = Seq::new(k, |i: int| candidate(name, (i + 1) as nat));
    assert(cands.no_duplicates()) by {
        assert forall|i: int, j: int| 0 <= i < k && 0 <= j < k && i != j implies cands[i] != cands[j] by {
            if cands[i] == cands[j] {
                lemma_candidate_injective(name, (i + 1) as nat, (j + 1) as nat);
            }
        }
    }
    cands.unique_seq_to_set();
    assert(cands.to_set().subset_of(taken)) by {
        assert forall|c: Seq<char>| cands.to_set().contains(c) implies taken.contains(c) by {
            let i = choose|i: int| 0 <= i < cands.len() && cands[i] == c;
            assert(taken.contains(candidate(name, (i + 1) as nat)));
        }
    }
    lemma_len_subset(cands.to_set(), taken);
}

/// The names given out so far, and which cell got which.
pub struct CellDb {
    names: Vec<String>,
    assignments: AssocList<CellId, String>,
}

impl CellDb {
    /// The names in use.
    pub closed spec fn taken(&self) -> Set<Seq<char>> {
        self.names@.map_values(|s: String| s@).to_set()
    }

    /// The name given to each cell.
    pub closed spec fn assigned(&self) -> Map<u64, Seq<char>> {
        self.assignments.map().map_values(|s: String| s@)
    }

    /// The number of names given out.
    pub closed spec fn count(&self) -> nat {
        self.names@.len()
    }

    /// The lists are consistent.
    pub closed spec fn wf(&self) -> bool {
        self.assignments.wf()
    }

    /// An empty database.
    pub fn new() -> (r: CellDb)
        ensures
            r.wf(),
            r.count() == 0,
            r.taken() == Set::<Seq<char>>::empty(),
            r.assigned() == Map::<u64, Seq<char>>::empty(),
    {
        let r = CellDb { names: Vec::new(), assignments: AssocList::new() };
        assert(r.taken() =~= Set::<Seq<char>>::empty());
        assert(r.assigned() =~= Map::<u64, Seq<char>>::empty());
        r
    }

    /// The name given to `cell`, if it was exported already.
    pub fn get_name(&self, cell: &RawCell) -> (r: Option<String>)
        requires
            self.wf(),
        ensures
            r matches Some(n) ==> self.assigned().dom().contains(cell.id.0) && n@ == self.assigned()[cell.id.0],
            r is None ==> !self.assigned().dom().contains(cell.id.0),
    {
        match self.assignments.get(&cell.id) {
            Some(n) => Some(n.clone()),
            None => None,
        }
    }

    /// Whether `name` is in use.
    fn is_taken(&self, name: &String) -> (r: bool)
        ensures
            r == self.taken().contains(name@),
    {
        let mut i: usize = 0;
        while i < self.names.len()
            invariant
                i <= self.names@.len(),
                forall|j: int| 0 <= j < i ==> #[trigger] self.names@[j]@ != name@,
            decreases self.names@.len() - i,
        {
            if self.names[i] == *name {
                assert(self.names@.map_values(|s: String| s@)[i as int] == name@);
                return true;
            }
            i = i + 1;
        }
        proof {
            if self.taken().contains(name@) {
                let v = self.names@.map_values(|s: String| s@);
                let j = choose|j: int| 0 <= j < v.len() && #[trigger] v[j] == name@;
                assert(self.names@[j]@ == name@);
            }
        }
        false
    }

    /// The first of `name` followed by `_1`, `_2`, and so on that is not in use.
    fn first_free(&self, name: &String) -> (r: String)
        requires
            self.taken().contains(name@),
            self.count() < usize::MAX,
        ensures
            fresh_name(self.taken(), name@, r@),
    {
        let ghost taken = self.taken();
        proof {
            self.names@.map_values(|s: String| s@).lemma_cardinality_of_set();
            vstd::seq_lib::seq_to_set_is_finite(self.names@.map_values(|s: String| s@));
        }
        let n = self.names.len();
        let mut i: usize = 1;
        loop
            invariant
                self.taken() == taken,
                taken.finite(),
                taken.len() <= self.names@.len(),
                n == self.names@.len(),
                n < usize::MAX,
                taken.contains(name@),
                1 <= i <= taken.len() + 1,
                forall|j: nat| 1 <= j < i ==> taken.contains(#[trigger] candidate(name@, j)),
            decreases taken.len() + 1 - i,
        {
            let mut c = name.clone();
            c.append("_");
            push_decimal(&mut c, i as u64);
            proof {
                reveal_strlit("_");
                assert(c@ =~= candidate(name@, i as nat));
            }
            if !self.is_taken(&c) {
                proof {
                    assert(fresh_name(taken, name@, c@)) by {
                        assert(i >= 1 && c@ == candidate(name@, i as nat) && !taken.contains(candidate(name@, i as nat)));
                    }
                }
                return c;
            }
            proof {
                lemma_taken_candidates(taken, name@, i as nat);
            }
            i = i + 1;
        }
    }

    /// Gives `cell` a name that is not in use: its own name if that is free, and otherwise
    /// the first free of its name followed by `_1`, `_2`, and so on.
    pub fn assign_name(&mut self, cell: &RawCell) -> (r: String)
        requires
            old(self).wf(),
            old(self).count() < usize::MAX,
        ensures
            final(self).wf(),
            final(self).count() == old(self).count() + 1,
            fresh_name(old(self).taken(), cell.name@, r@),
            !old(self).taken().contains(r@),
            final(self).taken() == old(self).taken().insert(r@),
            final(self).assigned() == old(self).assigned().insert(cell.id.0, r@),
    {
        let name = if self.is_taken(&cell.name) {
            self.first_free(&cell.name)
        } else {
            cell.name.clone()
        };
        let ghost old_names = self.names@;
        self.names.push(name.clone());
        proof {
            let v = self.names@.map_values(|s: String| s@);
            let w = old_names.map_values(|s: String| s@);
            assert(v =~= w.push(name@));
            assert forall|x: Seq<char>| #[trigger] v.to_set().contains(x) == w.to_set().insert(name@).contains(x) by {
                if w.to_set().contains(x) && x != name@ {
                    let j = choose|j: int| 0 <= j < w.len() && w[j] == x;
                    assert(v[j] == x);
                }
                if x == name@ {
                    assert(v[w.len() as int] == x);
                }
                if v.to_set().contains(x) && x != name@ {
                    let j = choose|j: int| 0 <= j < v.len() && v[j] == x;
                    assert(j < w.len());
                    assert(w[j] == x);
                }
            }
            assert(self.taken() =~= old(self).taken().insert(name@));
        }
        let ghost before = self.assignments.map();
        match self.assignments.find(&cell.id) {
            Some(i) => {
                self.assignments.set_at(i, name.clone());
            },
            None => {
                self.assignments.push_new(cell.id, name.clone());
            },
        }
        proof {
            assert(self.assigned() =~= old(self).assigned().insert(cell.id.0, name@));
        }
        name
    }
}

} // verus!
