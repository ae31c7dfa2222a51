use vstd::prelude::*;
use vstd::string::StringExecFns;
use crate::random::rng_range;

verus! {

pub struct RandomEntry {
    pub name: String,
    pub weight: i32,
}

/// A weighted list of names to draw from.
pub struct RandomTable {
    pub entries: Vec<RandomEntry>,
    pub total_weight: i32,
}

/// The summed weight of the first `k` entries.
pub open spec fn weight_before(es: Seq<RandomEntry>, k: int) -> int
    decreases k,
{
    if k <= 0 {
        0
    } else {
        weight_before(es, k - 1) + es[k - 1].weight
    }
}

proof fn lemma_weight_before_grows(es: Seq<RandomEntry>, j: int, k: int)
    requires
        0 <= j <= k <= es.len(),
        forall|i: int| 0 <= i < es.len() ==> (#[trigger] es[i]).weight > 0,
    ensures
        weight_before(es, j) <= weight_before(es, k),
        j < k ==> weight_before(es, j + 1) <= weight_before(es, k),
    decreases k - j,
{
    if j < k {
        lemma_weight_before_grows(es, j, k - 1);
    }
}

impl RandomTable {
    /// Every weight is positive and the total is their sum.
    pub open spec fn wf(&self) -> bool {
        &&& forall|i: int| 0 <= i < self.entries@.len() ==> (#[trigger] self.entries@[i]).weight > 0
        &&& self.total_weight == weight_before(self.entries@, self.entries@.len() as int)
    }

    pub fn new() -> (t: RandomTable)
        ensures
            t.wf(),
            t.entries@.len() == 0,
            t.total_weight == 0,
    {
        RandomTable { entries: Vec::new(), total_weight: 0 }
    }

    /// Registers a name with a weight; a weight that is not positive adds nothing.
    pub fn add(self, name: &str, weight: i32) -> (t: RandomTable)
        requires
            self.wf(),
            self.total_weight + weight <= i32::MAX,
        ensures
            t.wf(),
            weight > 0 ==> t.entries@.len() == self.entries@.len() + 1 && t.entries@.last().name@
                == name@ && t.entries@.last().weight == weight && t.entries@.drop_last()
                == self.entries@,
            weight <= 0 ==> t.entries@ == self.entries@,
            t.total_weight == self.total_weight + if weight > 0 {
                weight
            } else {
                0
            },
    {
        let mut t = self;
        if weight > 0 {
            let ghost before = t.entries@;
            t.total_weight = t.total_weight + weight;
            t.entries.push(RandomEntry { name: String::from_str(name), weight });
            proof {
                assert(t.entries@.drop_last() =~= before);
                assert(weight_before(t.entries@, t.entries@.len() as int) == weight_before(
                    before,
                    before.len() as int,
                ) + weight) by {
                    assert forall|k: int| 0 <= k <= before.len() implies weight_before(
                        t.entries@,
                        k,
                    ) == weight_before(before, k) by {
                        lemma_prefix_same(t.entries@, before, k);
                    }
                }
            }
        }
        t
    }

    /// The entry whose share of the total holds `roll`: the first one whose
    /// running sum of weights exceeds it. None when `roll` lies outside
    /// `0..total_weight`.
    pub fn pick_index(&self, roll: i32) -> (r: Option<usize>)
        requires
            self.wf(),
        ensures
            match r {
                Some(k) => 0 <= roll < self.total_weight && k < self.entries@.len() && weight_before(
                    self.entries@,
                    k as int,
                ) <= roll < weight_before(self.entries@, k as int + 1),
                None => roll < 0 || roll >= self.total_weight,
            },
    {
        if roll < 0 {
            return None;
        }
        let mut acc: i32 = 0;
        let mut k: usize = 0;
        proof {
            lemma_weight_before_grows(self.entries@, 0, self.entries@.len() as int);
        }
        while k < self.entries.len()
            invariant
                self.wf(),
                0 <= roll,
                k <= self.entries@.len(),
                acc == weight_before(self.entries@, k as int),
                0 <= acc <= roll,
                acc <= self.total_weight,
            decreases self.entries@.len() - k,
        {
            proof {
                lemma_weight_before_grows(self.entries@, k as int, self.entries@.len() as int);
                lemma_weight_before_grows(self.entries@, 0, k as int);
            }
            let w = self.entries[k].weight;
            if roll - acc < w {
                return Some(k);
            }
            acc = acc + w;
            k = k + 1;
        }
        None
    }

    /// Draws a name with probability in proportion to its weight; "None"
    /// from a table with no entries.
    pub fn roll(&self, rng: &mut rltk::RandomNumberGenerator) -> (r: String)
        requires
            self.wf(),
        ensures
            self.entries@.len() == 0 ==> r@ == "None"@,
            self.entries@.len() > 0 ==> exists|k: int|
                0 <= k < self.entries@.len() && r@ == (#[trigger] self.entries@[k]).name@,
    {
        if self.total_weight <= 0 {
            proof {
                if self.entries@.len() > 0 {
                    lemma_weight_before_grows(self.entries@, 0, self.entries@.len() as int);
                }
            }
            return String::from_str("None");
        }
        let draw = rng_range(rng, 0, self.total_weight);
        match self.pick_index(draw) {
            Some(k) => self.entries[k].name.clone(),
            None => String::from_str("None"),
        }
    }
}

proof fn lemma_prefix_same(a: Seq<RandomEntry>, b: Seq<RandomEntry>, k: int)
    requires
        0 <= k <= b.len(),
        b.len() <= a.len(),
        forall|i: int| 0 <= i < b.len() ==> a[i] == b[i],
    ensures
        weight_before(a, k) == weight_before(b, k),
    decreases k,
{
    if k > 0 {
        lemma_prefix_same(a, b, k - 1);
    }
}

} // verus!
