//! The claims that the platform verified and attached to a request. A claim
//! set holds each name once.

use vstd::prelude::*;

verus! {

/// What a list of claims holds under each name. Where two claims share a
/// name, the earlier one counts.
pub open spec fn claims_map(claims: Seq<(String, String)>) -> Map<Seq<char>, Seq<char>>
    decreases claims.len(),
{
    if claims.len() == 0 {
        Map::empty()
    } else {
        let before = claims_map(claims.drop_last());
        let last = claims.last();
        if before.dom().contains(last.0@) {
            before
        } else {
            before.insert(last.0@, last.1@)
        }
    }
}

/// Whether no two claims of a list share a name.
pub open spec fn distinct_names(claims: Seq<(String, String)>) -> bool {
    forall|i: int, j: int| 0 <= i < j < claims.len() ==> claims[i].0@ != claims[j].0@
}

/// A name that no claim has is not in the map.
pub proof fn lemma_absent_name(claims: Seq<(String, String)>, name: Seq<char>)
    requires
        forall|j: int| 0 <= j < claims.len() ==> claims[j].0@ != name,
    ensures
        !claims_map(claims).dom().contains(name),
    decreases claims.len(),
{
    if claims.len() > 0 {
        lemma_absent_name(claims.drop_last(), name);
    }
}

/// A name that is not in the map is the name of no claim.
pub proof fn lemma_present_name(claims: Seq<(String, String)>, name: Seq<char>)
    requires
        !claims_map(claims).dom().contains(name),
    ensures
        forall|j: int| 0 <= j < claims.len() ==> claims[j].0@ != name,
    decreases claims.len(),
{
    if claims.len() > 0 {
        let shorter = claims.drop_last();
        lemma_present_name(shorter, name);
        assert forall|j: int| 0 <= j < claims.len() implies claims[j].0@ != name by {
            if j < shorter.len() {
                assert(shorter[j] == claims[j]);
            }
        }
    }
}

/// The first claim with a name is what the map holds under it.
pub proof fn lemma_first_claim(claims: Seq<(String, String)>, name: Seq<char>, i: int)
    requires
        0 <= i < claims.len(),
        claims[i].0@ == name,
        forall|j: int| 0 <= j < i ==> claims[j].0@ != name,
    ensures
        claims_map(claims).dom().contains(name),
        claims_map(claims)[name] == claims[i].1@,
    decreases claims.len(),
{
    let shorter = claims.drop_last();
    if i == claims.len() - 1 {
        lemma_absent_name(shorter, name);
    } else {
        lemma_first_claim(shorter, name, i);
    }
}

/// A verified claim set. Its view is the map from claim name to value.
#[derive(Debug)]
pub struct ClaimSet {
    claims: Vec<(String, String)>,
}

impl View for ClaimSet {
    type V = Map<Seq<char>, Seq<char>>;

    closed spec fn view(&self) -> Map<Seq<char>, Seq<char>> {
        claims_map(self.claims@)
    }
}

impl ClaimSet {
    /// The invariant of a claim set: no name occurs twice. Every set made by
    /// `new` and filled by `insert` meets it.
    pub closed spec fn wf(&self) -> bool {
        distinct_names(self.claims@)
    }

    /// A claim set without claims.
    pub fn new() -> (r: Self)
        ensures
            r.wf(),
            r@ == Map::<Seq<char>, Seq<char>>::empty(),
    {
        ClaimSet { claims: Vec::new() }
    }

    /// The value of the claim of the given name, or `None` where the set
    /// holds no such claim.
    pub fn claim(&self, name: &str) -> (r: Option<String>)
        ensures
            match r {
                Some(value) => self@.dom().contains(name@) && self@[name@] == value@,
                None => !self@.dom().contains(name@),
            },
    {
        let key: String = name.to_owned();
        let mut i: usize = 0;
        while i < self.claims.len()
            invariant
                i <= self.claims@.len(),
                key@ == name@,
                forall|j: int| 0 <= j < i ==> self.claims@[j].0@ != name@,
            decreases self.claims@.len() - i,
        {
            if self.claims[i].0 == key {
                proof {
                    lemma_first_claim(self.claims@, name@, i as int);
                }
                return Some(self.claims[i].1.clone());
            }
            i += 1;
        }
        proof {
            lemma_absent_name(self.claims@, name@);
        }
        None
    }

    /// Adds a claim, unless the set holds one of that name: then the set is
    /// left as it is. Returns whether the claim was added.
    pub fn insert(&mut self, name: String, value: String) -> (added: bool)
        ensures
            old(self).wf() ==> final(self).wf(),
            added == !old(self)@.dom().contains(name@),
            added ==> final(self)@ == old(self)@.insert(name@, value@),
            !added ==> final(self)@ == old(self)@,
    {
        if self.claim(name.as_str()).is_some() {
            return false;
        }
        let ghost before = self.claims@;
        let ghost key = name@;
        let ghost held = value@;
        self.claims.push((name, value));
        proof {
            assert(self.claims@.drop_last() =~= before);
            assert(self.claims@.last().0@ == key);
            assert(self.claims@.last().1@ == held);
            lemma_present_name(before, key);
        }
        true
    }
}

} // verus!
