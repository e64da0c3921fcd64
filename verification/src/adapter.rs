use vstd::prelude::*;
use vstd::set_lib::lemma_len_subset;
use crate::decimal::{decimal_digits, law_decimal_digits_injective, push_decimal};

verus! {

/// The bytes of `tun`.
pub open spec fn tun_prefix() -> Seq<u8> {
    seq![116u8, 117u8, 110u8]
}

/// The name given to the `count`-th adapter tried when no name is requested:
/// `tun0`, `tun1`, and so on.
pub open spec fn default_adapter_name(count: nat) -> Seq<u8> {
    tun_prefix() + decimal_digits(count)
}

/// The byte strings held by a list of names.
pub open spec fn names_view(names: Seq<Vec<u8>>) -> Seq<Seq<u8>> {
    names.map_values(|v: Vec<u8>| v@)
}

/// Distinct counts give distinct default names.
pub proof fn law_default_names_distinct(a: nat, b: nat)
    requires
        default_adapter_name(a) == default_adapter_name(b),
    ensures
        a == b,
{
    assert(default_adapter_name(a).skip(3) =~= decimal_digits(a));
    assert(default_adapter_name(b).skip(3) =~= decimal_digits(b));
    law_decimal_digits_injective(a, b);
}

/// The candidate a search tries: a requested name that an existing adapter
/// holds is checked for being orphaned, a requested name that none holds is
/// created; with no name requested a default name that no existing adapter
/// holds is created, and every default name between is held by one.
pub proof fn law_adapter_candidate(from: nat, s: &AdapterSearch, step: StepView)
    requires
        AdapterSearch::candidate_chosen(from, s, step),
    ensures
        s.requested() matches Some(r) ==> (s.existing().contains(r) ==> step == StepView::CheckOrphaned(r))
            && (!s.existing().contains(r) ==> step == StepView::Create(r, s.description_for(r))),
        s.requested() is None ==> exists|c: nat| from <= c && step == StepView::Create(
            #[trigger] default_adapter_name(c),
            s.description_for(default_adapter_name(c)),
        ) && !s.existing().contains(default_adapter_name(c)) && (forall|k: nat|
            from <= k < c ==> s.existing().contains(#[trigger] default_adapter_name(k))),
{
    if s.requested() is None {
        let c = (s.count() - 1) as nat;
        assert(step == StepView::Create(default_adapter_name(c), s.description_for(default_adapter_name(c))));
    }
}

/// Whether two byte strings are equal.
pub fn bytes_equal(a: &[u8], b: &[u8]) -> (r: bool)
    ensures
        r == (a@ == b@),
{
    if a.len() != b.len() {
        return false;
    }
    let mut i: usize = 0;
    while i < a.len()
        invariant
            a@.len() == b@.len(),
            i <= a@.len(),
            forall|j: int| 0 <= j < i ==> a@[j] == b@[j],
        decreases a.len() - i,
    {
        if a[i] != b[i] {
            return false;
        }
        i = i + 1;
    }
    assert(a@ =~= b@);
    true
}

/// Whether `name` is one of `names`.
pub fn contains_name(names: &Vec<Vec<u8>>, name: &[u8]) -> (r: bool)
    ensures
        r == names_view(names@).contains(name@),
{
    let mut i: usize = 0;
    while i < names.len()
        invariant
            i <= names@.len(),
            forall|j: int| 0 <= j < i ==> names@[j]@ != name@,
        decreases names.len() - i,
    {
        if bytes_equal(names[i].as_slice(), name) {
            proof {
                assert(names_view(names@)[i as int] == name@);
            }
            return true;
        }
        i = i + 1;
    }
    proof {
        if names_view(names@).contains(name@) {
            let j = choose|j: int| 0 <= j < names_view(names@).len() && names_view(names@)[j]
                == name@;
            assert(names@[j]@ == name@);
        }
    }
    false
}

/// The default name for the `count`-th adapter tried.
pub fn default_name(count: u64) -> (r: Vec<u8>)
    ensures
        r@ == default_adapter_name(count as nat),
{
    let mut name: Vec<u8> = Vec::new();
    name.push(116);
    name.push(117);
    name.push(110);
    assert(name@ =~= tun_prefix());
    push_decimal(count, &mut name);
    name
}

/// What to do next while finding or creating the wintun adapter.
pub enum AdapterStep {
    /// An adapter with the requested name exists: find out whether it is an
    /// orphan left behind by an earlier process.
    CheckOrphaned { name: Vec<u8> },
    /// Open the existing adapter of this name.
    Open { name: Vec<u8> },
    /// Create an adapter with this name and description.
    Create { name: Vec<u8>, description: Vec<u8> },
    /// Stop and report the error of the last failed creation.
    GiveUp,
}

/// An adapter step as plain values.
pub enum StepView {
    CheckOrphaned(Seq<u8>),
    Open(Seq<u8>),
    Create(Seq<u8>, Seq<u8>),
    GiveUp,
}

impl View for AdapterStep {
    type V = StepView;

    open spec fn view(&self) -> StepView {
        match self {
            AdapterStep::CheckOrphaned { name } => StepView::CheckOrphaned(name@),
            AdapterStep::Open { name } => StepView::Open(name@),
            AdapterStep::Create { name, description } => StepView::Create(name@, description@),
            AdapterStep::GiveUp => StepView::GiveUp,
        }
    }
}

/// The search for the adapter that a new wintun device uses.
pub struct AdapterSearch {
    requested: Option<Vec<u8>>,
    description: Option<Vec<u8>>,
    existing: Vec<Vec<u8>>,
    count: u64,
    attempts: u32,
}

/// The largest number of existing adapters the search is made for.
pub open spec fn adapter_limit() -> nat {
    0x1000_0000
}

impl AdapterSearch {
    /// The requested adapter name, if any.
    pub closed spec fn requested(&self) -> Option<Seq<u8>> {
        match self.requested {
            Some(n) => Some(n@),
            None => None,
        }
    }

    /// The names of the adapters that existed when the search began.
    pub closed spec fn existing(&self) -> Seq<Seq<u8>> {
        names_view(self.existing@)
    }

    /// How many candidate names have been tried.
    pub closed spec fn count(&self) -> nat {
        self.count as nat
    }

    /// How many creations have failed and been retried.
    pub closed spec fn attempts(&self) -> nat {
        self.attempts as nat
    }

    /// The description that an adapter of this name is created with: the
    /// configured one, else the name.
    pub closed spec fn description_for(&self, name: Seq<u8>) -> Seq<u8> {
        match self.description {
            Some(d) => d@,
            None => name,
        }
    }

    /// The search is within its bounds.
    pub closed spec fn wf(&self) -> bool {
        &&& self.existing@.len() < adapter_limit()
        &&& self.attempts <= 4
        &&& self.count <= (self.attempts + 1) * (self.existing@.len() + 1)
    }

    /// The step after a candidate name was chosen for the `count`-th try:
    /// a requested name that exists is checked, anything else is created.
    pub open spec fn candidate_step(&self, name: Seq<u8>) -> StepView {
        if self.requested() is Some && self.existing().contains(name) {
            StepView::CheckOrphaned(name)
        } else {
            StepView::Create(name, self.description_for(name))
        }
    }

    /// The candidate tried after `from` tries: a requested name is tried
    /// again; otherwise the first default name from the `from`-th on that no
    /// existing adapter holds.
    pub open spec fn candidate_chosen(from: nat, s: &Self, step: StepView) -> bool {
        match s.requested() {
            Some(r) => s.count() == from + 1 && step == s.candidate_step(r),
            None => {
                let c = (s.count() - 1) as nat;
                &&& from <= c
                &&& step == StepView::Create(default_adapter_name(c), s.description_for(default_adapter_name(c)))
                &&& !s.existing().contains(default_adapter_name(c))
                &&& forall|k: nat| from <= k < c ==> s.existing().contains(
                    #[trigger] default_adapter_name(k),
                )
            },
        }
    }

    /// Two searches share the requested name, the existing adapters and the
    /// description.
    pub open spec fn same_request(a: &Self, b: &Self) -> bool {
        &&& a.requested() == b.requested()
        &&& a.existing() == b.existing()
        &&& forall|n: Seq<u8>| #[trigger] a.description_for(n) == b.description_for(n)
    }

    /// What choosing the next candidate does.
    pub open spec fn next_candidate_spec(old_s: &Self, new_s: &Self, step: StepView) -> bool {
        &&& Self::same_request(old_s, new_s)
        &&& new_s.attempts() == old_s.attempts()
        &&& new_s.count() > old_s.count()
        &&& Self::candidate_chosen(old_s.count(), new_s, step)
    }

    fn next_candidate(&mut self) -> (r: AdapterStep)
        requires
            old(self).existing@.len() < adapter_limit(),
            old(self).attempts <= 4,
            old(self).count <= old(self).attempts * (old(self).existing@.len() + 1),
        ensures
            final(self).wf(),
            Self::next_candidate_spec(old(self), final(self), r@),
    {
        let ghost start = self.count as nat;
        let ghost len = self.existing@.len();
        proof {
            assert(self.count + len + 1 <= 5 * (len + 1)) by (nonlinear_arith)
                requires
                    self.count <= self.attempts * (len + 1),
                    self.attempts <= 4,
            ;
        }
        match &self.requested {
            Some(r) => {
                let name = r.clone();
                self.count = self.count + 1;
                proof {
                    assert((self.count as int) <= (self.attempts + 1) * (len + 1)) by (nonlinear_arith)
                        requires
                            self.count <= self.attempts * (len + 1) + 1,
                    ;
                }
                if contains_name(&self.existing, name.as_slice()) {
                    AdapterStep::CheckOrphaned { name }
                } else {
                    let description = match &self.description {
                        Some(d) => d.clone(),
                        None => name.clone(),
                    };
                    AdapterStep::Create { name, description }
                }
            },
            None => {
                let ghost exist_set = names_view(self.existing@).to_set();
                let ghost mut skipped: Set<Seq<u8>> = Set::empty();
                proof {
                    names_view(self.existing@).lemma_cardinality_of_set();
                }
                loop
                    invariant
                        self.requested is None,
                        old(self).requested is None,
                        self.existing@ == old(self).existing@,
                        self.description == old(self).description,
                        self.attempts == old(self).attempts,
                        start == old(self).count,
                        self.existing@.len() == len,
                        len < adapter_limit(),
                        start <= self.count,
                        start + len + 1 <= 5 * (len + 1),
                        self.count <= self.attempts * (len + 1) + (self.count - start),
                        self.attempts <= 4,
                        exist_set == names_view(self.existing@).to_set(),
                        exist_set.len() <= len,
                        skipped.finite(),
                        skipped.len() == self.count - start,
                        skipped.subset_of(exist_set),
                        forall|k: nat| start <= k < self.count ==> skipped.contains(
                            #[trigger] default_adapter_name(k),
                        ),
                        forall|n: Seq<u8>| #[trigger]
                            skipped.contains(n) ==> exists|k: nat|
                                start <= k < self.count && n == default_adapter_name(k),
                    decreases exist_set.difference(skipped).len(),
                {
                    proof {
                        lemma_len_subset(skipped, exist_set);
                    }
                    let name = default_name(self.count);
                    let ghost c = self.count as nat;
                    self.count = self.count + 1;
                    if !contains_name(&self.existing, name.as_slice()) {
                        let description = match &self.description {
                            Some(d) => d.clone(),
                            None => name.clone(),
                        };
                        proof {
                            assert((self.count as int) <= (self.attempts + 1) * (len + 1))
                                by (nonlinear_arith)
                                requires
                                    self.count <= self.attempts * (len + 1) + (self.count - start),
                                    self.count - start <= len + 1,
                            ;
                            assert forall|k: nat| start <= k < c implies names_view(
                                self.existing@,
                            ).contains(#[trigger] default_adapter_name(k)) by {
                                assert(skipped.contains(default_adapter_name(k)));
                                assert(exist_set.contains(default_adapter_name(k)));
                            }
                        }
                        return AdapterStep::Create { name, description };
                    }
                    proof {
                        let n = default_adapter_name(c);
                        if skipped.contains(n) {
                            let k = choose|k: nat| start <= k < c && n == default_adapter_name(k);
                            law_default_names_distinct(k, c);
                        }
                        assert(exist_set.contains(n));
                        exist_set.lemma_set_insert_diff_decreases(skipped, n);
                        skipped = skipped.insert(n);
                        assert forall|m: Seq<u8>| #[trigger] skipped.contains(m) implies exists|k: nat|
                            start <= k < self.count && m == default_adapter_name(k) by {
                            if m != n {
                                let k = choose|k: nat| start <= k < c && m == default_adapter_name(k);
                                assert(start <= k < self.count && m == default_adapter_name(k));
                            }
                        }
                    }
                }
            },
        }
    }
}


impl AdapterSearch {
    /// Starts the search for an adapter: `requested` is the configured name,
    /// `description` the configured description and `existing` the names of
    /// the adapters present now. Returns the search and its first step.
    pub fn new(requested: Option<Vec<u8>>, description: Option<Vec<u8>>, existing: Vec<Vec<u8>>) -> (r: (
        Self,
        AdapterStep,
    ))
        requires
            existing@.len() < adapter_limit(),
        ensures
            r.0.wf(),
            r.0.requested() == (match requested {
                Some(n) => Some(n@),
                None => None,
            }),
            r.0.existing() == names_view(existing@),
            forall|n: Seq<u8>| #[trigger] r.0.description_for(n) == (match description {
                Some(d) => d@,
                None => n,
            }),
            r.0.attempts() == 0,
            Self::candidate_chosen(0, &r.0, r.1@),
    {
        let ghost desc = description;
        let mut search = AdapterSearch { requested, description, existing, count: 0, attempts: 0 };
        let ghost initial = search;
        let step = search.next_candidate();
        proof {
            assert forall|n: Seq<u8>| #[trigger] search.description_for(n) == (match desc {
                Some(d) => d@,
                None => n,
            }) by {
                assert(initial.description_for(n) == search.description_for(n));
            }
        }
        (search, step)
    }

    /// The step after the orphan check of the requested name: a live adapter
    /// is opened, an orphaned one is replaced by a new adapter.
    pub fn orphan_checked(&self, orphaned: bool) -> (r: AdapterStep)
        requires
            self.requested() is Some,
        ensures
            !orphaned ==> r@ == StepView::Open(self.requested()->0),
            orphaned ==> r@ == StepView::Create(
                self.requested()->0,
                self.description_for(self.requested()->0),
            ),
    {
        let name = match &self.requested {
            Some(n) => n.clone(),
            None => Vec::new(),
        };
        if !orphaned {
            AdapterStep::Open { name }
        } else {
            let description = match &self.description {
                Some(d) => d.clone(),
                None => name.clone(),
            };
            AdapterStep::Create { name, description }
        }
    }

    /// The step after a failed creation: after the fifth failure the search
    /// gives up; before it, the next candidate is tried.
    pub fn creation_failed(&mut self) -> (r: AdapterStep)
        requires
            old(self).wf(),
        ensures
            final(self).wf(),
            Self::same_request(old(self), final(self)),
            old(self).attempts() > 3 ==> r@ == StepView::GiveUp && final(self).attempts()
                == old(self).attempts() && final(self).count() == old(self).count(),
            old(self).attempts() <= 3 ==> final(self).attempts() == old(self).attempts() + 1
                && Self::candidate_chosen(old(self).count(), final(self), r@),
    {
        if self.attempts > 3 {
            return AdapterStep::GiveUp;
        }
        let ghost before = *self;
        self.attempts = self.attempts + 1;
        let ghost bumped = *self;
        let step = self.next_candidate();
        proof {
            assert forall|n: Seq<u8>| #[trigger] before.description_for(n) == self.description_for(
                n,
            ) by {
                assert(bumped.description_for(n) == self.description_for(n));
            }
        }
        step
    }
}

} // verus!
