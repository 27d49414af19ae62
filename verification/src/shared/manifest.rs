use vstd::prelude::*;

verus! {

/// The position of the first occurrence of `type_id` among the first `upto`
/// registered types, if there is one.
pub open spec fn first_position(type_ids: Seq<u64>, type_id: u64, upto: int) -> Option<int>
    decreases upto,
{
    if upto <= 0 {
        None
    } else {
        match first_position(type_ids, type_id, upto - 1) {
            Some(at) => Some(at),
            None => if type_ids[upto - 1] == type_id {
                Some(upto - 1)
            } else {
                None
            },
        }
    }
}

/// The wire identifier of a registered type: its position in the registry.
pub open spec fn naia_id_of(type_ids: Seq<u64>, type_id: u64) -> Option<u16> {
    match first_position(type_ids, type_id, type_ids.len() as int) {
        Some(at) => Some(at as u16),
        None => None,
    }
}

/// The registry of the types that can be replicated. Each gets a stable
/// 16-bit identifier, by which it is named on the wire.
pub struct Manifest {
    type_ids: Vec<u64>,
}

impl View for Manifest {
    type V = Seq<u64>;

    closed spec fn view(&self) -> Seq<u64> {
        self.type_ids@
    }
}

impl Manifest {
    #[verifier::type_invariant]
    spec fn sized(self) -> bool {
        self.type_ids@.len() <= 65536
    }

    /// A registry without types.
    pub fn new() -> (manifest: Manifest)
        ensures
            manifest@ == Seq::<u64>::empty(),
    {
        Manifest { type_ids: Vec::new() }
    }

    /// The wire identifier of the type `type_id`, if it was registered.
    pub fn get_naia_id(&self, type_id: &u64) -> (naia_id: Option<u16>)
        ensures
            naia_id == naia_id_of(self@, *type_id),
    {
        proof {
            use_type_invariant(self);
        }
        let mut i: usize = 0;
        while i < self.type_ids.len()
            invariant
                i <= self.type_ids@.len(),
                self.type_ids@.len() <= 65536,
                first_position(self.type_ids@, *type_id, i as int) is None,
            decreases self.type_ids@.len() - i,
        {
            if self.type_ids[i] == *type_id {
                proof {
                    lemma_first_position_stays(
                        self.type_ids@,
                        *type_id,
                        i as int + 1,
                        self.type_ids@.len() as int,
                    );
                }
                return Some(i as u16);
            }
            i += 1;
        }
        None
    }

    /// Registers the type `type_id` and gives its wire identifier. A type
    /// that was registered before keeps its identifier. Nothing is given
    /// where all 65536 identifiers are taken.
    pub fn register(&mut self, type_id: u64) -> (naia_id: Option<u16>)
        ensures
            match naia_id_of(old(self)@, type_id) {
                Some(known) => naia_id == Some(known) && final(self)@ == old(self)@,
                None => if old(self)@.len() < 65536 {
                    &&& naia_id == Some(old(self)@.len() as u16)
                    &&& final(self)@ == old(self)@.push(type_id)
                } else {
                    naia_id is None && final(self)@ == old(self)@
                },
            },
            naia_id is Some ==> naia_id_of(final(self)@, type_id) == naia_id,
    {
        proof {
            use_type_invariant(&*self);
        }
        match self.get_naia_id(&type_id) {
            Some(known) => Some(known),
            None => {
                let size: usize = self.type_ids.len();
                if size < 65536 {
                    let mut type_ids: Vec<u64> = Vec::new();
                    let mut i: usize = 0;
                    while i < size
                        invariant
                            i <= size,
                            size == self.type_ids@.len(),
                            type_ids@ == self.type_ids@.subrange(0, i as int),
                        decreases size - i,
                    {
                        type_ids.push(self.type_ids[i]);
                        i += 1;
                        assert(type_ids@ =~= self.type_ids@.subrange(0, i as int));
                    }
                    assert(type_ids@ =~= self.type_ids@);
                    type_ids.push(type_id);
                    proof {
                        lemma_first_position_prefix(
                            old(self).type_ids@,
                            type_ids@,
                            type_id,
                            size as int,
                        );
                    }
                    self.type_ids = type_ids;
                    Some(size as u16)
                } else {
                    None
                }
            },
        }
    }
}

/// Once a type was found among the first `from` entries, it is found at the
/// same place among more of them.
pub proof fn lemma_first_position_stays(type_ids: Seq<u64>, type_id: u64, from: int, upto: int)
    requires
        0 <= from <= upto,
        first_position(type_ids, type_id, from) is Some,
    ensures
        first_position(type_ids, type_id, upto) == first_position(type_ids, type_id, from),
    decreases upto - from,
{
    if from < upto {
        lemma_first_position_stays(type_ids, type_id, from, upto - 1);
    }
}

/// The search sees only the entries it walks over.
pub proof fn lemma_first_position_prefix(a: Seq<u64>, b: Seq<u64>, type_id: u64, upto: int)
    requires
        0 <= upto <= a.len(),
        upto <= b.len(),
        forall|i: int| 0 <= i < upto ==> a[i] == b[i],
    ensures
        first_position(a, type_id, upto) == first_position(b, type_id, upto),
    decreases upto,
{
    if upto > 0 {
        lemma_first_position_prefix(a, b, type_id, upto - 1);
    }
}

/// A type that has an identifier is registered at the position that the
/// identifier names, and at no earlier one.
pub proof fn lemma_naia_id_names_type(type_ids: Seq<u64>, type_id: u64, upto: int)
    requires
        0 <= upto <= type_ids.len(),
    ensures
        match first_position(type_ids, type_id, upto) {
            Some(at) => 0 <= at < upto && type_ids[at] == type_id && forall|i: int|
                0 <= i < at ==> type_ids[i] != type_id,
            None => forall|i: int| 0 <= i < upto ==> type_ids[i] != type_id,
        },
    decreases upto,
{
    if upto > 0 {
        lemma_naia_id_names_type(type_ids, type_id, upto - 1);
    }
}

} // verus!
