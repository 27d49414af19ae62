use vstd::prelude::*;
use std::collections::VecDeque;

verus! {

/// What a key generator holds: the keys handed back, oldest first, and the
/// next key that was never handed out.
pub struct KeyGeneratorView {
    pub recycled: Seq<u16>,
    pub next_new: u16,
}

impl KeyGeneratorView {
    /// The key that the next call of `generate` gives.
    pub open spec fn next_key(self) -> u16 {
        if self.recycled.len() > 0 {
            self.recycled[0]
        } else {
            self.next_new
        }
    }

    /// The generator after one key was generated.
    pub open spec fn generated(self) -> KeyGeneratorView {
        if self.recycled.len() > 0 {
            KeyGeneratorView { recycled: self.recycled.drop_first(), next_new: self.next_new }
        } else {
            KeyGeneratorView {
                recycled: self.recycled,
                next_new: if self.next_new == u16::MAX {
                    0u16
                } else {
                    (self.next_new + 1) as u16
                },
            }
        }
    }

    /// The number of keys that can be generated before a key comes that was
    /// handed out as new before: those handed back, and the new ones below
    /// the greatest 16-bit number.
    pub open spec fn left(self) -> int {
        self.recycled.len() + (u16::MAX - self.next_new)
    }

    /// Whether no key is handed out twice at a time, as far as the
    /// generator can tell: the keys `taken` are below the next new key and
    /// not handed back, and so is each key handed back, once.
    pub open spec fn fresh_for(self, taken: Set<u16>) -> bool {
        &&& self.recycled.no_duplicates()
        &&& forall|i: int|
            0 <= i < self.recycled.len() ==> (#[trigger] self.recycled[i]) < self.next_new
        &&& forall|key: u16| #[trigger]
            taken.contains(key) ==> key < self.next_new && !self.recycled.contains(key)
    }

    /// The generator after `key` was handed back.
    pub open spec fn recycled_key(self, key: u16) -> KeyGeneratorView {
        KeyGeneratorView { recycled: self.recycled.push(key), next_new: self.next_new }
    }
}

/// Hands out 16-bit keys, and hands out again, oldest first, those that were
/// given back. After the greatest 16-bit number the new keys begin at 0
/// again.
pub struct KeyGenerator {
    recycled_keys: VecDeque<u16>,
    next_new_key: u16,
}

impl View for KeyGenerator {
    type V = KeyGeneratorView;

    closed spec fn view(&self) -> KeyGeneratorView {
        KeyGeneratorView { recycled: self.recycled_keys@, next_new: self.next_new_key }
    }
}

impl KeyGenerator {
    /// A generator that starts at key 0 and has nothing to hand out again.
    pub fn new() -> (generator: KeyGenerator)
        ensures
            generator@ == (KeyGeneratorView { recycled: Seq::empty(), next_new: 0 }),
    {
        KeyGenerator { recycled_keys: VecDeque::new(), next_new_key: 0 }
    }

    /// The key that `generate` would give now.
    pub fn peek(&self) -> (key: u16)
        ensures
            key == self@.next_key(),
    {
        if self.recycled_keys.len() > 0 {
            self.recycled_keys[0]
        } else {
            self.next_new_key
        }
    }

    /// Whether `count` keys can be generated before a key comes that was
    /// handed out as new before.
    pub fn has_keys(&self, count: usize) -> (has: bool)
        ensures
            has == (count <= self@.left()),
    {
        let fresh: usize = (u16::MAX - self.next_new_key) as usize;
        count <= fresh || count - fresh <= self.recycled_keys.len()
    }

    /// Gives a key: the oldest one that was handed back, or else a new one.
    pub fn generate(&mut self) -> (key: u16)
        ensures
            key == old(self)@.next_key(),
            final(self)@ == old(self)@.generated(),
    {
        match self.recycled_keys.pop_front() {
            Some(key) => {
                assert(self.recycled_keys@ =~= old(self).recycled_keys@.drop_first());
                key
            },
            None => {
                let key = self.next_new_key;
                self.next_new_key = self.next_new_key.wrapping_add(1);
                key
            },
        }
    }

    /// Takes a key back, to be handed out again.
    pub fn recycle_key(&mut self, key: &u16)
        ensures
            final(self)@ == old(self)@.recycled_key(*key),
    {
        self.recycled_keys.push_back(*key);
    }
}

/// A generator that takes care of the keys `taken` gives a key that is not
/// among them, as long as it has one left, and takes care of them and the
/// new key afterwards.
pub proof fn lemma_generated_is_fresh(keys: KeyGeneratorView, taken: Set<u16>)
    requires
        keys.fresh_for(taken),
        keys.left() > 0,
    ensures
        !taken.contains(keys.next_key()),
        keys.generated().fresh_for(taken.insert(keys.next_key())),
        keys.generated().left() == keys.left() - 1,
{
    let after = keys.generated();
    let key = keys.next_key();
    if keys.recycled.len() > 0 {
        assert(keys.recycled.contains(key));
        assert forall|i: int| 0 <= i < after.recycled.len() implies (#[trigger] after.recycled[i])
            < after.next_new && after.recycled[i] != key by {
            assert(after.recycled[i] == keys.recycled[i + 1]);
        }
        assert forall|other: u16| #[trigger]
            taken.insert(key).contains(other) implies other < after.next_new
            && !after.recycled.contains(other) by {
            if after.recycled.contains(other) {
                let i = choose|i: int| 0 <= i < after.recycled.len() && after.recycled[i] == other;
                assert(keys.recycled[i + 1] == other);
            }
        }
    } else {
        assert forall|other: u16| #[trigger]
            taken.insert(key).contains(other) implies other < after.next_new
            && !after.recycled.contains(other) by {
        }
    }
}

/// A generator that takes care of the keys `taken` takes care of the rest
/// once one of them is handed back.
pub proof fn lemma_recycled_is_fresh(keys: KeyGeneratorView, taken: Set<u16>, key: u16)
    requires
        keys.fresh_for(taken),
        taken.contains(key),
    ensures
        keys.recycled_key(key).fresh_for(taken.remove(key)),
        keys.recycled_key(key).left() == keys.left() + 1,
{
    let after = keys.recycled_key(key);
    assert forall|i: int, j: int|
        0 <= i < after.recycled.len() && 0 <= j < after.recycled.len() && i != j implies
        after.recycled[i] != after.recycled[j] by {
        if i < keys.recycled.len() {
            assert(keys.recycled.contains(after.recycled[i]));
        }
        if j < keys.recycled.len() {
            assert(keys.recycled.contains(after.recycled[j]));
        }
    }
    assert forall|other: u16| #[trigger]
        taken.remove(key).contains(other) implies other < after.next_new
        && !after.recycled.contains(other) by {
        if after.recycled.contains(other) {
            let i = choose|i: int| 0 <= i < after.recycled.len() && after.recycled[i] == other;
            if i < keys.recycled.len() {
                assert(keys.recycled.contains(other));
            }
        }
    }
}

} // verus!
