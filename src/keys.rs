//! The table of keys currently held down.
use vstd::prelude::*;

verus! {

/// Names of the keys that are held down; a key that is absent is up.
pub struct KeyTable {
    pressed: Vec<String>,
}

impl View for KeyTable {
    type V = Set<Seq<char>>;

    closed spec fn view(&self) -> Set<Seq<char>> {
        Set::new(|k: Seq<char>| exists|i: int| 0 <= i < self.pressed@.len() && self.pressed@[i]@ == k)
    }
}

impl KeyTable {
    /// A table with every key up.
    pub fn new() -> (r: KeyTable)
        ensures
            r@ == Set::<Seq<char>>::empty(),
    {
        let r = KeyTable { pressed: Vec::new() };
        assert(r@ =~= Set::<Seq<char>>::empty());
        r
    }

    /// Whether `name` is held down.
    pub fn is_key_pressed(&self, name: &String) -> (r: bool)
        ensures
            r == self@.contains(name@),
    {
        let mut i: usize = 0;
        while i < self.pressed.len()
            invariant
                0 <= i <= self.pressed@.len(),
                forall|j: int| 0 <= j < i ==> self.pressed@[j]@ != name@,
            decreases self.pressed@.len() - i,
        {
            if self.pressed[i] == *name {
                assert(self.pressed@[i as int]@ == name@);
                return true;
            }
            i = i + 1;
        }
        false
    }

    /// Records that `name` went down.
    pub fn key_down(&mut self, name: String)
        ensures
            final(self)@ == old(self)@.insert(name@),
    {
        if !self.is_key_pressed(&name) {
            let ghost k = name@;
            let ghost before = self.pressed@;
            self.pressed.push(name);
            assert forall|s: Seq<char>| #[trigger] self@.contains(s) == old(self)@.insert(k).contains(s) by {
                if s == k {
                    assert(self.pressed@[before.len() as int]@ == k);
                } else if old(self)@.contains(s) {
                    let i = choose|i: int| 0 <= i < before.len() && before[i]@ == s;
                    assert(self.pressed@[i]@ == s);
                } else if self@.contains(s) {
                    let i = choose|i: int| 0 <= i < self.pressed@.len() && self.pressed@[i]@ == s;
                    assert(before[i]@ == s);
                }
            }
            assert(self@ =~= old(self)@.insert(k));
        } else {
            assert(self@ =~= old(self)@.insert(name@));
        }
    }

    /// Records that `name` went up.
    pub fn key_up(&mut self, name: &String)
        ensures
            final(self)@ == old(self)@.remove(name@),
    {
        let mut kept: Vec<String> = Vec::new();
        let mut i: usize = 0;
        while i < self.pressed.len()
            invariant
                0 <= i <= self.pressed@.len(),
                forall|j: int| 0 <= j < kept@.len() ==> (#[trigger] kept@[j])@ != name@,
                forall|j: int|
                    #![trigger kept@[j]]
                    0 <= j < kept@.len() ==> exists|m: int|
                        #![trigger self.pressed@[m]]
                        0 <= m < i && self.pressed@[m]@ == kept@[j]@,
                forall|m: int|
                    #![trigger self.pressed@[m]]
                    0 <= m < i && self.pressed@[m]@ != name@ ==> exists|j: int|
                        #![trigger kept@[j]]
                        0 <= j < kept@.len() && kept@[j]@ == self.pressed@[m]@,
            decreases self.pressed@.len() - i,
        {
            let ghost k0 = kept@;
            if self.pressed[i] != *name {
                let s = self.pressed[i].clone();
                kept.push(s);
                assert(kept@[kept@.len() - 1]@ == self.pressed@[i as int]@);
            }
            assert forall|m: int|
                #![trigger self.pressed@[m]]
                0 <= m < i + 1 && self.pressed@[m]@ != name@ implies exists|j: int|
                    #![trigger kept@[j]]
                    0 <= j < kept@.len() && kept@[j]@ == self.pressed@[m]@ by {
                if m < i {
                    let j = choose|j: int| 0 <= j < k0.len() && #[trigger] k0[j]@ == self.pressed@[m]@;
                    assert(kept@[j] == k0[j]);
                } else {
                    assert(kept@[kept@.len() - 1]@ == self.pressed@[m]@);
                }
            }
            i = i + 1;
        }
        let ghost before = *self;
        self.pressed = kept;
        assert forall|s: Seq<char>| #[trigger] self@.contains(s) == before@.remove(name@).contains(s) by {
            if self@.contains(s) {
                let j = choose|j: int| 0 <= j < self.pressed@.len() && self.pressed@[j]@ == s;
                assert(kept@[j]@ == s);
            }
            if before@.remove(name@).contains(s) {
                let m = choose|m: int| 0 <= m < before.pressed@.len() && before.pressed@[m]@ == s;
                assert(before.pressed@[m]@ != name@);
            }
        }
        assert(self@ =~= old(self)@.remove(name@));
    }
}

} // verus!
