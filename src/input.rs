use vstd::prelude::*;

verus! {

/// What lower-casing a string yields.
pub uninterp spec fn lower_of(s: Seq<char>) -> Seq<char>;

/// Relies on `str::to_lowercase`: the result depends on the characters of `s` alone.
#[verifier::external_body]
fn lowercase(s: &str) -> (r: String)
    ensures
        r@ == lower_of(s@),
{
    s.to_lowercase()
}

/// The set of keyboard keys currently held down, each stored by its lower-case name.
pub struct HeldKeys {
    keys: Vec<String>,
}

/// The camera motions and actions requested by the held keys for one tick.
#[derive(Clone, Copy, Debug, PartialEq, Eq)]
pub struct Movement {
    pub left: bool,
    pub right: bool,
    pub forward: bool,
    pub backward: bool,
    pub up: bool,
    pub down: bool,
    pub reset: bool,
}

impl View for HeldKeys {
    type V = Set<Seq<char>>;

    /// The lower-case names of the held keys.
    open spec fn view(&self) -> Set<Seq<char>> {
        self.names().to_set()
    }
}

impl HeldKeys {
    /// The names of the held keys, in the order they were pressed.
    pub closed spec fn names(&self) -> Seq<Seq<char>> {
        self.keys@.map_values(|k: String| k@)
    }

    /// No key is recorded twice.
    pub closed spec fn wf(&self) -> bool {
        self.names().no_duplicates()
    }

    /// No key held.
    pub fn new() -> (r: Self)
        ensures
            r.wf(),
            r@ == Set::<Seq<char>>::empty(),
    {
        let r = HeldKeys { keys: Vec::new() };
        assert(r@ =~= Set::<Seq<char>>::empty());
        r
    }

    /// The position of the key named `name`, if it is held.
    fn position(&self, name: &String) -> (r: Option<usize>)
        requires
            self.wf(),
        ensures
            match r {
                Some(i) => i < self.names().len() && self.names()[i as int] == name@,
                None => !self@.contains(name@),
            },
    {
        let mut i: usize = 0;
        while i < self.keys.len()
            invariant
                i <= self.keys@.len(),
                forall|q: int| 0 <= q < i ==> #[trigger] self.names()[q] != name@,
            decreases self.keys@.len() - i,
        {
            if self.keys[i] == *name {
                return Some(i);
            }
            i = i + 1;
        }
        assert forall|x: Seq<char>| #[trigger] self@.contains(x) implies x != name@ by {
            let q = choose|q: int| 0 <= q < self.names().len() && self.names()[q] == x;
            assert(self.names()[q] != name@);
        }
        None
    }

    /// Records that `key` went down; keys are held by their lower-case names.
    pub fn press(&mut self, key: &str)
        requires
            old(self).wf(),
        ensures
            final(self).wf(),
            final(self)@ == old(self)@.insert(lower_of(key@)),
    {
        let name = lowercase(key);
        match self.position(&name) {
            Some(_) => {
                assert(self@.contains(name@));
                assert(self@ =~= self@.insert(name@));
            },
            None => {
                let ghost before = self.names();
                self.keys.push(name);
                assert(self.names() =~= before.push(name@));
                assert(self@ =~= before.to_set().insert(name@)) by {
                    assert forall|x: Seq<char>| #[trigger] self@.contains(x) <==> before.to_set().insert(
                        name@,
                    ).contains(x) by {
                        if before.to_set().contains(x) {
                            let q = choose|q: int| 0 <= q < before.len() && before[q] == x;
                            assert(self.names()[q] == x);
                        }
                        if x == name@ {
                            assert(self.names()[before.len() as int] == x);
                        }
                    }
                }
            },
        }
    }

    /// Records that `key` went up; keys are held by their lower-case names.
    pub fn release(&mut self, key: &str)
        requires
            old(self).wf(),
        ensures
            final(self).wf(),
            final(self)@ == old(self)@.remove(lower_of(key@)),
    {
        let name = lowercase(key);
        match self.position(&name) {
            Some(i) => {
                let ghost before = self.names();
                self.keys.remove(i);
                assert(self.names() =~= before.remove(i as int));
                assert(self@ =~= before.to_set().remove(name@)) by {
                    assert forall|x: Seq<char>| #[trigger] self@.contains(x) <==> before.to_set().remove(
                        name@,
                    ).contains(x) by {
                        if self@.contains(x) {
                            let q = choose|q: int| 0 <= q < self.names().len() && self.names()[q] == x;
                            if q < i {
                                assert(before[q] == x);
                            } else {
                                assert(before[q + 1] == x);
                            }
                        }
                        if before.to_set().remove(name@).contains(x) {
                            let q = choose|q: int| 0 <= q < before.len() && before[q] == x;
                            if q < i {
                                assert(self.names()[q] == x);
                            } else {
                                assert(q != i);
                                assert(self.names()[q - 1] == x);
                            }
                        }
                    }
                }
            },
            None => {
                assert(self@ =~= self@.remove(name@));
            },
        }
    }

    /// Whether the key named exactly `name` is held.
    pub fn is_held(&self, name: &str) -> (r: bool)
        requires
            self.wf(),
        ensures
            r == self@.contains(name@),
    {
        let name = name.to_owned();
        self.position(&name).is_some()
    }
}

/// The camera motions a tick performs for the held keys: `a`/`d` strafe left/right, `w`/`s`
/// move forward/backward, space and shift rise and sink. These apply only while the pointer is
/// locked to the view; `r` asks for a scene reset in any case.
pub fn movement(keys: &HeldKeys, pointer_locked: bool) -> (r: Movement)
    requires
        keys.wf(),
    ensures
        r.left == (pointer_locked && keys@.contains("a"@)),
        r.right == (pointer_locked && keys@.contains("d"@)),
        r.forward == (pointer_locked && keys@.contains("w"@)),
        r.backward == (pointer_locked && keys@.contains("s"@)),
        r.up == (pointer_locked && keys@.contains(" "@)),
        r.down == (pointer_locked && keys@.contains("shift"@)),
        r.reset == keys@.contains("r"@),
{
    Movement {
        left: pointer_locked && keys.is_held("a"),
        right: pointer_locked && keys.is_held("d"),
        forward: pointer_locked && keys.is_held("w"),
        backward: pointer_locked && keys.is_held("s"),
        up: pointer_locked && keys.is_held(" "),
        down: pointer_locked && keys.is_held("shift"),
        reset: keys.is_held("r"),
    }
}

} // verus!
