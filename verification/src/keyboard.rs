//! Keyboard input: the keys the game reads and the bindings that turn key
//! presses into digit-entry events.
//!
//! Which physical key produces which `KeyCode` is configuration owned by the
//! input collaborator; this module only decides what each code means.

use vstd::prelude::*;
use crate::assoc::{
    lemma_assoc_push, lemma_assoc_update, lemma_unique_push, lemma_unique_update, spec_assoc,
    unique_keys,
};

verus! {

/// The keys the game logic reads, as plain values.
#[derive(Clone, Copy, PartialEq, Eq, Structural, Hash, Debug)]
pub enum KeyCode {
    Key1,
    Key2,
    Key3,
    Key4,
    Key5,
    Key6,
    Key7,
    Key8,
    Key9,
    Numpad1,
    Numpad2,
    Numpad3,
    Numpad4,
    Numpad5,
    Numpad6,
    Numpad7,
    Numpad8,
    Numpad9,
    Q,
    W,
    E,
    A,
    Delete,
    Back,
    LShift,
    RShift,
    LControl,
    RControl,
}

/// `k` occurs somewhere in `keys`.
pub open spec fn key_in(keys: Seq<KeyCode>, k: KeyCode) -> bool {
    exists|i: int| 0 <= i < keys.len() && keys[i] == k
}

/// Whether one of the keys pressed is `wanted`.
pub fn contains_key(keys: &Vec<KeyCode>, wanted: KeyCode) -> (b: bool)
    ensures
        b == key_in(keys@, wanted),
{
    let mut i: usize = 0;
    while i < keys.len()
        invariant
            0 <= i <= keys.len(),
            forall|j: int| 0 <= j < i ==> keys@[j] != wanted,
        decreases keys.len() - i,
    {
        if keys[i] == wanted {
            return true;
        }
        i = i + 1;
    }
    false
}

/// Events that change the value stored in a cell
#[derive(Clone, Copy, PartialEq, Eq, Structural, Debug)]
pub struct CellInput {
    pub num: u8,
}

/// The digit bindings of the standard layout: the number row and the numpad
/// each map to the digits 1 through 9, and no other key enters a digit.
pub open spec fn spec_default_binding(k: KeyCode) -> Option<u8> {
    match k {
        KeyCode::Key1 => Option::Some(1u8),
        KeyCode::Key2 => Option::Some(2u8),
        KeyCode::Key3 => Option::Some(3u8),
        KeyCode::Key4 => Option::Some(4u8),
        KeyCode::Key5 => Option::Some(5u8),
        KeyCode::Key6 => Option::Some(6u8),
        KeyCode::Key7 => Option::Some(7u8),
        KeyCode::Key8 => Option::Some(8u8),
        KeyCode::Key9 => Option::Some(9u8),
        KeyCode::Numpad1 => Option::Some(1u8),
        KeyCode::Numpad2 => Option::Some(2u8),
        KeyCode::Numpad3 => Option::Some(3u8),
        KeyCode::Numpad4 => Option::Some(4u8),
        KeyCode::Numpad5 => Option::Some(5u8),
        KeyCode::Numpad6 => Option::Some(6u8),
        KeyCode::Numpad7 => Option::Some(7u8),
        KeyCode::Numpad8 => Option::Some(8u8),
        KeyCode::Numpad9 => Option::Some(9u8),
        _ => Option::None,
    }
}

/// Contains keybindings for converting key presses into numbers
pub struct CellInputMap {
    map: Vec<(KeyCode, u8)>,
}

impl CellInputMap {
    /// The bindings, one entry per bound key.
    pub closed spec fn entries(self) -> Seq<(KeyCode, u8)> {
        self.map@
    }

    /// The digit bound to `k`, if any.
    pub open spec fn spec_get(self, k: KeyCode) -> Option<u8> {
        spec_assoc(self.entries(), k)
    }

    /// Each key is bound at most once, and only to digits.
    pub open spec fn wf(self) -> bool {
        &&& unique_keys(self.entries())
        &&& forall|i: int| 0 <= i < self.entries().len() ==> 1 <= (#[trigger] self.entries()[i]).1
            <= 9
    }

    /// A map with no bindings.
    pub fn new() -> (r: CellInputMap)
        ensures
            r.wf(),
            r.entries().len() == 0,
    {
        CellInputMap { map: Vec::new() }
    }

    /// Binds `k` to the digit `v`, replacing any previous binding of `k`.
    #[verifier::loop_isolation(false)]
    fn insert(&mut self, k: KeyCode, v: u8)
        requires
            old(self).wf(),
            1 <= v <= 9,
        ensures
            final(self).wf(),
            final(self).spec_get(k) == Option::Some(v),
            forall|q: KeyCode|
                q != k ==> #[trigger] final(self).spec_get(q) == old(self).spec_get(q),
    {
        let ghost s = old(self).entries();
        let mut i: usize = 0;
        while i < self.map.len()
            invariant
                self.entries() == s,
                self.map@ == s,
                0 <= i <= s.len(),
                forall|j: int| 0 <= j < i ==> (#[trigger] s[j]).0 != k,
            decreases s.len() - i,
        {
            if self.map[i].0 == k {
                self.map.set(i, (k, v));
                proof {
                    assert(self.entries() == s.update(i as int, (k, v)));
                    lemma_unique_update(s, i as int, k, v);
                    lemma_assoc_update(s, i as int, k, v, k);
                    assert forall|q: KeyCode| q != k implies #[trigger] spec_assoc(
                        self.entries(), q) == spec_assoc(s, q) by {
                        lemma_assoc_update(s, i as int, k, v, q);
                    }
                }
                return ;
            }
            i = i + 1;
        }
        self.map.push((k, v));
        proof {
            assert(self.entries() == s.push((k, v)));
            lemma_unique_push(s, k, v);
            lemma_assoc_push(s, k, v, k);
            assert forall|q: KeyCode| q != k implies #[trigger] spec_assoc(self.entries(), q)
                == spec_assoc(s, q) by {
                lemma_assoc_push(s, k, v, q);
            }
        }
    }

    /// The digit bound to `k`, if any.
    #[verifier::loop_isolation(false)]
    fn get(&self, k: &KeyCode) -> (r: Option<u8>)
        ensures
            r == self.spec_get(*k),
            self.wf() ==> (r matches Some(v) ==> 1 <= v <= 9),
    {
        proof {
            assert(self.map@.skip(0) =~= self.map@);
        }
        let mut i: usize = 0;
        while i < self.map.len()
            invariant
                0 <= i <= self.map.len(),
                spec_assoc(self.map@, *k) == spec_assoc(self.map@.skip(i as int), *k),
            decreases self.map.len() - i,
        {
            let entry = self.map[i];
            proof {
                assert(self.map@.skip(i as int)[0] == self.map@[i as int]);
            }
            if entry.0 == *k {
                return Some(entry.1);
            }
            proof {
                assert(self.map@.skip(i as int).drop_first() =~= self.map@.skip(i as int + 1));
            }
            i = i + 1;
        }
        None
    }
}

impl Default for CellInputMap {
    /// The standard layout: number row and numpad bound to the digits.
    fn default() -> (r: Self)
        ensures
            r.wf(),
            forall|k: KeyCode| #[trigger] r.spec_get(k) == spec_default_binding(k),
    {
        let mut input_map = CellInputMap::new();

        // Numbers above the letters
        input_map.insert(KeyCode::Key1, 1);
        input_map.insert(KeyCode::Key2, 2);
        input_map.insert(KeyCode::Key3, 3);
        input_map.insert(KeyCode::Key4, 4);
        input_map.insert(KeyCode::Key5, 5);
        input_map.insert(KeyCode::Key6, 6);
        input_map.insert(KeyCode::Key7, 7);
        input_map.insert(KeyCode::Key8, 8);
        input_map.insert(KeyCode::Key9, 9);

        // Numpad
        input_map.insert(KeyCode::Numpad1, 1);
        input_map.insert(KeyCode::Numpad2, 2);
        input_map.insert(KeyCode::Numpad3, 3);
        input_map.insert(KeyCode::Numpad4, 4);
        input_map.insert(KeyCode::Numpad5, 5);
        input_map.insert(KeyCode::Numpad6, 6);
        input_map.insert(KeyCode::Numpad7, 7);
        input_map.insert(KeyCode::Numpad8, 8);
        input_map.insert(KeyCode::Numpad9, 9);

        input_map
    }
}

/// The digit-entry events a batch of just-pressed keys produces, in order:
/// each bound key contributes its digit, unbound keys contribute nothing.
pub open spec fn spec_cell_inputs(m: CellInputMap, keys: Seq<KeyCode>) -> Seq<CellInput>
    decreases keys.len(),
{
    if keys.len() == 0 {
        Seq::empty()
    } else {
        spec_cell_inputs(m, keys.drop_last()) + match m.spec_get(keys.last()) {
            Option::Some(num) => seq![CellInput { num }],
            Option::None => Seq::empty(),
        }
    }
}

/// Send `CellInput` events based on keyboard input
#[verifier::loop_isolation(false)]
pub fn cell_keyboard_input(input_map: &CellInputMap, just_pressed: &Vec<KeyCode>) -> (events: Vec<
    CellInput,
>)
    requires
        input_map.wf(),
    ensures
        events@ == spec_cell_inputs(*input_map, just_pressed@),
        forall|j: int| 0 <= j < events@.len() ==> 1 <= (#[trigger] events@[j]).num <= 9,
{
    let mut events: Vec<CellInput> = Vec::new();
    proof {
        assert(just_pressed@.take(0) =~= Seq::<KeyCode>::empty());
    }
    let mut i: usize = 0;
    while i < just_pressed.len()
        invariant
            0 <= i <= just_pressed.len(),
            events@ == spec_cell_inputs(*input_map, just_pressed@.take(i as int)),
            forall|j: int| 0 <= j < events@.len() ==> 1 <= (#[trigger] events@[j]).num <= 9,
        decreases just_pressed.len() - i,
    {
        let key_code = just_pressed[i];
        let maybe_value = input_map.get(&key_code);

        if let Some(value) = maybe_value {
            events.push(CellInput { num: value });
        }
        proof {
            let t = just_pressed@.take(i as int + 1);
            assert(t.last() == just_pressed@[i as int]);
            assert(t.drop_last() =~= just_pressed@.take(i as int));
        }
        i = i + 1;
    }
    proof {
        assert(just_pressed@.take(just_pressed@.len() as int) =~= just_pressed@);
    }
    events
}

} // verus!
