use vstd::prelude::*;

verus! {

/// Number of keys on the hexadecimal keypad.
pub const NUM_KEYS: usize = 16;

/// The lowest-numbered key at or above `from` that is down, if any.
pub open spec fn first_key_down(keys: Seq<bool>, from: int) -> Option<int>
    decreases NUM_KEYS - from,
{
    if from < 0 || from >= NUM_KEYS {
        None
    } else if keys[from] {
        Some(from)
    } else {
        first_key_down(keys, from + 1)
    }
}

/// The down/up state of the sixteen logical keys 0x0 to 0xF.
pub struct Keyboard {
    pub keyboard: [bool; NUM_KEYS],
}

impl Keyboard {
    pub open spec fn view(&self) -> Seq<bool> {
        self.keyboard@
    }

    /// A keypad with every key up.
    pub fn new() -> (r: Self)
        ensures
            r@ == Seq::new(NUM_KEYS as nat, |k: int| false),
    {
        let r = Keyboard { keyboard: [false; NUM_KEYS] };
        assert(r@ =~= Seq::new(NUM_KEYS as nat, |k: int| false));
        r
    }

    pub fn key_down(&mut self, key: usize)
        requires
            key < NUM_KEYS,
        ensures
            final(self)@ == old(self)@.update(key as int, true),
    {
        self.toggle_key(key, true);
    }

    pub fn key_up(&mut self, key: usize)
        requires
            key < NUM_KEYS,
        ensures
            final(self)@ == old(self)@.update(key as int, false),
    {
        self.toggle_key(key, false);
    }

    /// Records `key` as down or up; a key outside the keypad is ignored.
    pub fn toggle_key(&mut self, key: usize, is_down: bool)
        ensures
            key < NUM_KEYS ==> final(self)@ == old(self)@.update(key as int, is_down),
            key >= NUM_KEYS ==> final(self)@ == old(self)@,
    {
        if key < NUM_KEYS {
            self.keyboard[key] = is_down;
        }
    }

    pub fn is_key_down(&self, key: usize) -> (r: bool)
        requires
            key < NUM_KEYS,
        ensures
            r == self@[key as int],
    {
        self.keyboard[key]
    }

    /// The lowest-numbered key that is down, if any.
    pub fn first_key_down(&self) -> (r: Option<u8>)
        ensures
            r matches Some(k) ==> first_key_down(self@, 0) == Some(k as int),
            r is None ==> first_key_down(self@, 0) is None,
    {
        let mut found: Option<u8> = None;
        let mut i: usize = NUM_KEYS;
        while i > 0
            invariant
                i <= NUM_KEYS,
                found matches Some(j) ==> first_key_down(self@, i as int) == Some(j as int),
                found is None ==> first_key_down(self@, i as int) is None,
            decreases i,
        {
            i -= 1;
            if self.keyboard[i] {
                found = Some(i as u8);
            }
        }
        found
    }
}

} // verus!
