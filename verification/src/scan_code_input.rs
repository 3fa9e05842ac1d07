//! Which keys are held down, and which were pressed or released since the state was
//! last cleared, tracked by scan code.
use crate::scan_code::{spec_from_u32, ScanCode};
use vstd::prelude::*;

verus! {

/// A set of keys, each held once.
pub struct KeySet {
    keys: Vec<ScanCode>,
}

impl View for KeySet {
    type V = Set<ScanCode>;

    closed spec fn view(&self) -> Set<ScanCode> {
        self.keys@.to_set()
    }
}

impl KeySet {
    /// Each key is held once.
    pub closed spec fn wf(&self) -> bool {
        self.keys@.no_duplicates()
    }

    /// An empty set.
    pub fn new() -> (s: Self)
        ensures
            s.wf(),
            s@ == Set::<ScanCode>::empty(),
    {
        let s = KeySet { keys: Vec::new() };
        assert(s.keys@.to_set() =~= Set::<ScanCode>::empty());
        s
    }

    fn position(&self, key: ScanCode) -> (i: Option<usize>)
        ensures
            match i {
                Some(i) => i < self.keys@.len() && self.keys@[i as int] == key,
                None => !self.keys@.contains(key),
            },
    {
        let mut i: usize = 0;
        while i < self.keys.len()
            invariant
                i <= self.keys@.len(),
                forall|j: int| 0 <= j < i ==> self.keys@[j] != key,
            decreases self.keys@.len() - i,
        {
            if self.keys[i] == key {
                return Some(i);
            }
            i = i + 1;
        }
        None
    }

    /// Whether `key` is in the set.
    pub fn contains(&self, key: ScanCode) -> (b: bool)
        ensures
            b == self@.contains(key),
    {
        self.position(key).is_some()
    }

    /// Adds `key`; returns whether it was missing before.
    pub fn insert(&mut self, key: ScanCode) -> (added: bool)
        requires
            old(self).wf(),
        ensures
            final(self).wf(),
            final(self)@ == old(self)@.insert(key),
            added == !old(self)@.contains(key),
    {
        if self.position(key).is_some() {
            assert(self.keys@.to_set().insert(key) =~= self.keys@.to_set());
            false
        } else {
            let ghost before = self.keys@;
            self.keys.push(key);
            proof {
                assert(self.keys@ == before.push(key));
                before.lemma_push_to_set_commute(key);
                assert forall|a: int, b: int|
                    0 <= a < self.keys@.len() && 0 <= b < self.keys@.len() && a != b implies
                    self.keys@[a] != self.keys@[b] by {
                    if a == before.len() as int {
                        assert(!before.contains(key));
                        assert(self.keys@[b] == before[b]);
                    } else if b == before.len() as int {
                        assert(!before.contains(key));
                        assert(self.keys@[a] == before[a]);
                    }
                }
            }
            true
        }
    }

    /// Takes `key` out; returns whether it was there.
    pub fn remove(&mut self, key: ScanCode) -> (removed: bool)
        requires
            old(self).wf(),
        ensures
            final(self).wf(),
            final(self)@ == old(self)@.remove(key),
            removed == old(self)@.contains(key),
    {
        match self.position(key) {
            None => {
                assert(self.keys@.to_set().remove(key) =~= self.keys@.to_set());
                false
            },
            Some(i) => {
                let ghost before = self.keys@;
                self.keys.remove(i);
                proof {
                    assert(self.keys@ == before.remove(i as int));
                    assert forall|x: ScanCode| self.keys@.contains(x) <==> (before.contains(x)
                        && x != key) by {
                        if self.keys@.contains(x) {
                            let j = choose|j: int| 0 <= j < self.keys@.len() && self.keys@[j] == x;
                            if j < i {
                                assert(before[j] == x);
                                assert(j != i);
                            } else {
                                assert(before[j + 1] == x);
                                assert(j + 1 != i);
                            }
                        }
                        if before.contains(x) && x != key {
                            let j = choose|j: int| 0 <= j < before.len() && before[j] == x;
                            assert(j != i);
                            if j < i {
                                assert(self.keys@[j] == x);
                            } else {
                                assert(self.keys@[j - 1] == x);
                            }
                        }
                    }
                    assert(self.keys@.to_set() =~= before.to_set().remove(key));
                    assert forall|a: int, b: int|
                        0 <= a < self.keys@.len() && 0 <= b < self.keys@.len() && a != b implies
                        self.keys@[a] != self.keys@[b] by {
                        let oa = if a < i { a } else { a + 1 };
                        let ob = if b < i { b } else { b + 1 };
                        assert(self.keys@[a] == before[oa]);
                        assert(self.keys@[b] == before[ob]);
                    }
                }
                true
            },
        }
    }

    /// Empties the set.
    pub fn clear(&mut self)
        requires
            old(self).wf(),
        ensures
            final(self).wf(),
            final(self)@ == Set::<ScanCode>::empty(),
    {
        self.keys = Vec::new();
        assert(self.keys@.to_set() =~= Set::<ScanCode>::empty());
    }

    /// The keys in the set, each once, in no particular order.
    pub fn to_vec(&self) -> (v: Vec<ScanCode>)
        requires
            self.wf(),
        ensures
            v@.to_set() == self@,
            v@.no_duplicates(),
    {
        self.keys.clone()
    }
}

/// The abstract state of a [`ScanCodeInput`].
#[verifier::ext_equal]
pub struct InputState {
    pub pressed: Set<ScanCode>,
    pub just_pressed: Set<ScanCode>,
    pub just_released: Set<ScanCode>,
}

/// The state after a press of `k`: it is held, and just pressed unless it was held
/// already.
pub open spec fn press_spec(s: InputState, k: ScanCode) -> InputState {
    InputState {
        pressed: s.pressed.insert(k),
        just_pressed: if s.pressed.contains(k) {
            s.just_pressed
        } else {
            s.just_pressed.insert(k)
        },
        just_released: s.just_released,
    }
}

/// The state after a release of `k`: it is no longer held, and just released.
pub open spec fn release_spec(s: InputState, k: ScanCode) -> InputState {
    InputState {
        pressed: s.pressed.remove(k),
        just_pressed: s.just_pressed,
        just_released: s.just_released.insert(k),
    }
}

/// A key going down or up, as the keyboard reports it.
#[derive(Clone, Copy, Debug, PartialEq, Eq, Structural)]
pub struct KeyboardEvent {
    pub scan_code: u32,
    pub pressed: bool,
}

/// The state after the events, in order; events with an unknown code are skipped.
pub open spec fn apply_events(s: InputState, events: Seq<KeyboardEvent>) -> InputState
    decreases events.len(),
{
    if events.len() == 0 {
        s
    } else {
        let e = events.last();
        let before = apply_events(s, events.drop_last());
        match spec_from_u32(e.scan_code) {
            Some(k) => if e.pressed {
                press_spec(before, k)
            } else {
                release_spec(before, k)
            },
            None => before,
        }
    }
}

/// The codes, in order, of the events that name no known key.
pub open spec fn unknown_codes(events: Seq<KeyboardEvent>) -> Seq<u32>
    decreases events.len(),
{
    if events.len() == 0 {
        Seq::empty()
    } else {
        let e = events.last();
        let before = unknown_codes(events.drop_last());
        if spec_from_u32(e.scan_code) is None {
            before.push(e.scan_code)
        } else {
            before
        }
    }
}

/// Keyboard state by scan code.
pub struct ScanCodeInput {
    pressed: KeySet,
    just_pressed: KeySet,
    just_released: KeySet,
}

impl View for ScanCodeInput {
    type V = InputState;

    closed spec fn view(&self) -> InputState {
        InputState {
            pressed: self.pressed@,
            just_pressed: self.just_pressed@,
            just_released: self.just_released@,
        }
    }
}

impl ScanCodeInput {
    /// Each of the three sets holds each key once.
    pub closed spec fn wf(&self) -> bool {
        &&& self.pressed.wf()
        &&& self.just_pressed.wf()
        &&& self.just_released.wf()
    }

    /// No key pressed or released.
    pub fn new() -> (s: Self)
        ensures
            s.wf(),
            s@.pressed == Set::<ScanCode>::empty(),
            s@.just_pressed == Set::<ScanCode>::empty(),
            s@.just_released == Set::<ScanCode>::empty(),
    {
        ScanCodeInput { pressed: KeySet::new(), just_pressed: KeySet::new(),
            just_released: KeySet::new() }
    }

    /// Register a press for input `input`.
    pub fn press(&mut self, input: ScanCode)
        requires
            old(self).wf(),
        ensures
            final(self).wf(),
            final(self)@ == press_spec(old(self)@, input),
    {
        if !self.pressed(input) {
            self.just_pressed.insert(input);
        }
        self.pressed.insert(input);
        assert(self@ =~= press_spec(old(self)@, input));
    }

    /// Check if `input` has been pressed.
    pub fn pressed(&self, input: ScanCode) -> (b: bool)
        ensures
            b == self@.pressed.contains(input),
    {
        self.pressed.contains(input)
    }

    /// Register a release for input `input`.
    pub fn release(&mut self, input: ScanCode)
        requires
            old(self).wf(),
        ensures
            final(self).wf(),
            final(self)@ == release_spec(old(self)@, input),
    {
        self.pressed.remove(input);
        self.just_released.insert(input);
        assert(self@ =~= release_spec(old(self)@, input));
    }

    /// Check if `input` has been just pressed.
    pub fn just_pressed(&self, input: ScanCode) -> (b: bool)
        ensures
            b == self@.just_pressed.contains(input),
    {
        self.just_pressed.contains(input)
    }

    /// Clear the "just pressed" state of `input`. Future calls to `just_pressed` for the
    /// given input will return false until a new press event occurs.
    /// Returns true if `input` is currently "just pressed".
    pub fn clear_just_pressed(&mut self, input: ScanCode) -> (was: bool)
        requires
            old(self).wf(),
        ensures
            final(self).wf(),
            was == old(self)@.just_pressed.contains(input),
            final(self)@.pressed == old(self)@.pressed,
            final(self)@.just_pressed == old(self)@.just_pressed.remove(input),
            final(self)@.just_released == old(self)@.just_released,
    {
        self.just_pressed.remove(input)
    }

    /// Check if `input` has been just released.
    pub fn just_released(&self, input: ScanCode) -> (b: bool)
        ensures
            b == self@.just_released.contains(input),
    {
        self.just_released.contains(input)
    }

    /// Clear the "just released" state of `input`. Future calls to `just_released` for
    /// the given input will return false until a new release event occurs.
    /// Returns true if `input` is currently "just released".
    pub fn clear_just_released(&mut self, input: ScanCode) -> (was: bool)
        requires
            old(self).wf(),
        ensures
            final(self).wf(),
            was == old(self)@.just_released.contains(input),
            final(self)@.pressed == old(self)@.pressed,
            final(self)@.just_pressed == old(self)@.just_pressed,
            final(self)@.just_released == old(self)@.just_released.remove(input),
    {
        self.just_released.remove(input)
    }

    /// Reset all status for input `input`.
    pub fn reset(&mut self, input: ScanCode)
        requires
            old(self).wf(),
        ensures
            final(self).wf(),
            final(self)@.pressed == old(self)@.pressed.remove(input),
            final(self)@.just_pressed == old(self)@.just_pressed.remove(input),
            final(self)@.just_released == old(self)@.just_released.remove(input),
    {
        self.pressed.remove(input);
        self.just_pressed.remove(input);
        self.just_released.remove(input);
    }

    /// Reset the status for all `ScanCode`s in `input`.
    pub fn reset_vec(&mut self, input: Vec<ScanCode>)
        requires
            old(self).wf(),
        ensures
            final(self).wf(),
            final(self)@.pressed == old(self)@.pressed.difference(input@.to_set()),
            final(self)@.just_pressed == old(self)@.just_pressed.difference(input@.to_set()),
            final(self)@.just_released == old(self)@.just_released.difference(input@.to_set()),
    {
        let mut i: usize = 0;
        while i < input.len()
            invariant
                i <= input@.len(),
                self@.pressed == old(self)@.pressed.difference(input@.take(i as int).to_set()),
                self@.just_pressed == old(self)@.just_pressed.difference(
                    input@.take(i as int).to_set(),
                ),
                self@.just_released == old(self)@.just_released.difference(
                    input@.take(i as int).to_set(),
                ),
                self.wf(),
            decreases input@.len() - i,
        {
            let scan_code = input[i];
            self.reset(scan_code);
            proof {
                assert(input@.take(i as int + 1) =~= input@.take(i as int).push(scan_code));
                input@.take(i as int).lemma_push_to_set_commute(scan_code);
                assert(self@.pressed =~= old(self)@.pressed.difference(
                    input@.take(i as int + 1).to_set(),
                ));
                assert(self@.just_pressed =~= old(self)@.just_pressed.difference(
                    input@.take(i as int + 1).to_set(),
                ));
                assert(self@.just_released =~= old(self)@.just_released.difference(
                    input@.take(i as int + 1).to_set(),
                ));
            }
            i = i + 1;
        }
        assert(input@.take(input@.len() as int) =~= input@);
    }

    /// Clear just pressed and just released information.
    pub fn clear(&mut self)
        requires
            old(self).wf(),
        ensures
            final(self).wf(),
            final(self)@.pressed == old(self)@.pressed,
            final(self)@.just_pressed == Set::<ScanCode>::empty(),
            final(self)@.just_released == Set::<ScanCode>::empty(),
    {
        self.just_pressed.clear();
        self.just_released.clear();
    }

    /// Starts a frame: forgets what was just pressed and released, then takes in the
    /// keyboard events of the frame in order. Returns the codes that name no known key.
    pub fn grab_input(&mut self, events: &Vec<KeyboardEvent>) -> (unknown: Vec<u32>)
        requires
            old(self).wf(),
        ensures
            final(self).wf(),
            final(self)@ == apply_events(
                InputState {
                    just_pressed: Set::empty(),
                    just_released: Set::empty(),
                    ..old(self)@
                },
                events@,
            ),
            unknown@ == unknown_codes(events@),
    {
        self.clear();
        let ghost start = self@;
        assert(start =~= InputState {
            just_pressed: Set::empty(),
            just_released: Set::empty(),
            ..old(self)@
        });
        let mut unknown: Vec<u32> = Vec::new();
        let mut i: usize = 0;
        while i < events.len()
            invariant
                i <= events@.len(),
                self.wf(),
                self@ == apply_events(start, events@.take(i as int)),
                unknown@ == unknown_codes(events@.take(i as int)),
            decreases events@.len() - i,
        {
            let e = events[i];
            match ScanCode::from_u32(e.scan_code) {
                Some(k) => if e.pressed {
                    self.press(k);
                } else {
                    self.release(k);
                },
                None => {
                    unknown.push(e.scan_code);
                },
            }
            assert(events@.take(i as int + 1).drop_last() =~= events@.take(i as int));
            i = i + 1;
        }
        assert(events@.take(events@.len() as int) =~= events@);
        unknown
    }

    /// List all inputs that are pressed.
    pub fn get_pressed(&self) -> (v: Vec<ScanCode>)
        requires
            self.wf(),
        ensures
            v@.to_set() == self@.pressed,
            v@.no_duplicates(),
    {
        self.pressed.to_vec()
    }

    /// List all inputs that are just pressed.
    pub fn get_just_pressed(&self) -> (v: Vec<ScanCode>)
        requires
            self.wf(),
        ensures
            v@.to_set() == self@.just_pressed,
            v@.no_duplicates(),
    {
        self.just_pressed.to_vec()
    }

    /// List all inputs that are just released.
    pub fn get_just_released(&self) -> (v: Vec<ScanCode>)
        requires
            self.wf(),
        ensures
            v@.to_set() == self@.just_released,
            v@.no_duplicates(),
    {
        self.just_released.to_vec()
    }
}

/// Pressing a key that is held changes nothing: a held key is not "just pressed"
/// again by a repeated press.
pub proof fn lemma_press_twice(s: InputState, k: ScanCode)
    ensures
        press_spec(press_spec(s, k), k) == press_spec(s, k),
{
    assert(press_spec(press_spec(s, k), k) =~= press_spec(s, k));
}

/// A press followed by a release of a key that was not held leaves the held keys as
/// they were, and the key counts as both just pressed and just released.
pub proof fn lemma_press_then_release(s: InputState, k: ScanCode)
    requires
        !s.pressed.contains(k),
    ensures
        ({
            let t = release_spec(press_spec(s, k), k);
            &&& t.pressed == s.pressed
            &&& t.just_pressed == s.just_pressed.insert(k)
            &&& t.just_released == s.just_released.insert(k)
        }),
{
    assert(release_spec(press_spec(s, k), k).pressed =~= s.pressed);
}

} // verus!
