use vstd::prelude::*;

verus! {

/// The state of the sixteen keys of the hex keypad, by key number. On a
/// keyboard they are laid out as `1 2 3 4 / q w e r / a s d f / z x c v`:
/// key `k` is the `k`-th of these, in reading order.
#[derive(Clone, Copy)]
pub struct Keys {
    pub pressed: [bool; 16],
}

impl View for Keys {
    type V = Seq<bool>;

    /// Whether each key of the keypad is held down, by key number.
    open spec fn view(&self) -> Seq<bool> {
        self.pressed@
    }
}

/// What `check_key` answers for a key number: the state of that key, and for
/// a number past the keypad the state of key 0.
pub open spec fn key_state(keys: Seq<bool>, key: u8) -> bool {
    if key < 16 { keys[key as int] } else { keys[0] }
}

impl Keys {
    /// A keypad with no key held down.
    pub fn new() -> (keys: Keys)
        ensures
            keys@ == Seq::new(16, |i: int| false),
    {
        let keys = Keys { pressed: [false; 16] };
        assert(keys@ =~= Seq::new(16, |i: int| false));
        keys
    }

    /// Whether key `key` is held down; a number past the keypad reads key 0.
    pub fn check_key(&self, key: u8) -> (pressed: bool)
        ensures
            pressed == key_state(self@, key),
    {
        if key < 16 {
            self.pressed[key as usize]
        } else {
            self.pressed[0]
        }
    }

    /// Records that key `key` went down (`pressed`) or up; a number past the
    /// keypad changes nothing.
    pub fn set_key(&mut self, key: u8, pressed: bool)
        ensures
            final(self)@ == (if key < 16 { old(self)@.update(key as int, pressed) } else { old(self)@ }),
    {
        if key < 16 {
            self.pressed[key as usize] = pressed;
        }
    }
}

/// A key recorded by `set_key` reads back, through `check_key`, as recorded,
/// and every other key reads as before.
pub proof fn law_key_read_after_write(keys: Seq<bool>, key: u8, pressed: bool, other: u8)
    requires
        keys.len() == 16,
        key < 16,
        other < 16,
        other != key,
    ensures
        key_state(keys.update(key as int, pressed), key) == pressed,
        key_state(keys.update(key as int, pressed), other) == key_state(keys, other),
{
}

/// The lowest-numbered key from `k` on that is held down, if any.
pub open spec fn first_down_from(keys: Seq<bool>, k: int) -> Option<u8>
    decreases 16 - k,
{
    if k >= 16 || k < 0 {
        None
    } else if keys[k] {
        Some(k as u8)
    } else {
        first_down_from(keys, k + 1)
    }
}

/// The lowest-numbered key that is held down, if any.
pub open spec fn first_key_down(keys: Seq<bool>) -> Option<u8> {
    first_down_from(keys, 0)
}

/// A keyboard event, as the machine sees it: a keypad key going down or up,
/// or a request to quit.
#[derive(Clone, Copy, Debug, PartialEq, Eq, Structural)]
pub enum KeyEvent {
    Down(u8),
    Up(u8),
    Quit,
}

/// The keypad after the events of `events`, taken in order, and whether a
/// quit request came among them; events after a quit request are not taken.
pub open spec fn apply_events(keys: Seq<bool>, events: Seq<KeyEvent>) -> (Seq<bool>, bool)
    decreases events.len(),
{
    if events.len() == 0 {
        (keys, false)
    } else {
        let prev = apply_events(keys, events.drop_last());
        if prev.1 {
            prev
        } else {
            match events.last() {
                KeyEvent::Down(k) => (if k < 16 { prev.0.update(k as int, true) } else { prev.0 }, false),
                KeyEvent::Up(k) => (if k < 16 { prev.0.update(k as int, false) } else { prev.0 }, false),
                KeyEvent::Quit => (prev.0, true),
            }
        }
    }
}

/// The state of key `k` that the last event for it in `events` left, or its
/// state in `keys` where no event names it.
pub open spec fn last_event_state(keys: Seq<bool>, events: Seq<KeyEvent>, k: int) -> bool
    decreases events.len(),
{
    if events.len() == 0 {
        keys[k]
    } else {
        match events.last() {
            KeyEvent::Down(j) if j == k => true,
            KeyEvent::Up(j) if j == k => false,
            _ => last_event_state(keys, events.drop_last(), k),
        }
    }
}

/// Where no quit request comes, every key reads, after a stream of events,
/// as the last press or release of that key left it, and keys that no event
/// names read as before.
pub proof fn law_keys_follow_last_event(keys: Seq<bool>, events: Seq<KeyEvent>, k: int)
    requires
        keys.len() == 16,
        0 <= k < 16,
        forall|i: int| 0 <= i < events.len() ==> events[i] != KeyEvent::Quit,
    ensures
        !apply_events(keys, events).1,
        apply_events(keys, events).0.len() == 16,
        apply_events(keys, events).0[k] == last_event_state(keys, events, k),
    decreases events.len(),
{
    if events.len() > 0 {
        let rest = events.drop_last();
        assert forall|i: int| 0 <= i < rest.len() implies rest[i] != KeyEvent::Quit by {
            assert(rest[i] == events[i]);
        }
        law_keys_follow_last_event(keys, rest, k);
        assert(events.last() == events[events.len() - 1]);
    }
}

impl Keys {
    /// The lowest-numbered key that is held down, if any.
    pub fn first_key_down(&self) -> (key: Option<u8>)
        ensures
            key == first_key_down(self@),
    {
        let mut k: u8 = 0;
        while k < 16
            invariant
                k <= 16,
                self@.len() == 16,
                first_down_from(self@, 0) == first_down_from(self@, k as int),
            decreases 16 - k,
        {
            if self.pressed[k as usize] {
                return Some(k);
            }
            k = k + 1;
        }
        None
    }

    /// Takes the events of `events` in order, up to a quit request, and
    /// answers whether one came.
    pub fn apply_events(&mut self, events: &Vec<KeyEvent>) -> (quit: bool)
        ensures
            (final(self)@, quit) == apply_events(old(self)@, events@),
    {
        let mut i: usize = 0;
        while i < events.len()
            invariant
                i <= events.len(),
                (self@, false) == apply_events(old(self)@, events@.take(i as int)),
            decreases events.len() - i,
        {
            assert(events@.take(i + 1).drop_last() =~= events@.take(i as int));
            assert(events@.take(i + 1).last() == events@[i as int]);
            match events[i] {
                KeyEvent::Down(k) => self.set_key(k, true),
                KeyEvent::Up(k) => self.set_key(k, false),
                KeyEvent::Quit => {
                    proof {
                        lemma_quit_stays(old(self)@, events@, i as int + 1);
                    }
                    return true;
                },
            }
            i = i + 1;
        }
        assert(events@.take(events.len() as int) =~= events@);
        false
    }
}

/// Once a quit request was taken, later events change nothing.
proof fn lemma_quit_stays(keys: Seq<bool>, events: Seq<KeyEvent>, n: int)
    requires
        0 <= n <= events.len(),
        apply_events(keys, events.take(n)).1,
    ensures
        apply_events(keys, events) == apply_events(keys, events.take(n)),
    decreases events.len() - n,
{
    if n < events.len() {
        assert(events.take(n + 1).drop_last() =~= events.take(n));
        lemma_quit_stays(keys, events, n + 1);
    } else {
        assert(events.take(n) =~= events);
    }
}

/// The keypad key that a keyboard key stands for, by the character on it
/// (either case for letters); `None` for a key off the keypad.
pub open spec fn spec_keypad_key(c: char) -> Option<u8> {
    if c == '1' { Some(0u8) }
    else if c == '2' { Some(1u8) }
    else if c == '3' { Some(2u8) }
    else if c == '4' { Some(3u8) }
    else if c == 'q' || c == 'Q' { Some(4u8) }
    else if c == 'w' || c == 'W' { Some(5u8) }
    else if c == 'e' || c == 'E' { Some(6u8) }
    else if c == 'r' || c == 'R' { Some(7u8) }
    else if c == 'a' || c == 'A' { Some(8u8) }
    else if c == 's' || c == 'S' { Some(9u8) }
    else if c == 'd' || c == 'D' { Some(10u8) }
    else if c == 'f' || c == 'F' { Some(11u8) }
    else if c == 'z' || c == 'Z' { Some(12u8) }
    else if c == 'x' || c == 'X' { Some(13u8) }
    else if c == 'c' || c == 'C' { Some(14u8) }
    else if c == 'v' || c == 'V' { Some(15u8) }
    else { None }
}

/// The keypad key for the keyboard key labelled `c`, if it is one.
pub fn keypad_key(c: char) -> (key: Option<u8>)
    ensures
        key == spec_keypad_key(c),
        key matches Some(k) ==> k < 16,
{
    match c {
        '1' => Some(0),
        '2' => Some(1),
        '3' => Some(2),
        '4' => Some(3),
        'q' | 'Q' => Some(4),
        'w' | 'W' => Some(5),
        'e' | 'E' => Some(6),
        'r' | 'R' => Some(7),
        'a' | 'A' => Some(8),
        's' | 'S' => Some(9),
        'd' | 'D' => Some(10),
        'f' | 'F' => Some(11),
        'z' | 'Z' => Some(12),
        'x' | 'X' => Some(13),
        'c' | 'C' => Some(14),
        'v' | 'V' => Some(15),
        _ => None,
    }
}

/// A key number past the keypad reads key 0.
pub proof fn law_key_numbers_past_keypad(keys: Seq<bool>, key: u8)
    requires
        keys.len() == 16,
        key >= 16,
    ensures
        key_state(keys, key) == keys[0],
{
}

} // verus!
