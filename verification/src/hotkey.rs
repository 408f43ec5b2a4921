//! The keys that open the page of the user.

use vstd::prelude::*;

verus! {

/// How many milliseconds pass between two looks at the keys.
pub const LOOK_GAP_MS: u64 = 100;

/// A key that is held down.
#[derive(Clone, Copy, PartialEq, Eq, Structural)]
pub enum Key {
    LControl,
    RControl,
    LAlt,
    RAlt,
    H,
    Other,
}

/// Control, Alt and H are held down together.
pub open spec fn combo_held(keys: Seq<Key>) -> bool {
    &&& keys.contains(Key::LControl) || keys.contains(Key::RControl)
    &&& keys.contains(Key::LAlt) || keys.contains(Key::RAlt)
    &&& keys.contains(Key::H)
}

/// How often the page is opened, over looks at the keys that find the
/// combination held or not, where `held_before` tells of the look before.
pub open spec fn openings(held_before: bool, looks: Seq<bool>) -> nat
    decreases looks.len(),
{
    if looks.len() == 0 {
        0
    } else {
        openings(held_before, looks.drop_last()) + if looks.last() && !last_look(
            held_before,
            looks.drop_last(),
        ) {
            1nat
        } else {
            0nat
        }
    }
}

/// What the last of `looks` found.
pub open spec fn last_look(held_before: bool, looks: Seq<bool>) -> bool {
    if looks.len() == 0 {
        held_before
    } else {
        looks.last()
    }
}

/// Whether `key` is one of `keys`.
fn is_held(keys: &Vec<Key>, key: Key) -> (held: bool)
    ensures
        held == keys@.contains(key),
{
    for i in 0..keys.len()
        invariant
            forall|j: int| 0 <= j < i ==> keys@[j] != key,
    {
        if keys[i] == key {
            assert(keys@[i as int] == key);
            return true;
        }
    }
    false
}

/// Watches for the combination of keys.
pub struct HotkeyListener {
    /// Whether the last look found the combination held.
    pub was_pressed: bool,
}

impl HotkeyListener {
    /// A listener that has not looked yet.
    pub fn new() -> (listener: Self)
        ensures
            !listener.was_pressed,
    {
        HotkeyListener { was_pressed: false }
    }

    /// Looks at the keys that are held down. Says whether the page is to be
    /// opened: the combination is held, and was not at the look before.
    pub fn look(&mut self, keys: &Vec<Key>) -> (open: bool)
        ensures
            final(self).was_pressed == combo_held(keys@),
            open == (combo_held(keys@) && !old(self).was_pressed),
    {
        let control = is_held(keys, Key::LControl) || is_held(keys, Key::RControl);
        let alt = is_held(keys, Key::LAlt) || is_held(keys, Key::RAlt);
        let pressed = control && alt && is_held(keys, Key::H);
        let open = pressed && !self.was_pressed;
        self.was_pressed = pressed;
        open
    }
}

/// However long the combination is held, the page is opened once, and not at
/// all where it was held before.
pub proof fn law_held_combo_opens_once(held_before: bool, looks: Seq<bool>)
    requires
        looks.len() > 0,
        forall|i: int| 0 <= i < looks.len() ==> #[trigger] looks[i],
    ensures
        openings(held_before, looks) == (if held_before {
            0nat
        } else {
            1nat
        }),
    decreases looks.len(),
{
    reveal_with_fuel(openings, 2);
    let front = looks.drop_last();
    assert(looks[looks.len() - 1]);
    if front.len() > 0 {
        assert(forall|i: int| 0 <= i < front.len() ==> front[i] == looks[i]);
        law_held_combo_opens_once(held_before, front);
    }
}

/// As long as the combination is not held, the page is not opened.
pub proof fn law_released_combo_opens_nothing(held_before: bool, looks: Seq<bool>)
    requires
        forall|i: int| 0 <= i < looks.len() ==> !#[trigger] looks[i],
    ensures
        openings(held_before, looks) == 0,
    decreases looks.len(),
{
    if looks.len() > 0 {
        let front = looks.drop_last();
        assert(!looks[looks.len() - 1]);
        assert(forall|i: int| 0 <= i < front.len() ==> front[i] == looks[i]);
        law_released_combo_opens_nothing(held_before, front);
    }
}

/// The combination is held where a Control key, an Alt key and H are, on either
/// side and whatever else is held.
pub proof fn law_other_keys_do_not_matter(keys: Seq<Key>, control: Key, alt: Key)
    requires
        control == Key::LControl || control == Key::RControl,
        alt == Key::LAlt || alt == Key::RAlt,
    ensures
        keys.contains(control) && keys.contains(alt) && keys.contains(Key::H) ==> combo_held(keys),
        !keys.contains(Key::H) ==> !combo_held(keys),
        !keys.contains(Key::LControl) && !keys.contains(Key::RControl) ==> !combo_held(keys),
        !keys.contains(Key::LAlt) && !keys.contains(Key::RAlt) ==> !combo_held(keys),
{
}

/// A look opens the page exactly where it finds the combination held and the look
/// before did not.
pub proof fn law_page_opens_when_the_combo_is_pressed(
    held_before: bool,
    looks: Seq<bool>,
    look: bool,
)
    ensures
        openings(held_before, Seq::empty()) == 0,
        last_look(held_before, looks.push(look)) == look,
        last_look(held_before, Seq::empty()) == held_before,
        openings(held_before, looks.push(look)) == openings(held_before, looks) + (if look
            && !last_look(held_before, looks) {
            1nat
        } else {
            0nat
        }),
{
    assert(looks.push(look).drop_last() =~= looks);
}

/// The keys are looked at ten times in a second.
pub proof fn law_ten_looks_in_a_second(looks: u64)
    ensures
        looks * LOOK_GAP_MS >= 1000 <==> looks >= 10,
{
}

} // verus!
