//! The keypad: which key a keyboard symbol stands for, and which key a
//! waiting program is given.

use vstd::prelude::*;

verus! {

/// The key that the keyboard character `c` stands for.
///
/// The sixteen keys are laid out in four rows, and the left-hand block of a
/// keyboard stands for them:
///
/// ```text
/// keypad     keyboard
/// 1 2 3 C    1 2 3 4
/// 4 5 6 D    q w e r
/// 7 8 9 E    a s d f
/// A 0 B F    z x c v
/// ```
pub open spec fn button_of_char(c: char) -> Option<usize> {
    if c == '1' {
        Some(0x1usize)
    } else if c == '2' {
        Some(0x2usize)
    } else if c == '3' {
        Some(0x3usize)
    } else if c == '4' {
        Some(0xCusize)
    } else if c == 'q' {
        Some(0x4usize)
    } else if c == 'w' {
        Some(0x5usize)
    } else if c == 'e' {
        Some(0x6usize)
    } else if c == 'r' {
        Some(0xDusize)
    } else if c == 'a' {
        Some(0x7usize)
    } else if c == 's' {
        Some(0x8usize)
    } else if c == 'd' {
        Some(0x9usize)
    } else if c == 'f' {
        Some(0xEusize)
    } else if c == 'z' {
        Some(0xAusize)
    } else if c == 'x' {
        Some(0x0usize)
    } else if c == 'c' {
        Some(0xBusize)
    } else if c == 'v' {
        Some(0xFusize)
    } else {
        None
    }
}

/// The key that the key symbol `key` stands for: that of its character if it
/// is a single character, and none otherwise.
pub open spec fn button_of_key(key: Seq<char>) -> Option<usize> {
    if key.len() == 1 {
        button_of_char(key[0])
    } else {
        None
    }
}

/// The keyboard character that stands for the key `key`.
pub open spec fn char_of_button(key: usize) -> char {
    if key == 0x0 {
        'x'
    } else if key == 0x1 {
        '1'
    } else if key == 0x2 {
        '2'
    } else if key == 0x3 {
        '3'
    } else if key == 0x4 {
        'q'
    } else if key == 0x5 {
        'w'
    } else if key == 0x6 {
        'e'
    } else if key == 0x7 {
        'a'
    } else if key == 0x8 {
        's'
    } else if key == 0x9 {
        'd'
    } else if key == 0xA {
        'z'
    } else if key == 0xB {
        'c'
    } else if key == 0xC {
        '4'
    } else if key == 0xD {
        'r'
    } else if key == 0xE {
        'f'
    } else {
        'v'
    }
}

/// Every key of the keypad has exactly one keyboard character: a character
/// stands for a key below 16 or for none, each key has its character, and
/// two characters never stand for the same key.
pub proof fn lemma_buttons_and_chars(c: char, key: usize)
    ensures
        button_of_char(c) matches Some(k) ==> k < 16 && char_of_button(k) == c,
        key < 16 ==> button_of_char(char_of_button(key)) == Some(key),
{
}

/// `k` is a key that is down, and no key with a lower number is.
pub open spec fn is_first_pressed(keys: Seq<bool>, k: int) -> bool {
    &&& 0 <= k < keys.len()
    &&& keys[k]
    &&& forall|j: int| 0 <= j < k ==> !keys[j]
}

/// The key with the lowest number that is down, if any is.
pub open spec fn first_pressed(keys: Seq<bool>) -> Option<int> {
    if exists|k: int| is_first_pressed(keys, k) {
        Some(choose|k: int| is_first_pressed(keys, k))
    } else {
        None
    }
}

/// A key that is down with none below it down is the one that
/// [`first_pressed`] gives.
pub proof fn lemma_first_pressed_is(keys: Seq<bool>, k: int)
    requires
        is_first_pressed(keys, k),
    ensures
        first_pressed(keys) == Some(k),
{
}

/// With no key down, [`first_pressed`] gives none; and when it gives none, no
/// key is down.
pub proof fn lemma_first_pressed_none(keys: Seq<bool>)
    ensures
        first_pressed(keys) is None <==> forall|j: int| 0 <= j < keys.len() ==> !keys[j],
{
    if exists|j: int| 0 <= j < keys.len() && keys[j] {
        let j = choose|j: int| 0 <= j < keys.len() && keys[j];
        lemma_some_key_is_first(keys, j);
    }
}

/// If the key `j` is down, some key at or below `j` is the first one down.
proof fn lemma_some_key_is_first(keys: Seq<bool>, j: int)
    requires
        0 <= j < keys.len(),
        keys[j],
    ensures
        exists|k: int| is_first_pressed(keys, k),
    decreases j,
{
    if exists|i: int| 0 <= i < j && keys[i] {
        let i = choose|i: int| 0 <= i < j && keys[i];
        lemma_some_key_is_first(keys, i);
    } else {
        assert(is_first_pressed(keys, j));
    }
}

} // verus!
