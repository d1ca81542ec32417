//! Key-combination parsing ("Control+Shift+Delete" -> key and modifier mask).

use vstd::prelude::*;

use crate::text::{chars_of, split_chars, split_on, str_eq, string_of, lowered, to_lowercase};

verus! {

/// The modifier bit that a combination part stands for, or 0 when the part
/// is an ordinary key.
///
/// Parts are compared after lower-casing (ASCII case folding for ASCII
/// parts, Unicode lower-casing beyond).
/// Bit 0: Alt, bit 1: Ctrl, bit 2: Meta (Cmd), bit 3: Shift.
pub open spec fn modifier_bit(part: Seq<char>) -> u32 {
    let l = lowered(part);
    if l == "alt"@ || l == "option"@ {
        1
    } else if l == "control"@ || l == "ctrl"@ {
        2
    } else if l == "meta"@ || l == "command"@ || l == "cmd"@ {
        4
    } else if l == "shift"@ {
        8
    } else {
        0
    }
}

/// Left-to-right fold over the parts: modifiers are or-ed into the mask, any
/// other part becomes the key (the last such part wins).
pub open spec fn key_fold(parts: Seq<Seq<char>>) -> (Seq<char>, u32)
    decreases parts.len(),
{
    if parts.len() == 0 {
        (Seq::<char>::empty(), 0u32)
    } else {
        let (key, mods) = key_fold(parts.drop_last());
        let bit = modifier_bit(parts.last());
        if bit != 0 {
            (key, mods | bit)
        } else {
            (parts.last(), mods)
        }
    }
}

/// The key and modifier mask of a `+`-separated combination.
pub open spec fn key_combination(combo: Seq<char>) -> (Seq<char>, u32) {
    key_fold(split_on(combo, '+'))
}

fn part_modifier(part: &Vec<char>) -> (bit: u32)
    ensures
        bit == modifier_bit(part@),
{
    let folded = to_lowercase(string_of(part).as_str());
    let l = folded.as_str();
    if str_eq(l, "alt") || str_eq(l, "option") {
        1
    } else if str_eq(l, "control") || str_eq(l, "ctrl") {
        2
    } else if str_eq(l, "meta") || str_eq(l, "command") || str_eq(l, "cmd") {
        4
    } else if str_eq(l, "shift") {
        8
    } else {
        0
    }
}

/// Parse a key combination string into the key and a modifier bitmask
/// (bit 0: Alt, bit 1: Ctrl, bit 2: Meta, bit 3: Shift).
pub fn parse_key_combination(combo: &str) -> (r: (String, u32))
    ensures
        r.0@ == key_combination(combo@).0,
        r.1 == key_combination(combo@).1,
{
    let chars = chars_of(combo);
    let parts = split_chars(&chars, '+');
    let ghost all = split_on(combo@, '+');
    let mut modifiers: u32 = 0;
    let mut key: Vec<char> = Vec::new();
    let mut i: usize = 0;
    while i < parts.len()
        invariant
            i <= parts@.len(),
            parts@.len() == all.len(),
            forall|k: int| 0 <= k < parts@.len() ==> #[trigger] parts@[k]@ == all[k],
            (key@, modifiers) == key_fold(all.take(i as int)),
        decreases parts@.len() - i,
    {
        assert(all.take(i + 1).drop_last() =~= all.take(i as int));
        assert(all.take(i + 1).last() == all[i as int]);
        let bit = part_modifier(&parts[i]);
        if bit != 0 {
            modifiers = modifiers | bit;
        } else {
            key = parts[i].clone();
        }
        i = i + 1;
    }
    assert(all.take(parts@.len() as int) =~= all);
    (string_of(&key), modifiers)
}

/// The modifier mask of any combination uses only the four modifier bits.
pub proof fn law_modifier_mask_bounded(parts: Seq<Seq<char>>)
    ensures
        key_fold(parts).1 < 16,
    decreases parts.len(),
{
    if parts.len() > 0 {
        law_modifier_mask_bounded(parts.drop_last());
        let m = key_fold(parts.drop_last()).1;
        let b = modifier_bit(parts.last());
        assert(b == 0 || b == 1 || b == 2 || b == 4 || b == 8);
        if b != 0 {
            assert((m | b) < 16) by (bit_vector)
                requires
                    m < 16,
                    b == 1u32 || b == 2u32 || b == 4u32 || b == 8u32,
            ;
        }
    }
}

/// Each modifier name, in any letter case, stands for its documented bit:
/// `alt` and `option` for bit 0 (1), `control` and `ctrl` for bit 1 (2),
/// `meta`, `command` and `cmd` for bit 2 (4), `shift` for bit 3 (8); any
/// other part is a key. A combination's key is then its last non-modifier
/// part, and adding a modifier part sets exactly that bit.
pub proof fn law_modifier_names(part: Seq<char>, parts: Seq<Seq<char>>)
    ensures
        (lowered(part) == "alt"@ || lowered(part) == "option"@) ==> modifier_bit(part) == 1,
        (lowered(part) == "control"@ || lowered(part) == "ctrl"@) ==> modifier_bit(part) == 2,
        (lowered(part) == "meta"@ || lowered(part) == "command"@ || lowered(part) == "cmd"@)
            ==> modifier_bit(part) == 4,
        lowered(part) == "shift"@ ==> modifier_bit(part) == 8,
        (lowered(part) != "alt"@ && lowered(part) != "option"@ && lowered(part) != "control"@
            && lowered(part) != "ctrl"@ && lowered(part) != "meta"@ && lowered(part) != "command"@
            && lowered(part) != "cmd"@ && lowered(part) != "shift"@) ==> modifier_bit(part) == 0,
        modifier_bit(part) != 0 ==> key_fold(parts.push(part)) == (key_fold(parts).0, key_fold(
            parts,
        ).1 | modifier_bit(part)),
        modifier_bit(part) == 0 ==> key_fold(parts.push(part)) == (part, key_fold(parts).1),
{
    reveal_strlit("alt");
    reveal_strlit("option");
    reveal_strlit("control");
    reveal_strlit("ctrl");
    reveal_strlit("meta");
    reveal_strlit("command");
    reveal_strlit("cmd");
    reveal_strlit("shift");
    assert("alt"@ != "option"@ && "alt"@ != "control"@ && "alt"@ != "ctrl"@ && "alt"@ != "meta"@
        && "alt"@ != "command"@ && "alt"@ != "cmd"@ && "alt"@ != "shift"@) by {
        assert("alt"@.len() != "option"@.len());
        assert("alt"@.len() != "control"@.len());
        assert("alt"@[0] != "ctrl"@[0]);
        assert("alt"@.len() != "meta"@.len());
        assert("alt"@.len() != "command"@.len());
        assert("alt"@[0] != "cmd"@[0]);
        assert("alt"@.len() != "shift"@.len());
    }
    assert("option"@ != "control"@ && "option"@ != "ctrl"@ && "option"@ != "meta"@ && "option"@
        != "command"@ && "option"@ != "cmd"@ && "option"@ != "shift"@) by {
        assert("option"@.len() != "control"@.len());
        assert("option"@.len() != "ctrl"@.len());
        assert("option"@.len() != "meta"@.len());
        assert("option"@.len() != "command"@.len());
        assert("option"@.len() != "cmd"@.len());
        assert("option"@[0] != "shift"@[0]);
    }
    assert("control"@ != "meta"@ && "control"@ != "command"@ && "control"@ != "cmd"@ && "control"@
        != "shift"@ && "ctrl"@ != "meta"@ && "ctrl"@ != "command"@ && "ctrl"@ != "cmd"@ && "ctrl"@
        != "shift"@) by {
        assert("control"@.len() != "meta"@.len());
        assert("control"@[2] != "command"@[2]);
        assert("control"@.len() != "cmd"@.len());
        assert("control"@.len() != "shift"@.len());
        assert("ctrl"@[0] != "meta"@[0]);
        assert("ctrl"@.len() != "command"@.len());
        assert("ctrl"@.len() != "cmd"@.len());
        assert("ctrl"@.len() != "shift"@.len());
    }
    assert("meta"@ != "shift"@ && "command"@ != "shift"@ && "cmd"@ != "shift"@) by {
        assert("meta"@.len() != "shift"@.len());
        assert("command"@.len() != "shift"@.len());
        assert("cmd"@.len() != "shift"@.len());
    }
    assert(parts.push(part).drop_last() =~= parts);
}

} // verus!
